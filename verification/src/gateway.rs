//! Errors of the gateway.

use vstd::prelude::*;

verus! {

/// What the other side said when it closed the connection.
#[derive(Clone, Debug)]
pub struct CloseFrame {
    /// The code of the reason.
    pub code: u16,
    /// The reason in words.
    pub reason: String,
}

/// An error that occurred while dealing with the gateway.
#[derive(Clone, Debug)]
pub enum GatewayError {
    /// There was an error building a URL.
    BuildingUrl,
    /// The connection closed, potentially uncleanly.
    Closed(Option<CloseFrame>),
    /// A Hello was expected during a handshake.
    ExpectedHello,
    /// Sending a heartbeat failed.
    HeartbeatFailed,
    /// A bad token was sent in the IDENTIFY.
    InvalidAuthentication,
    /// A Ready or an InvalidateSession was expected.
    InvalidHandshake,
    /// An unknown opcode was received from the gateway.
    InvalidOpCode,
    /// Invalid sharding data was sent in the IDENTIFY.
    InvalidShardData,
    /// No authentication was sent in the IDENTIFY.
    NoAuthentication,
    /// A session id was expected, for resuming, but was not present.
    NoSessionId,
    /// A shard would have too many guilds assigned to it.
    OverloadedShard,
    /// Reconnecting failed after a number of attempts.
    ReconnectFailure,
}

impl GatewayError {
    /// The text that `description` returns.
    pub open spec fn described(self) -> Seq<char> {
        match self {
            GatewayError::BuildingUrl => "Error building url"@,
            GatewayError::Closed(_) => "Connection closed"@,
            GatewayError::ExpectedHello => "Expected a Hello"@,
            GatewayError::HeartbeatFailed => "Failed sending a heartbeat"@,
            GatewayError::InvalidAuthentication => "Sent invalid authentication"@,
            GatewayError::InvalidHandshake => "Expected a valid Handshake"@,
            GatewayError::InvalidOpCode => "Invalid OpCode"@,
            GatewayError::InvalidShardData => "Sent invalid shard data"@,
            GatewayError::NoAuthentication => "Sent no authentication"@,
            GatewayError::NoSessionId => "No Session Id present when required"@,
            GatewayError::OverloadedShard => "Shard has too many guilds"@,
            GatewayError::ReconnectFailure => "Failed to Reconnect"@,
        }
    }

    /// What went wrong, in words.
    pub fn description(&self) -> (r: &'static str)
        ensures
            r@ == self.described(),
    {
        match self {
            GatewayError::BuildingUrl => "Error building url",
            GatewayError::Closed(_) => "Connection closed",
            GatewayError::ExpectedHello => "Expected a Hello",
            GatewayError::HeartbeatFailed => "Failed sending a heartbeat",
            GatewayError::InvalidAuthentication => "Sent invalid authentication",
            GatewayError::InvalidHandshake => "Expected a valid Handshake",
            GatewayError::InvalidOpCode => "Invalid OpCode",
            GatewayError::InvalidShardData => "Sent invalid shard data",
            GatewayError::NoAuthentication => "Sent no authentication",
            GatewayError::NoSessionId => "No Session Id present when required",
            GatewayError::OverloadedShard => "Shard has too many guilds",
            GatewayError::ReconnectFailure => "Failed to Reconnect",
        }
    }
}

} // verus!
