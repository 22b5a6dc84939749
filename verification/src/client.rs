//! Errors of the client.

use vstd::prelude::*;

verus! {

/// An error returned from the client.
#[derive(Clone, Copy, Debug, PartialEq, Eq, Hash)]
#[non_exhaustive]
pub enum ClientError {
    /// The token provided is invalid.
    InvalidToken,
    /// A shard has failed to reboot after its attempts to resume or
    /// reconnect.
    ShardBootFailure,
    /// All shards that the client is responsible for have shut down with
    /// an error.
    Shutdown,
}

impl ClientError {
    /// The text that `description` returns.
    pub open spec fn described(self) -> Seq<char> {
        match self {
            ClientError::InvalidToken => "The provided token was invalid"@,
            ClientError::ShardBootFailure => "Failed to (re-)boot a shard"@,
            ClientError::Shutdown => "The client's shard shut down"@,
        }
    }

    /// What went wrong, in words.
    pub fn description(&self) -> (r: &'static str)
        ensures
            r@ == self.described(),
    {
        match self {
            ClientError::InvalidToken => "The provided token was invalid",
            ClientError::ShardBootFailure => "Failed to (re-)boot a shard",
            ClientError::Shutdown => "The client's shard shut down",
        }
    }
}

} // verus!
