//! The error that the library returns, whatever part of it failed.

use crate::client::ClientError;
use crate::gateway::GatewayError;
use crate::http::HttpError;
use crate::model::ModelError;
use crate::voice::VoiceError;
use vstd::prelude::*;

verus! {

/// An error of any part of the library. Where another library failed, the
/// error holds the description that the failure gives of itself.
#[derive(Debug)]
#[non_exhaustive]
pub enum SerenityError {
    /// A payload could not be decoded. It holds what was expected and the
    /// payload, as JSON text.
    Decode { msg: &'static str, value: String },
    /// An input was longer than allowed. It holds the input and the limit.
    ExceededLimit(String, u32),
    /// Formatting a value failed.
    Format,
    /// Reading or writing failed.
    Io(String),
    /// JSON could not be read or written.
    Json(String),
    /// An error of the model.
    Model(ModelError),
    /// A number could not be parsed.
    Num(String),
    /// Some other error.
    Other(&'static str),
    /// An address could not be built.
    Url(String),
    /// An error of the client.
    Client(ClientError),
    /// An error of the gateway.
    Gateway(GatewayError),
    /// An error of the REST client.
    Http(Box<HttpError>),
    /// The TLS layer failed.
    Rustls(String),
    /// The WebSocket layer failed.
    Tungstenite(String),
    /// The audio codec failed.
    Opus(String),
    /// An error of the voice module.
    Voice(VoiceError),
}

impl SerenityError {
    /// The text that `description` returns: a text of its own for an input
    /// over its limit, for a failure to format and for an error of the
    /// voice module; the description of the error inside for the errors of
    /// the other parts of the library; the message held otherwise.
    pub open spec fn described(self) -> Seq<char> {
        match self {
            SerenityError::Decode { msg, .. } => msg@,
            SerenityError::Other(msg) => msg@,
            SerenityError::ExceededLimit(_, _) => "Input exceeded a limit"@,
            SerenityError::Format => "an error occurred when formatting an argument"@,
            SerenityError::Io(inner) => inner@,
            SerenityError::Json(inner) => inner@,
            SerenityError::Model(inner) => inner.described(),
            SerenityError::Num(inner) => inner@,
            SerenityError::Url(inner) => inner@,
            SerenityError::Client(inner) => inner.described(),
            SerenityError::Gateway(inner) => inner.described(),
            SerenityError::Http(inner) => inner.described(),
            SerenityError::Rustls(inner) => inner@,
            SerenityError::Tungstenite(inner) => inner@,
            SerenityError::Opus(inner) => inner@,
            SerenityError::Voice(_) => "Voice error"@,
        }
    }

    /// The description of the failure underneath, for the failures of
    /// reading or writing, of JSON and of the WebSocket layer.
    pub open spec fn caused(self) -> Option<Seq<char>> {
        match self {
            SerenityError::Json(inner) => Some(inner@),
            SerenityError::Io(inner) => Some(inner@),
            SerenityError::Tungstenite(inner) => Some(inner@),
            _ => None,
        }
    }

    /// What went wrong, in words.
    pub fn description(&self) -> (r: &str)
        ensures
            r@ == self.described(),
    {
        match self {
            SerenityError::Decode { msg, .. } => msg,
            SerenityError::Other(msg) => msg,
            SerenityError::ExceededLimit(_, _) => "Input exceeded a limit",
            SerenityError::Format => "an error occurred when formatting an argument",
            SerenityError::Io(inner) => inner.as_str(),
            SerenityError::Json(inner) => inner.as_str(),
            SerenityError::Model(inner) => inner.description(),
            SerenityError::Num(inner) => inner.as_str(),
            SerenityError::Url(inner) => inner.as_str(),
            SerenityError::Client(inner) => inner.description(),
            SerenityError::Gateway(inner) => inner.description(),
            SerenityError::Http(inner) => inner.description(),
            SerenityError::Rustls(inner) => inner.as_str(),
            SerenityError::Tungstenite(inner) => inner.as_str(),
            SerenityError::Opus(inner) => inner.as_str(),
            SerenityError::Voice(_) => "Voice error",
        }
    }

    /// The description of the failure underneath, if the error holds one
    /// of another library that has a cause to show.
    pub fn cause(&self) -> (r: Option<&str>)
        ensures
            match r {
                Some(message) => self.caused() == Some(message@),
                None => self.caused() is None,
            },
    {
        match self {
            SerenityError::Json(inner) => Some(inner.as_str()),
            SerenityError::Io(inner) => Some(inner.as_str()),
            SerenityError::Tungstenite(inner) => Some(inner.as_str()),
            _ => None,
        }
    }
}

} // verus!
