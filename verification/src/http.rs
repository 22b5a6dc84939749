//! Errors of the REST client.

use vstd::prelude::*;
use vstd::string::*;

verus! {

/// The error that the service reports in the body of a response.
#[derive(Clone, Debug, PartialEq)]
pub struct DiscordJsonError {
    /// The code of the error.
    pub code: isize,
    /// The error in words.
    pub message: String,
}

/// A response that reports a failure.
#[derive(Clone, Debug, PartialEq)]
pub struct ErrorResponse {
    /// The status code of the response.
    pub status_code: u16,
    /// The address that was asked.
    pub url: String,
    /// The error in the body of the response.
    pub error: DiscordJsonError,
}

/// The text that stands for the error of a response whose body could not
/// be read as one.
pub open spec fn unreadable_body() -> Seq<char> {
    "[Serenity] No correct json was received!"@
}

impl DiscordJsonError {
    /// The message between double quotes.
    pub open spec fn quoted(self) -> Seq<char> {
        seq!['"'] + self.message@ + seq!['"']
    }

    /// The error as it is shown when debugging: its message between double
    /// quotes.
    pub fn debug_text(&self) -> (r: String)
        ensures
            r@ == self.quoted(),
    {
        proof {
            reveal_strlit("\"");
        }
        let mut r = String::from_str("\"");
        r.append(self.message.as_str());
        r.append("\"");
        assert(r@ =~= self.quoted());
        r
    }
}

impl ErrorResponse {
    /// The response with the given status and address. Its error is the
    /// one that was read from its body, if one could be read; if not, an
    /// error with code -1 that says so.
    pub fn new(status_code: u16, url: String, body: Option<DiscordJsonError>) -> (r: ErrorResponse)
        ensures
            r.status_code == status_code,
            r.url == url,
            match body {
                Some(error) => r.error == error,
                None => r.error.code == -1 && r.error.message@ == unreadable_body(),
            },
    {
        let error = match body {
            Some(error) => error,
            None => DiscordJsonError {
                code: -1,
                message: String::from_str("[Serenity] No correct json was received!"),
            },
        };
        ErrorResponse { status_code, url, error }
    }
}

/// An error of the REST client.
#[derive(Debug)]
pub enum HttpError {
    /// A response came with a status code that reports a failure.
    UnsuccessfulRequest(ErrorResponse),
    /// A rate limit header could not be read as a number.
    RateLimitI64,
    /// A rate limit header was not UTF-8.
    RateLimitUtf8,
    /// An address could not be parsed; the parser's message.
    Url(String),
    /// The value of a header was invalid; the message that says why.
    InvalidHeader(String),
    /// Sending a request failed; the message of the transport.
    Request(String),
}

impl HttpError {
    /// The text that `description` returns.
    pub open spec fn described(self) -> Seq<char> {
        match self {
            HttpError::UnsuccessfulRequest(_) => "request failed"@,
            HttpError::RateLimitI64 => "Error decoding a header into an i64"@,
            HttpError::RateLimitUtf8 => "Error decoding a header from UTF-8"@,
            HttpError::Url(_) => "failed to parse url"@,
            HttpError::InvalidHeader(_) => "invalid header value"@,
            HttpError::Request(_) => "sending http request"@,
        }
    }

    /// What went wrong, in words.
    pub fn description(&self) -> (r: &'static str)
        ensures
            r@ == self.described(),
    {
        match self {
            HttpError::UnsuccessfulRequest(_) => "request failed",
            HttpError::RateLimitI64 => "Error decoding a header into an i64",
            HttpError::RateLimitUtf8 => "Error decoding a header from UTF-8",
            HttpError::Url(_) => "failed to parse url",
            HttpError::InvalidHeader(_) => "invalid header value",
            HttpError::Request(_) => "sending http request",
        }
    }
}

} // verus!
