//! Errors of the voice module.

use vstd::prelude::*;

verus! {

/// What a process left behind when it ended.
#[derive(Clone, Debug)]
pub struct ProcessOutput {
    /// The exit code, if the process ended with one.
    pub status: Option<i32>,
    /// What it wrote to its standard output.
    pub stdout: Vec<u8>,
    /// What it wrote to its standard error.
    pub stderr: Vec<u8>,
}

/// An error returned from the voice module.
#[derive(Clone, Debug)]
pub enum VoiceError {
    ExpectedHandshake,
    FindingByte,
    HostnameResolve,
    KeyGen,
    VoiceModeInvalid,
    VoiceModeUnavailable,
    /// An endpoint URL was invalid.
    EndpointUrl,
    /// An error occurred while checking if a path is stereo.
    Streams,
    /// An error occurred while running `youtube-dl`.
    YouTubeDLRun(ProcessOutput),
    /// The JSON output of `youtube-dl` could not be processed; the output.
    YouTubeDLProcessing(String),
    /// The JSON output of `youtube-dl` has no `url` field; the output.
    YouTubeDLUrl(String),
}

/// An error returned when reading a DCA file.
#[derive(Clone, Debug)]
#[non_exhaustive]
pub enum DcaError {
    InvalidHeader,
    /// The metadata is no valid JSON; the message of the parser.
    InvalidMetadata(String),
    InvalidSize(i32),
}

impl VoiceError {
    /// The text that `description` returns.
    pub open spec fn described(self) -> Seq<char> {
        match self {
            VoiceError::ExpectedHandshake => "expected handshake"@,
            VoiceError::FindingByte => "couldn't find desired byte"@,
            VoiceError::HostnameResolve => "resolving hostname"@,
            VoiceError::KeyGen => "generating key"@,
            VoiceError::VoiceModeInvalid => "invalid voice mode"@,
            VoiceError::VoiceModeUnavailable => "selected voice mode unavailable"@,
            VoiceError::EndpointUrl => "endpoint url was invalid"@,
            VoiceError::Streams => "checking if a path was stereo"@,
            VoiceError::YouTubeDLRun(_) => "failed to run youtube-dl"@,
            VoiceError::YouTubeDLProcessing(_) => "processing json from youtube-dl"@,
            VoiceError::YouTubeDLUrl(_) => "url field missing from youtube-dl output"@,
        }
    }

    /// What went wrong, in words.
    pub fn description(&self) -> (r: &'static str)
        ensures
            r@ == self.described(),
    {
        match self {
            VoiceError::ExpectedHandshake => "expected handshake",
            VoiceError::FindingByte => "couldn't find desired byte",
            VoiceError::HostnameResolve => "resolving hostname",
            VoiceError::KeyGen => "generating key",
            VoiceError::VoiceModeInvalid => "invalid voice mode",
            VoiceError::VoiceModeUnavailable => "selected voice mode unavailable",
            VoiceError::EndpointUrl => "endpoint url was invalid",
            VoiceError::Streams => "checking if a path was stereo",
            VoiceError::YouTubeDLRun(_) => "failed to run youtube-dl",
            VoiceError::YouTubeDLProcessing(_) => "processing json from youtube-dl",
            VoiceError::YouTubeDLUrl(_) => "url field missing from youtube-dl output",
        }
    }
}

impl DcaError {
    /// The text that `description` returns.
    pub open spec fn described(self) -> Seq<char> {
        match self {
            DcaError::InvalidHeader => "invalid DCA header"@,
            DcaError::InvalidMetadata(message) => message@,
            DcaError::InvalidSize(_) => "invalid DCA size"@,
        }
    }

    /// What went wrong, in words.
    pub fn description(&self) -> (r: &str)
        ensures
            r@ == self.described(),
    {
        match self {
            DcaError::InvalidHeader => "invalid DCA header",
            DcaError::InvalidMetadata(message) => message.as_str(),
            DcaError::InvalidSize(_) => "invalid DCA size",
        }
    }
}

} // verus!
