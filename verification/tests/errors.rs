use dispatch::client::ClientError;
use dispatch::error::SerenityError;
use dispatch::gateway::{CloseFrame, GatewayError};
use dispatch::http::{DiscordJsonError, ErrorResponse, HttpError};
use dispatch::model::{ModelError, Permissions};
use dispatch::outcome::UnknownCommand;
use dispatch::text::{same_text, CharClass};
use dispatch::voice::{DcaError, ProcessOutput, VoiceError};
use std::collections::HashSet;

#[test]
fn test_error_response_into() {
    let error = DiscordJsonError { code: 43121215, message: String::from("This is a Ferris error") };
    let error_response = ErrorResponse::new(403, String::from("https://ferris.crab"), Some(error.clone()));
    let known = ErrorResponse { status_code: 403, url: String::from("https://ferris.crab"), error };
    assert_eq!(error_response, known);
}

#[test]
fn responses_are_compared_field_by_field() {
    let error = DiscordJsonError { code: 7, message: String::from("no") };
    let known = ErrorResponse::new(404, String::from("https://ferris.crab"), Some(error.clone()));
    assert_ne!(known, ErrorResponse::new(403, String::from("https://ferris.crab"), Some(error.clone())));
    assert_ne!(known, ErrorResponse::new(404, String::from("https://ferris.crab/"), Some(error.clone())));
    assert_ne!(known, ErrorResponse::new(404, String::from("https://ferris.crab"), None));
    assert_ne!(error, DiscordJsonError { code: 8, message: String::from("no") });
    assert_eq!(error, DiscordJsonError { code: 7, message: String::from("no") });
}

#[test]
fn errors_of_the_model_and_of_parsing_are_compared() {
    assert_eq!(ModelError::InvalidPermissions(Permissions { bits: 8 }), ModelError::InvalidPermissions(Permissions { bits: 8 }));
    assert_ne!(ModelError::InvalidPermissions(Permissions { bits: 8 }), ModelError::InvalidPermissions(Permissions { bits: 9 }));
    let unknown = UnknownCommand(Some(String::from("pong")));
    assert_eq!(unknown.clone(), unknown);
    assert_ne!(unknown, UnknownCommand(None));
    let mut seen = HashSet::new();
    seen.insert(unknown.clone());
    seen.insert(unknown);
    seen.insert(UnknownCommand(None));
    assert_eq!(seen.len(), 2);
    let mut kinds = HashSet::new();
    kinds.insert(ModelError::InvalidPermissions(Permissions { bits: 8 }));
    kinds.insert(ModelError::InvalidPermissions(Permissions { bits: 8 }));
    assert_eq!(kinds.len(), 1);
}

#[test]
fn unreadable_body_gets_a_stand_in() {
    let response = ErrorResponse::new(500, String::from("https://ferris.crab"), None);
    assert_eq!(response.status_code, 500);
    assert_eq!(response.error.code, -1);
    assert_eq!(response.error.message, "[Serenity] No correct json was received!");
}

#[test]
fn json_error_is_shown_in_quotes() {
    let error = DiscordJsonError { code: 1, message: String::from("nope") };
    assert_eq!(error.debug_text(), "\"nope\"");
    let empty = DiscordJsonError { code: 1, message: String::new() };
    assert_eq!(empty.debug_text(), "\"\"");
}

#[test]
fn client_errors_describe_themselves() {
    assert_eq!(ClientError::InvalidToken.description(), "The provided token was invalid");
    assert_eq!(ClientError::ShardBootFailure.description(), "Failed to (re-)boot a shard");
    assert_eq!(ClientError::Shutdown.description(), "The client's shard shut down");
}

#[test]
fn model_errors_describe_themselves() {
    assert_eq!(ModelError::BulkDeleteAmount.description(), "Too few/many messages to bulk delete");
    assert_eq!(ModelError::DeleteMessageDaysAmount(8).description(), "Invalid delete message days");
    assert_eq!(ModelError::EmbedTooLarge(3).description(), "Embed too large");
    assert_eq!(ModelError::InvalidPermissions(Permissions { bits: 8 }).description(), "Invalid permissions");
    assert_eq!(ModelError::MessageTooLong(12).description(), "Message too large");
    assert_eq!(ModelError::InvalidChannelType.description(), "invalid channel type");
}

#[test]
fn gateway_errors_describe_themselves() {
    assert_eq!(GatewayError::Closed(None).description(), "Connection closed");
    let frame = CloseFrame { code: 4004, reason: String::from("bad token") };
    assert_eq!(GatewayError::Closed(Some(frame)).description(), "Connection closed");
    assert_eq!(GatewayError::OverloadedShard.description(), "Shard has too many guilds");
    assert_eq!(GatewayError::NoSessionId.description(), "No Session Id present when required");
}

#[test]
fn http_errors_describe_themselves() {
    assert_eq!(HttpError::RateLimitI64.description(), "Error decoding a header into an i64");
    assert_eq!(HttpError::Url(String::from("x")).description(), "failed to parse url");
    assert_eq!(HttpError::Request(String::from("x")).description(), "sending http request");
    let response = ErrorResponse::new(404, String::from("https://ferris.crab"), None);
    assert_eq!(HttpError::UnsuccessfulRequest(response).description(), "request failed");
}

#[test]
fn voice_errors_describe_themselves() {
    assert_eq!(VoiceError::KeyGen.description(), "generating key");
    let output = ProcessOutput { status: Some(1), stdout: Vec::new(), stderr: vec![1, 2] };
    assert_eq!(VoiceError::YouTubeDLRun(output).description(), "failed to run youtube-dl");
    assert_eq!(DcaError::InvalidSize(-3).description(), "invalid DCA size");
    assert_eq!(DcaError::InvalidMetadata(String::from("EOF at 1:1")).description(), "EOF at 1:1");
}

#[test]
fn library_error_describes_what_it_holds() {
    let decode = SerenityError::Decode { msg: "Expected u64", value: String::from("\"x\"") };
    assert_eq!(decode.description(), "Expected u64");
    assert_eq!(SerenityError::Other("odd").description(), "odd");
    assert_eq!(SerenityError::ExceededLimit(String::from("reason"), 512).description(), "Input exceeded a limit");
    assert_eq!(SerenityError::Url(String::from("relative URL")).description(), "relative URL");
    assert_eq!(SerenityError::Model(ModelError::Hierarchy).description(), "Role hierarchy prevents this action");
    assert_eq!(SerenityError::Client(ClientError::Shutdown).description(), "The client's shard shut down");
    assert_eq!(SerenityError::Gateway(GatewayError::ExpectedHello).description(), "Expected a Hello");
    assert_eq!(SerenityError::Http(Box::new(HttpError::RateLimitUtf8)).description(), "Error decoding a header from UTF-8");
    assert_eq!(SerenityError::Voice(VoiceError::Streams).description(), "Voice error");
    assert_eq!(SerenityError::Json(String::from("eof")).description(), "eof");
}

#[test]
fn library_error_names_its_cause() {
    assert_eq!(SerenityError::Json(String::from("eof")).cause(), Some("eof"));
    assert_eq!(SerenityError::Io(String::from("broken pipe")).cause(), Some("broken pipe"));
    assert_eq!(SerenityError::Tungstenite(String::from("closed")).cause(), Some("closed"));
    assert_eq!(SerenityError::Num(String::from("invalid digit")).cause(), None);
    assert_eq!(SerenityError::Other("odd").cause(), None);
    assert_eq!(SerenityError::Voice(VoiceError::Streams).cause(), None);
}

#[test]
fn whitespace_is_what_the_standard_library_says() {
    for code in 0..=0x10FFFFu32 {
        if let Some(c) = char::from_u32(code) {
            assert_eq!(CharClass::Whitespace.has(c), c.is_whitespace(), "U+{:04X}", code);
        }
    }
}

#[test]
fn digits_are_the_ten_ascii_digits() {
    let digits: Vec<char> = (0..=0x10FFFFu32).filter_map(char::from_u32).filter(|c| CharClass::Digit.has(*c)).collect();
    assert_eq!(digits, vec!['0', '1', '2', '3', '4', '5', '6', '7', '8', '9']);
}

#[test]
fn classes_test_whole_strings() {
    assert!(CharClass::Digit.matches("0123456789"));
    assert!(CharClass::Digit.matches(""));
    assert!(!CharClass::Digit.matches("12a"));
    assert!(!CharClass::Digit.matches("١٢٣"));
    assert!(CharClass::Whitespace.matches(" \t\r\n\u{3000}"));
    assert!(!CharClass::Whitespace.matches(" x"));
    assert!(!CharClass::Whitespace.matches("\u{200B}"));
}

#[test]
fn texts_are_compared_by_their_characters() {
    assert!(same_text("", ""));
    assert!(same_text("héllo", "héllo"));
    assert!(!same_text("hello", "hellp"));
    assert!(!same_text("hello", "hell"));
    assert!(!same_text("e\u{301}", "é"));
}
