//! Command dispatch for chat bots: from the text of an incoming message to
//! the registered command it invokes, or to the reason why it invokes none.

pub mod client;
pub mod dispatch;
pub mod error;
pub mod gate;
pub mod gateway;
pub mod http;
pub mod laws;
pub mod map;
pub mod matcher;
pub mod model;
pub mod options;
pub mod outcome;
pub mod prefix;
pub mod scanner;
pub mod text;
pub mod voice;
