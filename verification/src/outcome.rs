//! What resolving a message ends in.

use crate::gate::DispatchError;
use crate::model::Permissions;
use crate::options::{Command, CommandGroup};
use vstd::prelude::*;

verus! {

/// No registered name was found where one was looked for. It carries the
/// text that was looked up, if one was read.
#[derive(Debug, Clone, PartialEq, Eq, Hash)]
pub struct UnknownCommand(pub Option<String>);

/// Why resolving failed: no name was found, or one was found that the
/// message may not use.
#[derive(Debug)]
pub enum ParseError {
    Unknown(UnknownCommand),
    Dispatch(DispatchError),
}

/// What a message invokes.
#[derive(Debug)]
pub enum Invoke<'a> {
    /// A command, and the group through which it was reached.
    Command { group: &'a CommandGroup, command: &'a Command },
    /// The help command, under the name that the message used.
    Help(&'a str),
}

/// The reason of a failure, with texts in place of strings.
pub enum Reason {
    UnknownCommand(Option<Seq<char>>),
    CommandDisabled(Seq<char>),
    OnlyForOwners,
    OnlyForDM,
    OnlyForGuilds,
    LackingPermissions(Permissions),
    LackingRole,
}

impl View for DispatchError {
    type V = Reason;

    open spec fn view(&self) -> Reason {
        match *self {
            DispatchError::CommandDisabled(name) => Reason::CommandDisabled(name@),
            DispatchError::OnlyForOwners => Reason::OnlyForOwners,
            DispatchError::OnlyForDM => Reason::OnlyForDM,
            DispatchError::OnlyForGuilds => Reason::OnlyForGuilds,
            DispatchError::LackingPermissions(missing) => Reason::LackingPermissions(missing),
            DispatchError::LackingRole => Reason::LackingRole,
        }
    }
}

impl View for UnknownCommand {
    type V = Reason;

    open spec fn view(&self) -> Reason {
        match self.0 {
            Some(token) => Reason::UnknownCommand(Some(token@)),
            None => Reason::UnknownCommand(None),
        }
    }
}

impl View for ParseError {
    type V = Reason;

    open spec fn view(&self) -> Reason {
        match *self {
            ParseError::Unknown(unknown) => unknown@,
            ParseError::Dispatch(denied) => denied@,
        }
    }
}

/// The end of one step of resolving: what it found or why it failed, and
/// by how many characters the cursor has moved.
pub struct Outcome<T> {
    pub result: Result<T, Reason>,
    pub advance: int,
}

impl<T> Outcome<T> {
    /// The same outcome after the cursor had already moved by `before`
    /// characters.
    pub open spec fn after(self, before: int) -> Outcome<T> {
        Outcome { result: self.result, advance: before + self.advance }
    }
}

} // verus!
