//! What the dispatcher reads of a message and of the cache of guilds.

use vstd::prelude::*;

verus! {

/// A set of permissions, one bit for each.
#[derive(Clone, Copy, Debug, PartialEq, Eq, Hash)]
pub struct Permissions {
    pub bits: u64,
}

/// The bit of the permission that stands for all the others.
pub const ADMINISTRATOR: u64 = 0x8;

impl Permissions {
    /// No permission at all.
    pub fn empty() -> (r: Permissions)
        ensures
            r.bits == 0,
    {
        Permissions { bits: 0 }
    }

    /// Every permission of `other` is one of `self`.
    pub open spec fn includes(self, other: Permissions) -> bool {
        self.bits & other.bits == other.bits
    }

    /// The administrator permission is one of `self`.
    pub open spec fn is_administrator(self) -> bool {
        self.bits & ADMINISTRATOR == ADMINISTRATOR
    }

    /// Whether every permission of `other` is one of `self`.
    pub fn contains(self, other: Permissions) -> (r: bool)
        ensures
            r == self.includes(other),
    {
        self.bits & other.bits == other.bits
    }

    /// Whether the administrator permission is one of `self`.
    pub fn administrator(self) -> (r: bool)
        ensures
            r == self.is_administrator(),
    {
        self.bits & ADMINISTRATOR == ADMINISTRATOR
    }
}

/// An error returned from the model.
#[derive(Clone, Copy, Debug, PartialEq, Eq, Hash)]
pub enum ModelError {
    /// The number of messages to delete at once is out of range.
    BulkDeleteAmount,
    /// The number of days of messages to delete is not allowed.
    DeleteMessageDaysAmount(u8),
    /// The text of an embed is too long; by how much.
    EmbedTooLarge(u64),
    /// A guild could not be found in the cache.
    GuildNotFound,
    /// A role could not be found in the cache.
    RoleNotFound,
    /// The hierarchy of roles prevents the action.
    Hierarchy,
    /// The current user lacks these permissions.
    InvalidPermissions(Permissions),
    /// The current user could not perform the action.
    InvalidUser,
    /// The item is missing from the cache.
    ItemMissing,
    /// The content of a message is too long; by how many bytes.
    MessageTooLong(u64),
    /// The current user tried to message another bot.
    MessagingBot,
    /// The kind of channel cannot perform the action.
    InvalidChannelType,
}

impl ModelError {
    /// The text that `description` returns.
    pub open spec fn described(self) -> Seq<char> {
        match self {
            ModelError::BulkDeleteAmount => "Too few/many messages to bulk delete"@,
            ModelError::DeleteMessageDaysAmount(_) => "Invalid delete message days"@,
            ModelError::EmbedTooLarge(_) => "Embed too large"@,
            ModelError::GuildNotFound => "Guild not found in the cache"@,
            ModelError::RoleNotFound => "role couldn't be found by id in cache"@,
            ModelError::Hierarchy => "Role hierarchy prevents this action"@,
            ModelError::InvalidPermissions(_) => "Invalid permissions"@,
            ModelError::InvalidUser => "The current user can not perform the action"@,
            ModelError::ItemMissing => "The required item is missing from the cache"@,
            ModelError::MessageTooLong(_) => "Message too large"@,
            ModelError::MessagingBot => "Attempted to message another bot user"@,
            ModelError::InvalidChannelType => "invalid channel type"@,
        }
    }

    /// What went wrong, in words.
    pub fn description(&self) -> (r: &'static str)
        ensures
            r@ == self.described(),
    {
        match self {
            ModelError::BulkDeleteAmount => "Too few/many messages to bulk delete",
            ModelError::DeleteMessageDaysAmount(_) => "Invalid delete message days",
            ModelError::EmbedTooLarge(_) => "Embed too large",
            ModelError::GuildNotFound => "Guild not found in the cache",
            ModelError::RoleNotFound => "role couldn't be found by id in cache",
            ModelError::Hierarchy => "Role hierarchy prevents this action",
            ModelError::InvalidPermissions(_) => "Invalid permissions",
            ModelError::InvalidUser => "The current user can not perform the action",
            ModelError::ItemMissing => "The required item is missing from the cache",
            ModelError::MessageTooLong(_) => "Message too large",
            ModelError::MessagingBot => "Attempted to message another bot user",
            ModelError::InvalidChannelType => "invalid channel type",
        }
    }
}

/// A message, as far as dispatch depends on it.
#[derive(Clone, Copy, Debug)]
pub struct Message {
    /// Who wrote the message.
    pub author_id: u64,
    /// The guild the message was sent in, if it says so.
    pub guild_id: Option<u64>,
    /// Whether the message was sent in a private conversation.
    pub private: bool,
}

impl Message {
    /// Whether the message was sent in a private conversation.
    pub fn is_private(&self) -> (r: bool)
        ensures
            r == self.private,
    {
        self.private
    }
}

/// What the cache holds of the guild of a message about the message's
/// author.
#[derive(Debug)]
pub struct CachedGuild {
    /// The author's permissions in the channel of the message.
    pub permissions: Permissions,
    /// The names of the author's roles, if the author is a cached member
    /// of the guild.
    pub member_roles: Option<Vec<String>>,
}

/// The surroundings of a message: what the producers of dynamic prefixes
/// said about it, and what the cache holds of its guild.
#[derive(Debug)]
pub struct Context {
    /// What each producer of dynamic prefixes returned for the message, in
    /// the order of registration.
    pub dynamic_prefixes: Vec<Option<String>>,
    /// The guild of the message, if the cache holds it.
    pub guild: Option<CachedGuild>,
}

} // verus!
