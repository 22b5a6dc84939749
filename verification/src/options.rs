//! Commands, groups of commands and the configuration of the dispatcher.

use crate::model::Permissions;
use crate::text::same_text;
use std::collections::HashSet;
use vstd::prelude::*;

verus! {

broadcast use vstd::std_specs::hash::group_hash_axioms;

/// Where a command or a group may be used.
#[derive(Clone, Copy, Debug)]
pub enum OnlyIn {
    /// In private conversations only.
    Dm,
    /// In guilds only.
    Guild,
    /// Anywhere.
    Anywhere,
}

/// What a command or a group asks of a message before it may be used.
pub struct Requirements {
    pub owners_only: bool,
    pub only_in: OnlyIn,
    pub required_permissions: Permissions,
    pub owner_privilege: bool,
    pub allowed_roles: Seq<Seq<char>>,
}

/// The texts of a list of strings.
pub open spec fn texts(list: Seq<String>) -> Seq<Seq<char>> {
    list.map_values(|s: String| s@)
}

/// Whether `name` is one of the strings of `list`.
pub open spec fn lists(list: Seq<String>, name: Seq<char>) -> bool {
    exists|i: int| 0 <= i < list.len() && (#[trigger] list[i])@ == name
}

/// Whether `name` is one of the strings of `list`.
pub fn contains_text(list: &Vec<String>, name: &str) -> (r: bool)
    ensures
        r == lists(list@, name@),
{
    let mut i: usize = 0;
    while i < list.len()
        invariant
            i <= list.len(),
            forall|j: int| 0 <= j < i ==> (#[trigger] list@[j])@ != name@,
        decreases list.len() - i,
    {
        if same_text(list[i].as_str(), name) {
            return true;
        }
        i += 1;
    }
    false
}

/// The options that commands and groups have in common: what they ask of
/// a message before they may be used.
pub trait CommonOptions {
    /// All of the requirements at once.
    spec fn requirements(&self) -> Requirements;

    /// Whether only the owners of the bot may use it.
    fn owners_only(&self) -> (r: bool)
        ensures
            r == self.requirements().owners_only,
    ;

    /// Where it may be used.
    fn only_in(&self) -> (r: OnlyIn)
        ensures
            r == self.requirements().only_in,
    ;

    /// The permissions that its user needs.
    fn required_permissions(&self) -> (r: Permissions)
        ensures
            r == self.requirements().required_permissions,
    ;

    /// Whether owners may use it without the permissions.
    fn owner_privilege(&self) -> (r: bool)
        ensures
            r == self.requirements().owner_privilege,
    ;

    /// The roles of which its user needs one; none is needed if the list is
    /// empty.
    fn allowed_roles(&self) -> (r: &Vec<String>)
        ensures
            texts(r@) == self.requirements().allowed_roles,
    ;
}

/// The options of a command.
#[derive(Debug)]
pub struct CommandOptions {
    /// The name of the command and its aliases.
    pub names: Vec<String>,
    pub owners_only: bool,
    pub only_in: OnlyIn,
    pub required_permissions: Permissions,
    pub owner_privilege: bool,
    pub allowed_roles: Vec<String>,
    /// The commands that are reached through this one.
    pub sub_commands: Vec<Command>,
}

/// A command.
#[derive(Debug)]
pub struct Command {
    pub options: CommandOptions,
}

/// The options of a group.
#[derive(Debug)]
pub struct GroupOptions {
    /// The names by which the group is addressed. A group without any is
    /// reached without a name.
    pub prefixes: Vec<String>,
    pub owners_only: bool,
    pub only_in: OnlyIn,
    pub required_permissions: Permissions,
    pub owner_privilege: bool,
    pub allowed_roles: Vec<String>,
    /// The command to invoke when none of the group's commands is named.
    pub default_command: Option<Command>,
}

/// A group of commands.
#[derive(Debug)]
pub struct CommandGroup {
    pub name: String,
    pub options: GroupOptions,
    pub commands: Vec<Command>,
    pub sub_groups: Vec<CommandGroup>,
}

impl CommonOptions for CommandOptions {
    open spec fn requirements(&self) -> Requirements {
        Requirements {
            owners_only: self.owners_only,
            only_in: self.only_in,
            required_permissions: self.required_permissions,
            owner_privilege: self.owner_privilege,
            allowed_roles: texts(self.allowed_roles@),
        }
    }

    fn owners_only(&self) -> (r: bool) {
        self.owners_only
    }

    fn only_in(&self) -> (r: OnlyIn) {
        self.only_in
    }

    fn required_permissions(&self) -> (r: Permissions) {
        self.required_permissions
    }

    fn owner_privilege(&self) -> (r: bool) {
        self.owner_privilege
    }

    fn allowed_roles(&self) -> (r: &Vec<String>) {
        &self.allowed_roles
    }
}

impl CommonOptions for GroupOptions {
    open spec fn requirements(&self) -> Requirements {
        Requirements {
            owners_only: self.owners_only,
            only_in: self.only_in,
            required_permissions: self.required_permissions,
            owner_privilege: self.owner_privilege,
            allowed_roles: texts(self.allowed_roles@),
        }
    }

    fn owners_only(&self) -> (r: bool) {
        self.owners_only
    }

    fn only_in(&self) -> (r: OnlyIn) {
        self.only_in
    }

    fn required_permissions(&self) -> (r: Permissions) {
        self.required_permissions
    }

    fn owner_privilege(&self) -> (r: bool) {
        self.owner_privilege
    }

    fn allowed_roles(&self) -> (r: &Vec<String>) {
        &self.allowed_roles
    }
}

/// Where whitespace is skipped after a name has been read.
#[derive(Clone, Copy, Debug)]
pub struct WithWhiteSpace {
    pub prefixes: bool,
    pub groups: bool,
    pub commands: bool,
}

/// The configuration of the dispatcher.
#[derive(Debug)]
pub struct Configuration {
    /// Whether commands may be used in private conversations.
    pub allow_dm: bool,
    pub with_whitespace: WithWhiteSpace,
    /// Whether a name ends at the next whitespace. If not, the longest
    /// registered name that the text starts with is taken.
    pub by_space: bool,
    /// Whether the names of commands and groups are matched without regard
    /// to case. Prefixes are always matched as they stand.
    pub case_insensitive: bool,
    /// The bot's own identifier, if a mention of it counts as a prefix.
    pub on_mention: Option<String>,
    /// The owners of the bot.
    pub owners: HashSet<u64>,
    /// The prefixes, in the order in which they are tried.
    pub prefixes: Vec<String>,
    /// The names of the commands that are switched off.
    pub disabled_commands: Vec<String>,
}

impl Configuration {
    /// Whether `user` is an owner of the bot.
    pub open spec fn owns(&self, user: u64) -> bool {
        self.owners@.contains(user)
    }

    /// Whether the command of that name is switched off.
    pub open spec fn disables(&self, name: Seq<char>) -> bool {
        lists(self.disabled_commands@, name)
    }

    /// Whether `user` is an owner of the bot.
    pub fn is_owner(&self, user: u64) -> (r: bool)
        ensures
            r == self.owns(user),
    {
        self.owners.contains(&user)
    }

    /// Whether the command of that name is switched off.
    pub fn is_disabled(&self, name: &str) -> (r: bool)
        ensures
            r == self.disables(name@),
    {
        contains_text(&self.disabled_commands, name)
    }
}

} // verus!
