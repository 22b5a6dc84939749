//! The maps in which names are looked up: one for the commands and one for
//! the groups of each level of the tree.

use crate::options::{contains_text, lists, Command, CommandGroup};
use vstd::prelude::*;
use vstd::string::*;

verus! {

/// The length, in characters, of the longest of `names`; 0 if there is
/// none.
pub open spec fn longest_name(names: Seq<String>) -> nat
    decreases names.len(),
{
    if names.len() == 0 {
        0
    } else {
        let rest = longest_name(names.drop_last());
        if rest >= names.last()@.len() {
            rest
        } else {
            names.last()@.len()
        }
    }
}

/// The length, in characters, of the shortest of `names`, if there is any.
pub open spec fn shortest_name(names: Seq<String>) -> Option<nat>
    decreases names.len(),
{
    if names.len() == 0 {
        None
    } else {
        match shortest_name(names.drop_last()) {
            Some(rest) if rest <= names.last()@.len() => Some(rest),
            _ => Some(names.last()@.len()),
        }
    }
}

/// The length of the longest name in any of the lists; 0 if there is none.
pub open spec fn longest_listed(all: Seq<Seq<String>>) -> nat
    decreases all.len(),
{
    if all.len() == 0 {
        0
    } else {
        let rest = longest_listed(all.drop_last());
        if rest >= longest_name(all.last()) {
            rest
        } else {
            longest_name(all.last())
        }
    }
}

/// The length of the shortest name in any of the lists, if there is any.
pub open spec fn shortest_listed(all: Seq<Seq<String>>) -> Option<nat>
    decreases all.len(),
{
    if all.len() == 0 {
        None
    } else {
        match (shortest_listed(all.drop_last()), shortest_name(all.last())) {
            (Some(a), Some(b)) => Some(
                if a <= b {
                    a
                } else {
                    b
                },
            ),
            (Some(a), None) => Some(a),
            (None, b) => b,
        }
    }
}

/// The last of the lists that holds `name`, if any does.
pub open spec fn last_listing(all: Seq<Seq<String>>, name: Seq<char>) -> Option<int>
    decreases all.len(),
{
    if all.len() == 0 {
        None
    } else if lists(all.last(), name) {
        Some(all.len() - 1)
    } else {
        last_listing(all.drop_last(), name)
    }
}

/// None of the lists holds a name.
pub open spec fn nothing_listed(all: Seq<Seq<String>>) -> bool {
    forall|i: int| 0 <= i < all.len() ==> (#[trigger] all[i]).len() == 0
}

/// What `last_listing` finds is a list of `all` that holds the name.
pub proof fn lemma_last_listing(all: Seq<Seq<String>>, name: Seq<char>)
    ensures
        last_listing(all, name) matches Some(i) ==> 0 <= i < all.len() && lists(all[i], name),
    decreases all.len(),
{
    if all.len() > 0 && !lists(all.last(), name) {
        lemma_last_listing(all.drop_last(), name);
    }
}

/// The length of a name of the list lies between the lengths of the
/// shortest and of the longest name of the list.
pub proof fn lemma_name_within(names: Seq<String>, name: Seq<char>)
    requires
        lists(names, name),
    ensures
        shortest_name(names) matches Some(lo) && lo <= name.len() <= longest_name(names),
    decreases names.len(),
{
    let i = choose|i: int| 0 <= i < names.len() && (#[trigger] names[i])@ == name;
    if i < names.len() - 1 {
        assert(names.drop_last()[i] == names[i]);
        lemma_name_within(names.drop_last(), name);
    }
}

/// The length of a name that one of the lists holds lies between the
/// lengths of the shortest and of the longest name of all the lists.
pub proof fn lemma_listed_within(all: Seq<Seq<String>>, name: Seq<char>)
    requires
        last_listing(all, name) is Some,
    ensures
        shortest_listed(all) matches Some(lo) && lo <= name.len() <= longest_listed(all),
    decreases all.len(),
{
    if lists(all.last(), name) {
        lemma_name_within(all.last(), name);
    } else {
        lemma_listed_within(all.drop_last(), name);
    }
}

/// Measures a list of names: the lengths of its shortest and of its
/// longest name.
fn measure_names(names: &Vec<String>) -> (r: (Option<usize>, usize))
    ensures
        r.1 == longest_name(names@),
        match r.0 {
            Some(lo) => shortest_name(names@) == Some(lo as nat),
            None => shortest_name(names@) is None,
        },
{
    let mut lo: Option<usize> = None;
    let mut hi: usize = 0;
    let mut i: usize = 0;
    while i < names.len()
        invariant
            i <= names.len(),
            hi == longest_name(names@.take(i as int)),
            match lo {
                Some(m) => shortest_name(names@.take(i as int)) == Some(m as nat),
                None => shortest_name(names@.take(i as int)) is None,
            },
        decreases names.len() - i,
    {
        let n = names[i].as_str().unicode_len();
        proof {
            assert(names@.take(i + 1).drop_last() =~= names@.take(i as int));
            assert(names@.take(i + 1).last() == names@[i as int]);
        }
        if n > hi {
            hi = n;
        }
        lo =
        match lo {
            Some(m) => if m <= n {
                Some(m)
            } else {
                Some(n)
            },
            None => Some(n),
        };
        i += 1;
    }
    proof {
        assert(names@.take(names.len() as int) =~= names@);
    }
    (lo, hi)
}

/// A map from names to the entries of one level of the tree.
pub trait ParseMap {
    /// The names of each entry, in the order of the entries.
    spec fn name_lists(&self) -> Seq<Seq<String>>;

    /// The length of the shortest name, as the map has it on record.
    spec fn shortest(&self) -> nat;

    /// The length of the longest name, as the map has it on record.
    spec fn longest(&self) -> nat;

    /// The entry that `name` stands for: the last one that has the name.
    open spec fn lookup(&self, name: Seq<char>) -> Option<int> {
        last_listing(self.name_lists(), name)
    }

    /// Looks a name up.
    fn get(&self, name: &str) -> (r: Option<usize>)
        ensures
            match r {
                Some(i) => self.lookup(name@) == Some(i as int),
                None => self.lookup(name@) is None,
            },
    ;

    /// The length of the shortest name.
    fn min_length(&self) -> (r: usize)
        ensures
            r == self.shortest(),
    ;

    /// The length of the longest name.
    fn max_length(&self) -> (r: usize)
        ensures
            r == self.longest(),
    ;

    /// Whether the map holds no name at all.
    fn is_empty(&self) -> (r: bool)
        ensures
            r == nothing_listed(self.name_lists()),
    ;
}

/// A command and the map of the commands below it.
#[derive(Debug)]
pub struct CommandEntry<'a> {
    pub command: &'a Command,
    pub sub_commands: CommandMap<'a>,
}

/// The commands of one level, under their names and aliases.
#[derive(Debug)]
pub struct CommandMap<'a> {
    pub entries: Vec<CommandEntry<'a>>,
    pub min_length: usize,
    pub max_length: usize,
}

/// A group, the map of the groups below it and the map of its commands.
#[derive(Debug)]
pub struct GroupEntry<'a> {
    pub group: &'a CommandGroup,
    pub sub_groups: GroupMap<'a>,
    pub commands: CommandMap<'a>,
}

/// The groups of one level, under their prefixes.
#[derive(Debug)]
pub struct GroupMap<'a> {
    pub entries: Vec<GroupEntry<'a>>,
    pub min_length: usize,
    pub max_length: usize,
}

/// How the commands of a top-level group are reached.
#[derive(Debug)]
pub enum Addressing<'a> {
    /// By the name of the group first. The map holds the group itself.
    WithPrefixes(GroupMap<'a>),
    /// Without the name of the group: through the groups below it, or as
    /// its commands directly.
    Prefixless(GroupMap<'a>, CommandMap<'a>),
}

impl<'a> CommandMap<'a> {
    /// The names of each command of the map.
    pub open spec fn names_of(entries: Seq<CommandEntry<'a>>) -> Seq<Seq<String>> {
        entries.map_values(|e: CommandEntry<'a>| e.command.options.names@)
    }

    /// The lengths on record are those of the shortest and of the longest
    /// name, or 0 where the map holds no name.
    pub open spec fn measured(&self) -> bool {
        &&& self.max_length == longest_listed(Self::names_of(self.entries@))
        &&& self.min_length == match shortest_listed(Self::names_of(self.entries@)) {
            Some(lo) => lo,
            None => 0,
        }
    }

    /// The map holds the given commands in their order, each with the map
    /// of its own sub-commands, and has measured their names.
    pub open spec fn mirrors(&self, commands: Seq<Command>) -> bool
        decreases commands,
    {
        &&& self.measured()
        &&& self.entries@.len() == commands.len()
        &&& forall|i: int|
            0 <= i < commands.len() ==> {
                &&& *(#[trigger] self.entries@[i]).command == commands[i]
                &&& self.entries@[i].sub_commands.mirrors(commands[i].options.sub_commands@)
            }
    }

    /// The map of the given commands.
    pub fn new(commands: &'a Vec<Command>) -> (map: CommandMap<'a>)
        ensures
            map.mirrors(commands@),
        decreases commands,
    {
        let mut entries: Vec<CommandEntry<'a>> = Vec::new();
        let mut lo: Option<usize> = None;
        let mut hi: usize = 0;
        let mut i: usize = 0;
        while i < commands.len()
            invariant
                i <= commands.len(),
                entries@.len() == i,
                forall|j: int|
                    0 <= j < i ==> {
                        &&& *(#[trigger] entries@[j]).command == commands@[j]
                        &&& entries@[j].sub_commands.mirrors(commands@[j].options.sub_commands@)
                    },
                hi == longest_listed(Self::names_of(entries@)),
                match lo {
                    Some(m) => shortest_listed(Self::names_of(entries@)) == Some(m as nat),
                    None => shortest_listed(Self::names_of(entries@)) is None,
                },
            decreases commands.len() - i,
        {
            let command = &commands[i];
            let sub_commands = CommandMap::new(&command.options.sub_commands);
            let (l, h) = measure_names(&command.options.names);
            let ghost before = entries@;
            entries.push(CommandEntry { command, sub_commands });
            proof {
                assert(Self::names_of(entries@).drop_last() =~= Self::names_of(before));
                assert(Self::names_of(entries@).last() == command.options.names@);
            }
            if h > hi {
                hi = h;
            }
            lo =
            match (lo, l) {
                (Some(a), Some(b)) => Some(
                    if a <= b {
                        a
                    } else {
                        b
                    },
                ),
                (Some(a), None) => Some(a),
                (None, b) => b,
            };
            i += 1;
        }
        let min_length = match lo {
            Some(m) => m,
            None => 0,
        };
        CommandMap { entries, min_length, max_length: hi }
    }
}

impl<'a> ParseMap for CommandMap<'a> {
    open spec fn name_lists(&self) -> Seq<Seq<String>> {
        Self::names_of(self.entries@)
    }

    open spec fn shortest(&self) -> nat {
        self.min_length as nat
    }

    open spec fn longest(&self) -> nat {
        self.max_length as nat
    }

    fn get(&self, name: &str) -> (r: Option<usize>) {
        let mut i: usize = self.entries.len();
        proof {
            assert(self.name_lists().take(i as int) =~= self.name_lists());
        }
        while i > 0
            invariant
                i <= self.entries.len(),
                last_listing(self.name_lists(), name@) == last_listing(
                    self.name_lists().take(i as int),
                    name@,
                ),
            decreases i,
        {
            proof {
                let all = self.name_lists().take(i as int);
                assert(all.last() == self.entries@[i - 1].command.options.names@);
                assert(all.drop_last() =~= self.name_lists().take(i - 1));
            }
            if contains_text(&self.entries[i - 1].command.options.names, name) {
                return Some(i - 1);
            }
            i -= 1;
        }
        None
    }

    fn min_length(&self) -> (r: usize) {
        self.min_length
    }

    fn max_length(&self) -> (r: usize) {
        self.max_length
    }

    fn is_empty(&self) -> (r: bool) {
        let mut i: usize = 0;
        while i < self.entries.len()
            invariant
                i <= self.entries.len(),
                forall|j: int| 0 <= j < i ==> (#[trigger] self.name_lists()[j]).len() == 0,
            decreases self.entries.len() - i,
        {
            if self.entries[i].command.options.names.len() > 0 {
                assert(self.name_lists()[i as int].len() > 0);
                return false;
            }
            i += 1;
        }
        true
    }
}

impl<'a> GroupEntry<'a> {
    /// The entry holds the group, the map of the groups below it and the
    /// map of its commands.
    pub open spec fn mirrors(&self, group: CommandGroup) -> bool
        decreases group, 0nat,
    {
        &&& *self.group == group
        &&& self.sub_groups.mirrors(group.sub_groups@)
        &&& self.commands.mirrors(group.commands@)
    }

    /// The entry of a group.
    pub fn new(group: &'a CommandGroup) -> (entry: GroupEntry<'a>)
        ensures
            entry.mirrors(*group),
        decreases group, 0nat,
    {
        GroupEntry {
            group,
            sub_groups: GroupMap::new(&group.sub_groups),
            commands: CommandMap::new(&group.commands),
        }
    }
}

impl<'a> GroupMap<'a> {
    /// The prefixes of each group of the map.
    pub open spec fn names_of(entries: Seq<GroupEntry<'a>>) -> Seq<Seq<String>> {
        entries.map_values(|e: GroupEntry<'a>| e.group.options.prefixes@)
    }

    /// The lengths on record are those of the shortest and of the longest
    /// prefix, or 0 where the map holds no prefix.
    pub open spec fn measured(&self) -> bool {
        &&& self.max_length == longest_listed(Self::names_of(self.entries@))
        &&& self.min_length == match shortest_listed(Self::names_of(self.entries@)) {
            Some(lo) => lo,
            None => 0,
        }
    }

    /// The map holds the given groups in their order, each with the maps
    /// of what is below it, and has measured their prefixes.
    pub open spec fn mirrors(&self, groups: Seq<CommandGroup>) -> bool
        decreases groups, 1nat,
    {
        &&& self.measured()
        &&& self.entries@.len() == groups.len()
        &&& forall|i: int|
            0 <= i < groups.len() ==> (#[trigger] self.entries@[i]).mirrors(groups[i])
    }

    /// The map of the given groups.
    pub fn new(groups: &'a Vec<CommandGroup>) -> (map: GroupMap<'a>)
        ensures
            map.mirrors(groups@),
        decreases groups, 1nat,
    {
        let mut entries: Vec<GroupEntry<'a>> = Vec::new();
        let mut lo: Option<usize> = None;
        let mut hi: usize = 0;
        let mut i: usize = 0;
        while i < groups.len()
            invariant
                i <= groups.len(),
                entries@.len() == i,
                forall|j: int| 0 <= j < i ==> (#[trigger] entries@[j]).mirrors(groups@[j]),
                hi == longest_listed(Self::names_of(entries@)),
                match lo {
                    Some(m) => shortest_listed(Self::names_of(entries@)) == Some(m as nat),
                    None => shortest_listed(Self::names_of(entries@)) is None,
                },
            decreases groups.len() - i,
        {
            let group = &groups[i];
            let entry = GroupEntry::new(group);
            let (l, h) = measure_names(&group.options.prefixes);
            let ghost before = entries@;
            entries.push(entry);
            proof {
                assert(Self::names_of(entries@).drop_last() =~= Self::names_of(before));
                assert(Self::names_of(entries@).last() == group.options.prefixes@);
            }
            if h > hi {
                hi = h;
            }
            lo =
            match (lo, l) {
                (Some(a), Some(b)) => Some(
                    if a <= b {
                        a
                    } else {
                        b
                    },
                ),
                (Some(a), None) => Some(a),
                (None, b) => b,
            };
            i += 1;
        }
        let min_length = match lo {
            Some(m) => m,
            None => 0,
        };
        GroupMap { entries, min_length, max_length: hi }
    }

    /// The map that holds one group and nothing else.
    pub fn single(group: &'a CommandGroup) -> (map: GroupMap<'a>)
        ensures
            map.measured(),
            map.entries@.len() == 1,
            map.entries@[0].mirrors(*group),
    {
        let entry = GroupEntry::new(group);
        let (l, h) = measure_names(&group.options.prefixes);
        let mut entries: Vec<GroupEntry<'a>> = Vec::new();
        entries.push(entry);
        proof {
            let all = Self::names_of(entries@);
            assert(all.last() == group.options.prefixes@);
            assert(all.drop_last() =~= Seq::<Seq<String>>::empty());
            assert(longest_listed(all.drop_last()) == 0);
            assert(shortest_listed(all.drop_last()) is None);
        }
        let min_length = match l {
            Some(m) => m,
            None => 0,
        };
        GroupMap { entries, min_length, max_length: h }
    }
}

impl<'a> ParseMap for GroupMap<'a> {
    open spec fn name_lists(&self) -> Seq<Seq<String>> {
        Self::names_of(self.entries@)
    }

    open spec fn shortest(&self) -> nat {
        self.min_length as nat
    }

    open spec fn longest(&self) -> nat {
        self.max_length as nat
    }

    fn get(&self, name: &str) -> (r: Option<usize>) {
        let mut i: usize = self.entries.len();
        proof {
            assert(self.name_lists().take(i as int) =~= self.name_lists());
        }
        while i > 0
            invariant
                i <= self.entries.len(),
                last_listing(self.name_lists(), name@) == last_listing(
                    self.name_lists().take(i as int),
                    name@,
                ),
            decreases i,
        {
            proof {
                let all = self.name_lists().take(i as int);
                assert(all.last() == self.entries@[i - 1].group.options.prefixes@);
                assert(all.drop_last() =~= self.name_lists().take(i - 1));
            }
            if contains_text(&self.entries[i - 1].group.options.prefixes, name) {
                return Some(i - 1);
            }
            i -= 1;
        }
        None
    }

    fn min_length(&self) -> (r: usize) {
        self.min_length
    }

    fn max_length(&self) -> (r: usize) {
        self.max_length
    }

    fn is_empty(&self) -> (r: bool) {
        let mut i: usize = 0;
        while i < self.entries.len()
            invariant
                i <= self.entries.len(),
                forall|j: int| 0 <= j < i ==> (#[trigger] self.name_lists()[j]).len() == 0,
            decreases self.entries.len() - i,
        {
            if self.entries[i].group.options.prefixes.len() > 0 {
                assert(self.name_lists()[i as int].len() > 0);
                return false;
            }
            i += 1;
        }
        true
    }
}

impl<'a> Addressing<'a> {
    /// The map of a top-level group: by its name if it has prefixes,
    /// without it if it has none.
    pub open spec fn mirrors(&self, group: CommandGroup) -> bool {
        match *self {
            Addressing::WithPrefixes(groups) => {
                &&& group.options.prefixes@.len() > 0
                &&& groups.measured()
                &&& groups.entries@.len() == 1
                &&& groups.entries@[0].mirrors(group)
            },
            Addressing::Prefixless(groups, commands) => {
                &&& group.options.prefixes@.len() == 0
                &&& groups.mirrors(group.sub_groups@)
                &&& commands.mirrors(group.commands@)
            },
        }
    }

    /// The map of a top-level group.
    pub fn new(group: &'a CommandGroup) -> (map: Addressing<'a>)
        ensures
            map.mirrors(*group),
    {
        if group.options.prefixes.len() == 0 {
            Addressing::Prefixless(GroupMap::new(&group.sub_groups), CommandMap::new(&group.commands))
        } else {
            Addressing::WithPrefixes(GroupMap::single(group))
        }
    }
}

} // verus!
