//! What holds of the dispatcher as a whole, proved from the definitions of
//! its parts.

use crate::dispatch::{dispatched, help_found, leading_word};
use crate::gate::{gate, DispatchError};
use crate::map::{lemma_listed_within, Addressing, CommandMap, ParseMap};
use crate::matcher::{command_taken, resolve_command, shrunk, token_at};
use crate::model::{Context, Message};
use crate::options::{Command, CommandGroup, Configuration, Requirements};
use crate::outcome::{Invoke, Reason};
use crate::prefix::{mention_found, mention_text, prefix_outcome};
use crate::scanner::{consumed, full_text, moved_by, remaining, Scanner};
use crate::text::{
    all_chars, chars_within, leading_run, lemma_chars_within_complete, lemma_leading_run,
    lemma_leading_run_unique, normalized, utf8_len, CharClass,
};
use vstd::prelude::*;

verus! {

/// A mention of the bot's own identifier, followed by a space and a word,
/// is read as the prefix: what `prefix` finds is the identifier, and the
/// cursor ends in front of the word, whatever the identifier is, as long
/// as it consists of digits.
pub proof fn lemma_mention_then_word(ctx: Context, config: Configuration, id: Seq<char>)
    requires
        config.on_mention matches Some(own) && own@ == id,
        all_chars(id, CharClass::Digit.pred()),
    ensures
        ({
            let rest = seq!['<', '@'] + id + seq!['>', ' ', 'p', 'i', 'n', 'g'];
            &&& prefix_outcome(ctx, config, rest).0 == Some(id)
            &&& prefix_outcome(ctx, config, rest).1 == id.len() + 4
            &&& rest.skip(id.len() as int + 4) == seq!['p', 'i', 'n', 'g']
        }),
{
    let rest = seq!['<', '@'] + id + seq!['>', ' ', 'p', 'i', 'n', 'g'];
    let plain = mention_text(id, false);
    let n = id.len() as int;
    assert(plain =~= rest.subrange(0, n + 3));
    assert(mention_found(rest, config) == Some(n + 3));
    let tail = rest.skip(n + 3);
    let space = CharClass::Whitespace.pred();
    assert(tail =~= seq![' ', 'p', 'i', 'n', 'g']);
    assert(space(tail[0]));
    assert(!space(tail[1]));
    lemma_leading_run_unique(tail, space, 1);
    assert(rest.skip(n + 4) =~= seq!['p', 'i', 'n', 'g']);
}

/// A text that starts with a mention of one identifier holds no mention of
/// another: `mention` finds nothing there, and so leaves the cursor where
/// it was.
pub proof fn lemma_mention_of_another(
    rest: Seq<char>,
    config: Configuration,
    other: Seq<char>,
    nickname: bool,
)
    requires
        all_chars(other, CharClass::Digit.pred()),
        mention_text(other, nickname).is_prefix_of(rest),
        config.on_mention matches Some(own) && own@ != other,
    ensures
        mention_found(rest, config) is None,
{
    let digit = CharClass::Digit.pred();
    let own = config.on_mention->0@;
    let there = mention_text(other, nickname);
    let shift: int = if nickname {
        3
    } else {
        2
    };
    assert(!digit('>') && !digit('!'));
    assert(there.len() == other.len() + shift + 1);
    assert forall|i: int| 0 <= i < there.len() implies rest[i] == there[i] by {
        assert(rest.subrange(0, there.len() as int)[i] == there[i]);
    }
    if all_chars(own, digit) {
        let same_form = mention_text(own, nickname);
        let other_form = mention_text(own, !nickname);
        if same_form.is_prefix_of(rest) {
            assert forall|i: int| 0 <= i < same_form.len() implies rest[i] == same_form[i] by {
                assert(rest.subrange(0, same_form.len() as int)[i] == same_form[i]);
            }
            if own.len() < other.len() {
                assert(same_form[own.len() + shift] == '>');
                assert(there[own.len() + shift] == other[own.len() as int]);
                assert(digit(other[own.len() as int]));
            } else if own.len() > other.len() {
                assert(there[other.len() + shift] == '>');
                assert(same_form[other.len() + shift] == own[other.len() as int]);
                assert(digit(own[other.len() as int]));
            } else {
                assert forall|i: int| 0 <= i < own.len() implies own[i] == other[i] by {
                    assert(same_form[i + shift] == own[i]);
                    assert(there[i + shift] == other[i]);
                }
                assert(own =~= other);
            }
            assert(false);
        }
        if other_form.is_prefix_of(rest) {
            assert forall|i: int| 0 <= i < other_form.len() implies rest[i] == other_form[i] by {
                assert(rest.subrange(0, other_form.len() as int)[i] == other_form[i]);
            }
            if nickname {
                assert(there[2] == '!');
                if own.len() > 0 {
                    assert(other_form[2] == own[0]);
                    assert(digit(own[0]));
                } else {
                    assert(other_form[2] == '>');
                }
            } else {
                assert(other_form[2] == '!');
                if other.len() > 0 {
                    assert(there[2] == other[0]);
                    assert(digit(other[0]));
                } else {
                    assert(there[2] == '>');
                }
            }
            assert(false);
        }
    }
}

/// The token that is cut down to a name is the longest front part of the
/// text that is a name: no longer front part of it is one.
pub proof fn lemma_longest_name_wins<M: ParseMap>(map: &M, token: Seq<char>, length: int)
    requires
        shrunk(map, token).len() < length <= token.len(),
    ensures
        map.lookup(token.take(length)) is None,
    decreases token.len(),
{
    if map.lookup(token) is Some || token.len() <= map.shortest() {
    } else if length == token.len() {
        assert(token.take(length) =~= token);
    } else {
        assert(token.drop_last().take(length) =~= token.take(length));
        lemma_longest_name_wins(map, token.drop_last(), length);
    }
}

/// Cutting down finds a name if there is one to find: if the text starts
/// with a name whose length lies between the lengths that the map has on
/// record, the token that the text is cut down to is a name, and no
/// shorter than that one.
pub proof fn lemma_shrinking_finds_a_name<M: ParseMap>(
    map: &M,
    token: Seq<char>,
    name: Seq<char>,
)
    requires
        map.lookup(name) is Some,
        name.is_prefix_of(token),
        map.shortest() <= name.len(),
    ensures
        map.lookup(shrunk(map, token)) is Some,
        shrunk(map, token).len() >= name.len(),
    decreases token.len(),
{
    if map.lookup(token) is Some {
    } else {
        assert(name =~= token.subrange(0, name.len() as int));
        if token.len() == name.len() {
            assert(token =~= name);
        }
        let shorter = token.drop_last();
        assert(name =~= shorter.subrange(0, name.len() as int));
        lemma_shrinking_finds_a_name(map, shorter, name);
    }
}

/// The longest name wins: where names are looked up as they stand and
/// cut down from the text, and the map has measured its names, a text
/// that starts with a name of the map has as its token the longest name
/// of the map that it starts with.
pub proof fn lemma_longest_registered_name(map: CommandMap, rest: Seq<char>, name: Seq<char>)
    requires
        map.measured(),
        map.lookup(name) is Some,
        name.is_prefix_of(rest),
    ensures
        ({
            let token = token_at(&map, rest, false, false);
            &&& map.lookup(token) is Some
            &&& token.is_prefix_of(rest)
            &&& name.len() <= token.len()
            &&& forall|longer: Seq<char>|
                longer.is_prefix_of(rest) && token.len() < longer.len() ==> map.lookup(longer)
                    is None
        }),
{
    lemma_listed_within(map.name_lists(), name);
    let count: int = if map.longest() <= rest.len() {
        map.longest() as int
    } else {
        rest.len() as int
    };
    let whole = rest.take(count);
    let token = token_at(&map, rest, false, false);
    assert(name =~= rest.subrange(0, name.len() as int));
    assert(name =~= whole.subrange(0, name.len() as int));
    lemma_shrinking_finds_a_name(&map, whole, name);
    lemma_exact_token_is_text(&map, rest, false);
    assert forall|longer: Seq<char>|
        longer.is_prefix_of(rest) && token.len() < longer.len() implies map.lookup(longer)
        is None by {
        if map.lookup(longer) is Some {
            lemma_listed_within(map.name_lists(), longer);
            assert(longer =~= rest.subrange(0, longer.len() as int));
            assert(whole.take(longer.len() as int) =~= longer);
            lemma_longest_name_wins(&map, whole, longer.len() as int);
        }
    }
}

/// The token that is cut down to a name is a front part of the text it
/// was cut from.
pub proof fn lemma_shrunk_is_front<M: ParseMap>(map: &M, token: Seq<char>)
    ensures
        shrunk(map, token).is_prefix_of(token),
    decreases token.len(),
{
    if map.lookup(token) is Some || token.len() <= map.shortest() {
        assert(token =~= token.subrange(0, token.len() as int));
    } else {
        let shorter = token.drop_last();
        lemma_shrunk_is_front(map, shorter);
        let found = shrunk(map, shorter);
        assert(found =~= token.subrange(0, found.len() as int));
    }
}

/// Where names are looked up as they stand, the token is the text at the
/// cursor itself, and the cursor can move past it: a name that is found is
/// the text that is consumed for it.
pub proof fn lemma_exact_token_is_text<M: ParseMap>(map: &M, rest: Seq<char>, by_space: bool)
    ensures
        token_at(map, rest, by_space, false).is_prefix_of(rest),
        chars_within(rest, utf8_len(token_at(map, rest, by_space, false)) as int) == Some(
            token_at(map, rest, by_space, false).len() as int,
        ),
{
    let token = token_at(map, rest, by_space, false);
    if by_space {
        lemma_leading_run(rest, CharClass::Whitespace.outside());
    } else {
        let count: int = if map.longest() <= rest.len() {
            map.longest() as int
        } else {
            rest.len() as int
        };
        lemma_shrunk_is_front(map, rest.take(count));
        assert(token =~= rest.subrange(0, token.len() as int));
    }
    assert(token =~= rest.take(token.len() as int));
    lemma_chars_within_complete(rest, token.len() as int);
}

/// A command that is switched off is reported as such, whether a command
/// of that name exists or not, and never as unknown. The cursor stays.
pub proof fn lemma_disabled_comes_first(
    map: CommandMap,
    rest: Seq<char>,
    ctx: Context,
    msg: Message,
    config: Configuration,
)
    requires
        config.disables(token_at(&map, rest, config.by_space, config.case_insensitive)),
    ensures
        resolve_command(map, rest, ctx, msg, config).result == Err::<&Command, Reason>(
            Reason::CommandDisabled(
                token_at(&map, rest, config.by_space, config.case_insensitive),
            ),
        ),
        resolve_command(map, rest, ctx, msg, config).advance == 0,
{
}

/// A group with a default command always invokes a command: the one that
/// the text resolves to, or the default command if it resolves to none,
/// whatever the reason was.
pub proof fn lemma_default_command<'a>(
    map: CommandMap<'a>,
    group: &'a CommandGroup,
    rest: Seq<char>,
    ctx: Context,
    msg: Message,
    config: Configuration,
)
    requires
        group.options.default_command is Some,
    ensures
        ({
            let found = resolve_command(map, rest, ctx, msg, config);
            let taken = command_taken(map, group, rest, ctx, msg, config);
            &&& taken.result matches Ok(Invoke::Command { group: g, command: c })
            &&& g == group
            &&& found.result is Err ==> *c == group.options.default_command->0
            &&& found.result matches Ok(resolved) ==> c == resolved
            &&& taken.advance == found.advance
        }),
{
}

/// Where the cache does not hold the guild of a message, neither
/// permissions nor roles stand in its way: only ownership and the place of
/// the message decide.
pub proof fn lemma_unknown_guild_is_let_through(
    ctx: Context,
    msg: Message,
    config: Configuration,
    asked: Requirements,
)
    requires
        ctx.guild is None,
    ensures
        !(gate(ctx, msg, config, asked) matches Err(DispatchError::LackingPermissions(_))),
        !(gate(ctx, msg, config, asked) matches Err(DispatchError::LackingRole)),
        gate(ctx, msg, config, asked) is Ok <==> {
            &&& !(asked.owners_only && !config.owns(msg.author_id))
            &&& !(asked.only_in is Dm && !msg.private)
            &&& !((!config.allow_dm || asked.only_in is Guild) && msg.private)
        },
{
}

/// A help name that is the token is found, or one that comes before it in
/// the list and is the token too.
pub proof fn lemma_help_found(names: Seq<&str>, token: Seq<char>, from: int, at: int)
    requires
        0 <= from <= at < names.len(),
        names[at]@ == token,
    ensures
        help_found(names, token, from) matches Some(i) && from <= i <= at && names[i]@ == token,
    decreases at - from,
{
    if names[from]@ != token {
        lemma_help_found(names, token, from + 1, at);
    }
}

/// Help comes first: a text whose leading word, in the form under which
/// names are looked up, is one of the help names invokes the help command
/// under that name, whatever groups and commands are registered, be it
/// one of the same name, and whatever they ask of the message. The
/// cursor ends behind the word and the whitespace that follows it.
pub proof fn lemma_help_comes_first<'a>(
    groups: Seq<(&'a CommandGroup, Addressing<'a>)>,
    names: Seq<&'a str>,
    at: int,
    rest: Seq<char>,
    ctx: Context,
    msg: Message,
    config: Configuration,
)
    requires
        0 <= at < names.len(),
        names[at]@ == normalized(config.case_insensitive, leading_word(rest)),
    ensures
        ({
            let out = dispatched(groups, Some(names), rest, ctx, msg, config);
            let word = leading_word(rest);
            &&& out.result matches Ok(Invoke::Help(name))
            &&& name@ == names[at]@
            &&& out.advance == word.len() + leading_run(
                rest.skip(word.len() as int),
                CharClass::Whitespace.pred(),
            )
        }),
{
    lemma_help_found(names, normalized(config.case_insensitive, leading_word(rest)), 0, at);
}

/// A text that only starts with a help name does not invoke help: if the
/// leading word of the text, in the form under which names are looked up,
/// is none of the help names, the outcome is that of the groups.
pub proof fn lemma_help_needs_the_whole_word<'a>(
    groups: Seq<(&'a CommandGroup, Addressing<'a>)>,
    names: Seq<&'a str>,
    rest: Seq<char>,
    ctx: Context,
    msg: Message,
    config: Configuration,
)
    requires
        forall|i: int|
            0 <= i < names.len() ==> (#[trigger] names[i])@ != normalized(
                config.case_insensitive,
                leading_word(rest),
            ),
    ensures
        dispatched(groups, Some(names), rest, ctx, msg, config) == dispatched(
            groups,
            None,
            rest,
            ctx,
            msg,
            config,
        ),
{
    lemma_help_not_found(names, normalized(config.case_insensitive, leading_word(rest)), 0);
}

/// No help name is found where none is the token.
pub proof fn lemma_help_not_found(names: Seq<&str>, token: Seq<char>, from: int)
    requires
        0 <= from,
        forall|i: int| 0 <= i < names.len() ==> (#[trigger] names[i])@ != token,
    ensures
        help_found(names, token, from) is None,
    decreases names.len() - from,
{
    if from < names.len() {
        lemma_help_not_found(names, token, from + 1);
    }
}

/// The leading word of a text is a given word if the text starts with the
/// word, the word holds no whitespace, and the text ends behind it or
/// goes on with whitespace.
pub proof fn lemma_leading_word(word: Seq<char>, rest: Seq<char>)
    requires
        word.is_prefix_of(rest),
        all_chars(word, CharClass::Whitespace.outside()),
        rest.len() == word.len() || CharClass::Whitespace.contains(rest[word.len() as int]),
    ensures
        leading_word(rest) == word,
{
    let outside = CharClass::Whitespace.outside();
    assert(word =~= rest.subrange(0, word.len() as int));
    assert forall|i: int| 0 <= i < word.len() implies outside(#[trigger] rest[i]) by {
        assert(rest[i] == word[i]);
    }
    lemma_leading_run_unique(rest, outside, word.len() as int);
    assert(rest.take(word.len() as int) =~= word);
}

/// Nothing is lost: after two steps in a row, the second from where the
/// first left the cursor, what has been consumed is what was consumed
/// before followed by what either step passed, and together with what
/// remains it is the text that was there at the start.
pub proof fn lemma_round_trip(start: Scanner, middle: Scanner, end: Scanner, first: int, second: int)
    requires
        moved_by(start, middle, first),
        moved_by(middle, end, second),
    ensures
        consumed(end) == consumed(start) + remaining(start).take(first) + remaining(
            start,
        ).subrange(first, first + second),
        consumed(end) + remaining(end) == full_text(start),
{
    let rest = remaining(start);
    assert(rest.skip(first).take(second) =~= rest.subrange(first, first + second));
    assert(rest.skip(first).skip(second) =~= rest.skip(first + second));
    assert(consumed(end) + remaining(end) =~= full_text(start));
}

} // verus!
