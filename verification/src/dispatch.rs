//! The entry point: from the text behind the prefix to what the message
//! invokes.

use crate::gate::{check_discrepancy, gate};
use crate::map::Addressing;
use crate::matcher::{command_taken, group_taken, handle_command, handle_group, to_lowercase};
use crate::model::{Context, Message};
use crate::options::{CommandGroup, CommonOptions, Configuration};
use crate::outcome::{Invoke, Outcome, ParseError, Reason, UnknownCommand};
use crate::scanner::{lemma_moved_twice, lemma_stays, moved_by, remaining, same_place, Scanner};
use crate::text::{leading_run, normalized, same_text, CharClass};
use vstd::prelude::*;
use vstd::string::*;

verus! {

/// The text at the start of `rest` up to the next whitespace, or to the
/// end.
pub open spec fn leading_word(rest: Seq<char>) -> Seq<char> {
    rest.take(leading_run(rest, CharClass::Whitespace.outside()) as int)
}

/// The first of the help names, from the one at `from` on, that is the
/// token.
pub open spec fn help_found(names: Seq<&str>, token: Seq<char>, from: int) -> Option<int>
    decreases names.len() - from,
{
    if from < 0 || from >= names.len() {
        None
    } else if names[from]@ == token {
        Some(from)
    } else {
        help_found(names, token, from + 1)
    }
}

/// Finds the first of the help names that is the token, which is the
/// leading word of a text in the form under which names are looked up.
pub fn find_help(names: &[&str], token: &str) -> (r: Option<usize>)
    ensures
        match r {
            Some(i) => help_found(names@, token@, 0) == Some(i as int),
            None => help_found(names@, token@, 0) is None,
        },
        r matches Some(i) ==> i < names@.len() && names@[i as int]@ == token@,
{
    let mut i: usize = 0;
    while i < names.len()
        invariant
            i <= names.len(),
            help_found(names@, token@, 0) == help_found(names@, token@, i as int),
        decreases names.len() - i,
    {
        if same_text(names[i], token) {
            return Some(i);
        }
        i += 1;
    }
    None
}

/// An outcome that was reached without naming `group`, after
/// authorization has been asked for the group: where it is refused, the
/// refusal takes the place of what was found. The cursor stays where it
/// is.
pub open spec fn admitted<'a>(
    found: Outcome<Invoke<'a>>,
    group: &'a CommandGroup,
    ctx: Context,
    msg: Message,
    config: Configuration,
) -> Outcome<Invoke<'a>> {
    match gate(ctx, msg, config, group.options.requirements()) {
        Err(denied) => Outcome { result: Err(denied@), advance: found.advance },
        Ok(_) => found,
    }
}

/// One attempt at a top-level group: its outcome, and whether the outcome
/// is that of the whole dispatch or the next group is to be tried.
pub struct Attempt<'a> {
    pub outcome: Outcome<Invoke<'a>>,
    pub decided: bool,
}

/// What the text `rest` invokes under one top-level group.
///
/// A group that is reached by its name is tried as the only group of its
/// map. Of a group that is reached without its name, the groups below it
/// are tried first and then, from where that left the cursor, its
/// commands; where either succeeds, authorization is asked for the group
/// itself. A success decides, and so does a refusal of authorization to a
/// group reached without its name.
#[verifier::opaque]
pub open spec fn entry_tried<'a>(
    group: &'a CommandGroup,
    map: Addressing<'a>,
    rest: Seq<char>,
    ctx: Context,
    msg: Message,
    config: Configuration,
) -> Attempt<'a> {
    match map {
        Addressing::WithPrefixes(by_name) => {
            let tried = group_taken(by_name, rest, ctx, msg, config);
            Attempt { outcome: tried, decided: tried.result is Ok }
        },
        Addressing::Prefixless(sub_groups, commands) => {
            let first = group_taken(sub_groups, rest, ctx, msg, config);
            if first.result is Ok {
                Attempt { outcome: admitted(first, group, ctx, msg, config), decided: true }
            } else {
                let second = command_taken(
                    commands,
                    group,
                    rest.skip(first.advance),
                    ctx,
                    msg,
                    config,
                ).after(first.advance);
                if second.result is Ok {
                    Attempt { outcome: admitted(second, group, ctx, msg, config), decided: true }
                } else {
                    Attempt { outcome: second, decided: false }
                }
            }
        },
    }
}

/// What the text `rest` invokes among the top-level groups from the one
/// at `from` on, where `last` is the failure of the group tried before.
/// The groups are tried in their order, each from where the one before
/// left the cursor, up to the first whose attempt decides. If none does,
/// the failure of the last one is the outcome.
pub open spec fn groups_tried<'a>(
    groups: Seq<(&'a CommandGroup, Addressing<'a>)>,
    from: int,
    rest: Seq<char>,
    last: Reason,
    ctx: Context,
    msg: Message,
    config: Configuration,
) -> Outcome<Invoke<'a>>
    decreases groups.len() - from,
{
    if from < 0 || from >= groups.len() {
        Outcome { result: Err(last), advance: 0 }
    } else {
        let attempt = entry_tried(groups[from].0, groups[from].1, rest, ctx, msg, config);
        match attempt.outcome.result {
            Err(reason) if !attempt.decided => groups_tried(
                groups,
                from + 1,
                rest.skip(attempt.outcome.advance),
                reason,
                ctx,
                msg,
                config,
            ).after(attempt.outcome.advance),
            _ => attempt.outcome,
        }
    }
}

/// What the text `rest` invokes. If its leading word, in the form under
/// which names are looked up, is one of the help names, it invokes the
/// help command under the first such name, whatever the groups hold, and
/// the cursor moves past the word and the whitespace behind it. Otherwise
/// the groups are tried in their order.
pub open spec fn dispatched<'a>(
    groups: Seq<(&'a CommandGroup, Addressing<'a>)>,
    help: Option<Seq<&'a str>>,
    rest: Seq<char>,
    ctx: Context,
    msg: Message,
    config: Configuration,
) -> Outcome<Invoke<'a>> {
    let word = leading_word(rest);
    let token = normalized(config.case_insensitive, word);
    match help {
        Some(names) if help_found(names, token, 0) is Some => Outcome {
            result: Ok(Invoke::Help(names[help_found(names, token, 0)->0])),
            advance: word.len() as int + leading_run(
                rest.skip(word.len() as int),
                CharClass::Whitespace.pred(),
            ),
        },
        _ => groups_tried(groups, 0, rest, Reason::UnknownCommand(None), ctx, msg, config),
    }
}

/// Tries one top-level group at the cursor. Returns what the attempt
/// ended in, and whether that decides the dispatch.
fn try_entry<'a>(
    stream: &mut Scanner,
    ctx: &Context,
    msg: &Message,
    config: &Configuration,
    group: &'a CommandGroup,
    map: &Addressing<'a>,
) -> (r: (Result<Invoke<'a>, ParseError>, bool))
    ensures
        ({
            let attempt = entry_tried(group, *map, remaining(*old(stream)), *ctx, *msg, *config);
            &&& moved_by(*old(stream), *final(stream), attempt.outcome.advance)
            &&& r.1 == attempt.decided
            &&& match r.0 {
                Ok(invoke) => attempt.outcome.result == Ok::<Invoke, Reason>(invoke),
                Err(error) => attempt.outcome.result == Err::<Invoke, Reason>(error@),
            }
        }),
{
    let ghost before = *stream;
    let ghost rest = remaining(*stream);
    proof {
        reveal(entry_tried);
    }
    match map {
        Addressing::WithPrefixes(by_name) => {
            let tried = handle_group(stream, ctx, msg, config, by_name);
            let decided = tried.is_ok();
            (tried, decided)
        },
        Addressing::Prefixless(sub_groups, commands) => {
            match handle_group(stream, ctx, msg, config, sub_groups) {
                Ok(invoke) => {
                    return match check_discrepancy(ctx, msg, config, &group.options) {
                        Err(denied) => (Err(ParseError::Dispatch(denied)), true),
                        Ok(_) => (Ok(invoke), true),
                    };
                },
                Err(_) => {},
            }
            let ghost middle = *stream;
            let second = handle_command(stream, ctx, msg, config, commands, group);
            proof {
                let first = group_taken(*sub_groups, rest, *ctx, *msg, *config);
                let then = command_taken(
                    *commands,
                    group,
                    rest.skip(first.advance),
                    *ctx,
                    *msg,
                    *config,
                );
                lemma_moved_twice(before, middle, *stream, first.advance, then.advance);
            }
            match second {
                Ok(invoke) => match check_discrepancy(ctx, msg, config, &group.options) {
                    Err(denied) => (Err(ParseError::Dispatch(denied)), true),
                    Ok(_) => (Ok(invoke), true),
                },
                Err(error) => (Err(error), false),
            }
        },
    }
}

/// Reads a help name at the cursor, with the whitespace behind it.
/// Returns the first of the names that the leading word is; if it is
/// none of them, the cursor stays.
fn help_name<'a>(stream: &mut Scanner, config: &Configuration, names: &[&'a str]) -> (r: Option<
    &'a str,
>)
    ensures
        ({
            let word = leading_word(remaining(*old(stream)));
            let token = normalized(config.case_insensitive, word);
            match r {
                Some(name) => {
                    &&& help_found(names@, token, 0) matches Some(i)
                    &&& name == names@[i]
                    &&& moved_by(
                        *old(stream),
                        *final(stream),
                        word.len() as int + leading_run(
                            remaining(*old(stream)).skip(word.len() as int),
                            CharClass::Whitespace.pred(),
                        ),
                    )
                },
                None => {
                    &&& help_found(names@, token, 0) is None
                    &&& same_place(*old(stream), *final(stream))
                },
            }
        }),
{
    let ghost before = *stream;
    let ghost rest = remaining(*stream);
    let word = stream.peek_until(CharClass::Whitespace);
    let token = to_lowercase(config, word);
    match find_help(names, token.as_str()) {
        Some(i) => {
            stream.skip_chars(word, Ghost(word@.len() as int));
            let ghost named = *stream;
            stream.take_while(CharClass::Whitespace);
            proof {
                lemma_moved_twice(
                    before,
                    named,
                    *stream,
                    word@.len() as int,
                    leading_run(rest.skip(word@.len() as int), CharClass::Whitespace.pred()) as int,
                );
            }
            Some(names[i])
        },
        None => None,
    }
}

/// Tries the top-level groups in their order, each from where the one
/// before left the cursor, up to the first whose attempt decides.
fn try_groups<'a>(
    stream: &mut Scanner,
    ctx: &Context,
    msg: &Message,
    config: &Configuration,
    groups: &[(&'a CommandGroup, Addressing<'a>)],
) -> (r: Result<Invoke<'a>, ParseError>)
    ensures
        ({
            let out = groups_tried(
                groups@,
                0,
                remaining(*old(stream)),
                Reason::UnknownCommand(None),
                *ctx,
                *msg,
                *config,
            );
            &&& moved_by(*old(stream), *final(stream), out.advance)
            &&& match r {
                Ok(invoke) => out.result == Ok::<Invoke, Reason>(invoke),
                Err(error) => out.result == Err::<Invoke, Reason>(error@),
            }
        }),
{
    let ghost before = *stream;
    let ghost rest = remaining(*stream);
    let ghost whole = groups_tried(
        groups@,
        0,
        rest,
        Reason::UnknownCommand(None),
        *ctx,
        *msg,
        *config,
    );
    let ghost mut moved: int = 0;
    let mut last = ParseError::Unknown(UnknownCommand(None));
    let mut i: usize = 0;
    proof {
        lemma_stays(before, *stream);
        assert(rest.skip(0) =~= rest);
    }
    while i < groups.len()
        invariant
            i <= groups.len(),
            before == *old(stream),
            rest == remaining(before),
            moved_by(before, *stream, moved),
            whole == groups_tried(
                groups@,
                0,
                remaining(*old(stream)),
                Reason::UnknownCommand(None),
                *ctx,
                *msg,
                *config,
            ),
            whole == groups_tried(
                groups@,
                i as int,
                rest.skip(moved),
                last@,
                *ctx,
                *msg,
                *config,
            ).after(moved),
        decreases groups.len() - i,
    {
        let ghost here = *stream;
        let ghost left = remaining(*stream);
        let ghost attempt = entry_tried(
            groups@[i as int].0,
            groups@[i as int].1,
            left,
            *ctx,
            *msg,
            *config,
        );
        let (tried, decided) = try_entry(stream, ctx, msg, config, groups[i].0, &groups[i].1);
        proof {
            lemma_moved_twice(before, here, *stream, moved, attempt.outcome.advance);
            assert(left.skip(attempt.outcome.advance) =~= rest.skip(
                moved + attempt.outcome.advance,
            ));
        }
        let error = match tried {
            Ok(invoke) => {
                return Ok(invoke);
            },
            Err(error) => error,
        };
        if decided {
            return Err(error);
        }
        proof {
            moved = moved + attempt.outcome.advance;
        }
        last = error;
        i += 1;
    }
    Err(last)
}

/// Resolves the text at the cursor to what the message invokes: the help
/// command, if the text starts with one of its names, or else a command
/// of the first of the top-level groups under which the text resolves to
/// one. Where it resolves to none, the error is that of the group tried
/// last. The cursor is left behind what has been read.
pub fn command<'a>(
    ctx: &Context,
    msg: &Message,
    stream: &mut Scanner,
    groups: &[(&'a CommandGroup, Addressing<'a>)],
    config: &Configuration,
    help_was_set: Option<&[&'a str]>,
) -> (r: Result<Invoke<'a>, ParseError>)
    ensures
        ({
            let help = match help_was_set {
                Some(names) => Some(names@),
                None => None,
            };
            let out = dispatched(groups@, help, remaining(*old(stream)), *ctx, *msg, *config);
            &&& moved_by(*old(stream), *final(stream), out.advance)
            &&& match r {
                Ok(invoke) => out.result == Ok::<Invoke, Reason>(invoke),
                Err(error) => out.result == Err::<Invoke, Reason>(error@),
            }
        }),
{
    if let Some(names) = help_was_set {
        if let Some(name) = help_name(stream, config, names) {
            return Ok(Invoke::Help(name));
        }
    }
    try_groups(stream, ctx, msg, config, groups)
}

} // verus!
