//! The matcher: from the text behind the prefix to the group and the
//! command that it names.

use crate::gate::{check_discrepancy, gate, DispatchError};
use crate::map::{lemma_last_listing, nothing_listed, CommandMap, GroupMap, ParseMap};
use crate::model::{Context, Message};
use crate::options::{Command, CommandGroup, CommonOptions, Configuration};
use crate::outcome::{Invoke, Outcome, ParseError, Reason, UnknownCommand};
use crate::scanner::{lemma_moved_twice, lemma_stays, moved_by, remaining, Scanner};
use crate::text::{
    chars_within, encoded_len, leading_run, lowercase_of, normalized, utf8_len, CharClass,
};
use vstd::prelude::*;
use vstd::string::*;

verus! {

/// A text in the form under which names are looked up: in lower case if
/// `fold` is set, as it is otherwise.
fn normalize(fold: bool, s: &str) -> (r: String)
    ensures
        r@ == normalized(fold, s@),
{
    if fold {
        lowercase_of(s)
    } else {
        s.to_owned()
    }
}

/// A text in the form under which the names of commands and groups are
/// looked up: in lower case if the configuration matches names without
/// regard to case, as it is otherwise.
pub fn to_lowercase(config: &Configuration, s: &str) -> (r: String)
    ensures
        r@ == normalized(config.case_insensitive, s@),
{
    normalize(config.case_insensitive, s)
}

/// The longest front part of `token` that is a name of the map, no
/// shorter than the shortest name that the map has on record. Where no
/// such part is a name, the shortest part that was tried.
pub open spec fn shrunk<M: ParseMap>(map: &M, token: Seq<char>) -> Seq<char>
    decreases token.len(),
{
    if map.lookup(token) is Some || token.len() <= map.shortest() {
        token
    } else {
        shrunk(map, token.drop_last())
    }
}

/// The text at the start of `rest` from which the token is taken: with
/// `by_space` the text up to the next whitespace or the end, otherwise as
/// many characters as the longest name of the map has, or all that
/// remain if there are fewer.
pub open spec fn text_read<M: ParseMap>(map: &M, rest: Seq<char>, by_space: bool) -> Seq<char> {
    if by_space {
        rest.take(leading_run(rest, CharClass::Whitespace.outside()) as int)
    } else {
        rest.take(
            if map.longest() <= rest.len() {
                map.longest() as int
            } else {
                rest.len() as int
            },
        )
    }
}

/// The token that is looked up, given the text that was read in the form
/// under which names are looked up: with `by_space` the text itself,
/// otherwise the text cut down to a name of the map.
pub open spec fn token_of<M: ParseMap>(map: &M, text: Seq<char>, by_space: bool) -> Seq<char> {
    if by_space {
        text
    } else {
        shrunk(map, text)
    }
}

/// The token that is looked up at the start of `rest`. The text is read,
/// brought into lower case if `fold` is set, and the token is taken from
/// it.
pub open spec fn token_at<M: ParseMap>(map: &M, rest: Seq<char>, by_space: bool, fold: bool) -> Seq<
    char,
> {
    token_of(map, normalized(fold, text_read(map, rest, by_space)), by_space)
}

/// Takes the token from a text that was read and brought into the form
/// under which names are looked up, and looks it up in the map. Returns
/// the token and the entry it stands for, if it stands for one.
pub fn find_name<M: ParseMap>(map: &M, text: String, by_space: bool) -> (r: (
    String,
    Option<usize>,
))
    ensures
        r.0@ == token_of(map, text@, by_space),
        match r.1 {
            Some(i) => map.lookup(r.0@) == Some(i as int),
            None => map.lookup(r.0@) is None,
        },
{
    let mut n = text;
    let mut o = map.get(n.as_str());
    if by_space {
        return (n, o);
    }
    let floor = map.min_length();
    let mut len = n.as_str().unicode_len();
    let ghost whole = n@;
    while o.is_none() && len > floor
        invariant
            len == n@.len(),
            floor == map.shortest(),
            match o {
                Some(i) => map.lookup(n@) == Some(i as int),
                None => map.lookup(n@) is None,
            },
            shrunk(map, n@) == shrunk(map, whole),
        decreases len,
    {
        let shorter = n.as_str().substring_char(0, len - 1).to_owned();
        proof {
            assert(shorter@ =~= n@.drop_last());
        }
        n = shorter;
        len = len - 1;
        o = map.get(n.as_str());
    }
    (n, o)
}

/// Reads the token at the cursor and looks it up in the map. Returns the
/// token and the entry it stands for, if it stands for one. The cursor
/// stays.
pub fn try_parse<M: ParseMap>(stream: &Scanner, map: &M, by_space: bool, fold: bool) -> (r: (
    String,
    Option<usize>,
))
    ensures
        r.0@ == token_at(map, remaining(*stream), by_space, fold),
        match r.1 {
            Some(i) => map.lookup(r.0@) == Some(i as int),
            None => map.lookup(r.0@) is None,
        },
{
    let seen = if by_space {
        stream.peek_until(CharClass::Whitespace)
    } else {
        stream.peek_for(map.max_length())
    };
    find_name(map, normalize(fold, seen), by_space)
}

/// The number of characters of whitespace at the start of `rest`, if
/// whitespace is `wanted` gone; 0 if not.
pub open spec fn space_at(rest: Seq<char>, wanted: bool) -> int {
    if wanted {
        leading_run(rest, CharClass::Whitespace.pred()) as int
    } else {
        0
    }
}

/// What the text `rest` resolves to among the commands of `map`.
///
/// The token at the start is looked up. If it is the name of a command
/// that is switched off, that is the outcome, whether a command has the
/// name or not. If no command has the name, or the cursor cannot move by
/// the encoded length of the name, the outcome is that the command is
/// unknown; the cursor has not moved. Otherwise the cursor moves past the
/// name, and past whitespace if the configuration asks for that, and
/// authorization is asked for the command. Where it objects, that is the
/// outcome. Where the command has commands below it, the rest is resolved
/// among them: what is found there is the outcome, and so is a failure
/// there, except that an unknown name there leaves the command itself as
/// the outcome.
pub open spec fn resolve_command<'a>(
    map: CommandMap<'a>,
    rest: Seq<char>,
    ctx: Context,
    msg: Message,
    config: Configuration,
) -> Outcome<&'a Command>
    decreases map,
{
    let token = token_at(&map, rest, config.by_space, config.case_insensitive);
    if config.disables(token) {
        Outcome { result: Err(Reason::CommandDisabled(token)), advance: 0 }
    } else {
        match (map.lookup(token), chars_within(rest, utf8_len(token) as int)) {
            (Some(i), Some(count)) if 0 <= i < map.entries@.len() => {
                let entry = map.entries@[i];
                let moved = count + space_at(rest.skip(count), config.with_whitespace.commands);
                match gate(ctx, msg, config, entry.command.options.requirements()) {
                    Err(denied) => Outcome { result: Err(denied@), advance: moved },
                    Ok(_) => if nothing_listed(entry.sub_commands.name_lists()) {
                        Outcome { result: Ok(entry.command), advance: moved }
                    } else {
                        let below = resolve_command(
                            entry.sub_commands,
                            rest.skip(moved),
                            ctx,
                            msg,
                            config,
                        );
                        match below.result {
                            Err(Reason::UnknownCommand(Some(_))) => Outcome {
                                result: Ok(entry.command),
                                advance: moved + below.advance,
                            },
                            _ => below.after(moved),
                        }
                    },
                }
            },
            _ => Outcome { result: Err(Reason::UnknownCommand(Some(token))), advance: 0 },
        }
    }
}

/// What the text `rest` resolves to among the groups of `map`: a group,
/// and the map of its commands.
///
/// The token at the start is looked up. If no group has it as a prefix,
/// or the cursor cannot move by its encoded length, the outcome is that
/// no group is named; the cursor has not moved. Otherwise
/// the cursor moves past the name, and past whitespace if the
/// configuration asks for that, and authorization is asked for the group.
/// Where it objects, that is the outcome. Where the group has groups
/// below it, the rest is resolved among them: what is found there is the
/// outcome, and so is a failure there, except that if no group is named
/// there the group itself is the outcome.
pub open spec fn resolve_group<'a>(
    map: GroupMap<'a>,
    rest: Seq<char>,
    ctx: Context,
    msg: Message,
    config: Configuration,
) -> Outcome<(&'a CommandGroup, CommandMap<'a>)>
    decreases map,
{
    let token = token_at(&map, rest, config.by_space, config.case_insensitive);
    match (map.lookup(token), chars_within(rest, utf8_len(token) as int)) {
        (Some(i), Some(count)) if 0 <= i < map.entries@.len() => {
            let entry = map.entries@[i];
            let moved = count + space_at(rest.skip(count), config.with_whitespace.groups);
            match gate(ctx, msg, config, entry.group.options.requirements()) {
                Err(denied) => Outcome { result: Err(denied@), advance: moved },
                Ok(_) => if nothing_listed(entry.sub_groups.name_lists()) {
                    Outcome { result: Ok((entry.group, entry.commands)), advance: moved }
                } else {
                    let below = resolve_group(entry.sub_groups, rest.skip(moved), ctx, msg, config);
                    match below.result {
                        Err(Reason::UnknownCommand(None)) => Outcome {
                            result: Ok((entry.group, entry.commands)),
                            advance: moved + below.advance,
                        },
                        _ => below.after(moved),
                    }
                },
            }
        },
        _ => Outcome { result: Err(Reason::UnknownCommand(None)), advance: 0 },
    }
}

/// Resolves the text at the cursor among the commands of `map`, and
/// leaves the cursor behind what it has read.
pub fn parse_cmd<'a>(
    stream: &mut Scanner,
    ctx: &Context,
    msg: &Message,
    config: &Configuration,
    map: &CommandMap<'a>,
) -> (r: Result<&'a Command, ParseError>)
    ensures
        ({
            let out = resolve_command(*map, remaining(*old(stream)), *ctx, *msg, *config);
            &&& moved_by(*old(stream), *final(stream), out.advance)
            &&& match r {
                Ok(command) => out.result == Ok::<&Command, Reason>(command),
                Err(error) => out.result == Err::<&Command, Reason>(error@),
            }
        }),
    decreases map,
{
    let ghost before = *stream;
    let ghost rest = remaining(*stream);
    proof {
        lemma_stays(before, before);
    }
    let (n, found) = try_parse(stream, map, config.by_space, config.case_insensitive);
    if config.is_disabled(n.as_str()) {
        return Err(ParseError::Dispatch(DispatchError::CommandDisabled(n)));
    }
    if let Some(i) = found {
        proof {
            lemma_last_listing(map.name_lists(), n@);
        }
        if stream.increment(encoded_len(n.as_str())) {
            let ghost named = *stream;
            let ghost count = chars_within(rest, utf8_len(n@) as int).unwrap();
            proof {
                lemma_stays(named, named);
            }
            if config.with_whitespace.commands {
                stream.take_while(CharClass::Whitespace);
            }
            let ghost spaced = *stream;
            let ghost moved = count + space_at(rest.skip(count), config.with_whitespace.commands);
            proof {
                lemma_moved_twice(before, named, spaced, count, moved - count);
            }
            let entry = &map.entries[i];
            match check_discrepancy(ctx, msg, config, &entry.command.options) {
                Err(denied) => {
                    return Err(ParseError::Dispatch(denied));
                },
                Ok(_) => {},
            }
            if entry.sub_commands.is_empty() {
                return Ok(entry.command);
            }
            let below = parse_cmd(stream, ctx, msg, config, &entry.sub_commands);
            proof {
                let out = resolve_command(entry.sub_commands, rest.skip(moved), *ctx, *msg, *config);
                lemma_moved_twice(before, spaced, *stream, moved, out.advance);
            }
            return match below {
                Err(ParseError::Unknown(UnknownCommand(Some(_)))) => Ok(entry.command),
                other => other,
            };
        }
    }
    Err(ParseError::Unknown(UnknownCommand(Some(n))))
}

/// Resolves the text at the cursor among the groups of `map`, and leaves
/// the cursor behind what it has read. Returns the group and the map of
/// its commands.
pub fn parse_group<'a, 'm>(
    stream: &mut Scanner,
    ctx: &Context,
    msg: &Message,
    config: &Configuration,
    map: &'m GroupMap<'a>,
) -> (r: Result<(&'a CommandGroup, &'m CommandMap<'a>), ParseError>)
    ensures
        ({
            let out = resolve_group(*map, remaining(*old(stream)), *ctx, *msg, *config);
            &&& moved_by(*old(stream), *final(stream), out.advance)
            &&& match r {
                Ok((group, commands)) => out.result == Ok::<(&CommandGroup, CommandMap), Reason>(
                    (group, *commands),
                ),
                Err(error) => out.result == Err::<(&CommandGroup, CommandMap), Reason>(error@),
            }
        }),
    decreases map,
{
    let ghost before = *stream;
    let ghost rest = remaining(*stream);
    proof {
        lemma_stays(before, before);
    }
    let (n, found) = try_parse(stream, map, config.by_space, config.case_insensitive);
    if let Some(i) = found {
        proof {
            lemma_last_listing(map.name_lists(), n@);
        }
        if stream.increment(encoded_len(n.as_str())) {
            let ghost named = *stream;
            let ghost count = chars_within(rest, utf8_len(n@) as int).unwrap();
            proof {
                lemma_stays(named, named);
            }
            if config.with_whitespace.groups {
                stream.take_while(CharClass::Whitespace);
            }
            let ghost spaced = *stream;
            let ghost moved = count + space_at(rest.skip(count), config.with_whitespace.groups);
            proof {
                lemma_moved_twice(before, named, spaced, count, moved - count);
            }
            let entry = &map.entries[i];
            match check_discrepancy(ctx, msg, config, &entry.group.options) {
                Err(denied) => {
                    return Err(ParseError::Dispatch(denied));
                },
                Ok(_) => {},
            }
            if entry.sub_groups.is_empty() {
                return Ok((entry.group, &entry.commands));
            }
            let below = parse_group(stream, ctx, msg, config, &entry.sub_groups);
            proof {
                let out = resolve_group(entry.sub_groups, rest.skip(moved), *ctx, *msg, *config);
                lemma_moved_twice(before, spaced, *stream, moved, out.advance);
            }
            return match below {
                Err(ParseError::Unknown(UnknownCommand(None))) => Ok((entry.group, &entry.commands)),
                other => other,
            };
        }
    }
    Err(ParseError::Unknown(UnknownCommand(None)))
}

/// What the text `rest` invokes among the commands of `group`, which
/// `map` holds: the command that it resolves to, or the default command
/// of the group if it resolves to none and the group has one. The cursor
/// moves as it does in resolving.
pub open spec fn command_taken<'a>(
    map: CommandMap<'a>,
    group: &'a CommandGroup,
    rest: Seq<char>,
    ctx: Context,
    msg: Message,
    config: Configuration,
) -> Outcome<Invoke<'a>> {
    let found = resolve_command(map, rest, ctx, msg, config);
    match found.result {
        Ok(command) => Outcome {
            result: Ok(Invoke::Command { group, command }),
            advance: found.advance,
        },
        Err(reason) => match &group.options.default_command {
            Some(command) => Outcome {
                result: Ok(Invoke::Command { group, command }),
                advance: found.advance,
            },
            None => Outcome { result: Err(reason), advance: found.advance },
        },
    }
}

/// What the text `rest` invokes among the groups of `map`: what the text
/// behind the group invokes among the commands of the group that it
/// resolves to.
pub open spec fn group_taken<'a>(
    map: GroupMap<'a>,
    rest: Seq<char>,
    ctx: Context,
    msg: Message,
    config: Configuration,
) -> Outcome<Invoke<'a>> {
    let found = resolve_group(map, rest, ctx, msg, config);
    match found.result {
        Ok((group, commands)) => command_taken(
            commands,
            group,
            rest.skip(found.advance),
            ctx,
            msg,
            config,
        ).after(found.advance),
        Err(reason) => Outcome { result: Err(reason), advance: found.advance },
    }
}

/// Resolves the text at the cursor among the commands of `group`, which
/// `map` holds, and falls back on the default command of the group.
pub fn handle_command<'a>(
    stream: &mut Scanner,
    ctx: &Context,
    msg: &Message,
    config: &Configuration,
    map: &CommandMap<'a>,
    group: &'a CommandGroup,
) -> (r: Result<Invoke<'a>, ParseError>)
    ensures
        ({
            let out = command_taken(*map, group, remaining(*old(stream)), *ctx, *msg, *config);
            &&& moved_by(*old(stream), *final(stream), out.advance)
            &&& match r {
                Ok(invoke) => out.result == Ok::<Invoke, Reason>(invoke),
                Err(error) => out.result == Err::<Invoke, Reason>(error@),
            }
        }),
{
    match parse_cmd(stream, ctx, msg, config, map) {
        Ok(command) => Ok(Invoke::Command { group, command }),
        Err(error) => match &group.options.default_command {
            Some(command) => Ok(Invoke::Command { group, command }),
            None => Err(error),
        },
    }
}

/// Resolves the text at the cursor among the groups of `map`, and then
/// among the commands of the group that it names.
pub fn handle_group<'a>(
    stream: &mut Scanner,
    ctx: &Context,
    msg: &Message,
    config: &Configuration,
    map: &GroupMap<'a>,
) -> (r: Result<Invoke<'a>, ParseError>)
    ensures
        ({
            let out = group_taken(*map, remaining(*old(stream)), *ctx, *msg, *config);
            &&& moved_by(*old(stream), *final(stream), out.advance)
            &&& match r {
                Ok(invoke) => out.result == Ok::<Invoke, Reason>(invoke),
                Err(error) => out.result == Err::<Invoke, Reason>(error@),
            }
        }),
{
    let ghost before = *stream;
    let ghost rest = remaining(*stream);
    match parse_group(stream, ctx, msg, config, map) {
        Ok((group, commands)) => {
            let ghost grouped = *stream;
            let r = handle_command(stream, ctx, msg, config, commands, group);
            proof {
                let first = resolve_group(*map, rest, *ctx, *msg, *config);
                let second = command_taken(
                    *commands,
                    group,
                    rest.skip(first.advance),
                    *ctx,
                    *msg,
                    *config,
                );
                lemma_moved_twice(before, grouped, *stream, first.advance, second.advance);
            }
            r
        },
        Err(error) => Err(error),
    }
}

} // verus!
