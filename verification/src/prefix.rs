//! The prefix of a message: a mention of the bot, or one of the prefixes
//! that the configuration or its producers name.

use crate::model::Context;
use crate::options::Configuration;
use crate::scanner::{
    lemma_moved_keeps_text, lemma_moved_twice, lemma_stays, moved_by, remaining, same_place,
    Scanner,
};
use crate::text::{
    all_chars, leading_run, lemma_leading_run, lemma_leading_run_unique, same_text, CharClass,
};
use vstd::prelude::*;
use vstd::string::*;

verus! {

/// The text of a mention of `id`: `<@id>`, or `<@!id>` in the form that
/// names a nickname.
pub open spec fn mention_text(id: Seq<char>, nickname: bool) -> Seq<char> {
    if nickname {
        seq!['<', '@', '!'] + id + seq!['>']
    } else {
        seq!['<', '@'] + id + seq!['>']
    }
}

/// The number of characters that a mention of `id` takes at the start of
/// `rest`, if `id` consists of digits and `rest` starts with a mention of
/// it in either form.
pub open spec fn mention_of(rest: Seq<char>, id: Seq<char>) -> Option<int> {
    if !all_chars(id, CharClass::Digit.pred()) {
        None
    } else if mention_text(id, false).is_prefix_of(rest) {
        Some(id.len() as int + 3)
    } else if mention_text(id, true).is_prefix_of(rest) {
        Some(id.len() as int + 4)
    } else {
        None
    }
}

/// The number of characters that a mention of the bot takes at the start
/// of `rest`, if mentions count as a prefix and there is one.
pub open spec fn mention_found(rest: Seq<char>, config: Configuration) -> Option<int> {
    match config.on_mention {
        Some(id) => mention_of(rest, id@),
        None => None,
    }
}

/// The steps by which a mention is read: `<@`, then `!` if there is one,
/// then the digits, then `>`; the digits have to be `id`.
spec fn mention_scanned(rest: Seq<char>, id: Seq<char>) -> Option<int> {
    if !(rest.len() >= 2 && rest[0] == '<' && rest[1] == '@') {
        None
    } else {
        let start: int = if rest.len() >= 3 && rest[2] == '!' {
            3
        } else {
            2
        };
        let digits = leading_run(rest.skip(start), CharClass::Digit.pred()) as int;
        if rest.len() > start + digits && rest[start + digits] == '>' && rest.subrange(
            start,
            start + digits,
        ) == id {
            Some(start + digits + 1)
        } else {
            None
        }
    }
}

/// Reading a mention step by step finds what `mention_of` describes.
proof fn lemma_mention_scanned(rest: Seq<char>, id: Seq<char>)
    ensures
        mention_scanned(rest, id) == mention_of(rest, id),
{
    let digit = CharClass::Digit.pred();
    let plain = mention_text(id, false);
    let nick = mention_text(id, true);
    assert(plain.len() == id.len() + 3);
    assert(nick.len() == id.len() + 4);
    assert(!digit('>') && !digit('!'));
    if rest.len() >= 2 && rest[0] == '<' && rest[1] == '@' {
        let start: int = if rest.len() >= 3 && rest[2] == '!' {
            3
        } else {
            2
        };
        let tail = rest.skip(start);
        let digits = leading_run(tail, digit) as int;
        lemma_leading_run(tail, digit);
        if mention_scanned(rest, id) is Some {
            assert(id == rest.subrange(start, start + digits));
            assert forall|i: int| 0 <= i < id.len() implies digit(#[trigger] id[i]) by {
                assert(id[i] == tail[i]);
            }
            if start == 3 {
                assert(nick =~= rest.subrange(0, nick.len() as int));
                if plain.is_prefix_of(rest) {
                    assert(plain[2] == rest.subrange(0, plain.len() as int)[2]);
                    if id.len() > 0 {
                        assert(plain[2] == id[0]);
                    }
                }
            } else {
                assert(plain =~= rest.subrange(0, plain.len() as int));
            }
        } else if all_chars(id, digit) {
            if plain.is_prefix_of(rest) {
                let head = rest.subrange(0, plain.len() as int);
                assert(head[2] == plain[2]);
                if id.len() > 0 {
                    assert(plain[2] == id[0]);
                }
                assert(start == 2);
                assert forall|i: int| 0 <= i < id.len() implies digit(#[trigger] tail[i]) by {
                    assert(tail[i] == head[i + 2]);
                    assert(plain[i + 2] == id[i]);
                }
                assert(tail[id.len() as int] == head[id.len() as int + 2]);
                assert(plain[id.len() as int + 2] == '>');
                lemma_leading_run_unique(tail, digit, id.len() as int);
                assert(rest.subrange(start, start + digits) =~= id) by {
                    assert forall|i: int| 0 <= i < id.len() implies rest.subrange(
                        start,
                        start + digits,
                    )[i] == id[i] by {
                        assert(head[i + 2] == plain[i + 2]);
                    }
                }
                assert(false);
            } else if nick.is_prefix_of(rest) {
                let head = rest.subrange(0, nick.len() as int);
                assert(head[2] == nick[2]);
                assert(start == 3);
                assert forall|i: int| 0 <= i < id.len() implies digit(#[trigger] tail[i]) by {
                    assert(tail[i] == head[i + 3]);
                    assert(nick[i + 3] == id[i]);
                }
                assert(tail[id.len() as int] == head[id.len() as int + 3]);
                assert(nick[id.len() as int + 3] == '>');
                lemma_leading_run_unique(tail, digit, id.len() as int);
                assert(rest.subrange(start, start + digits) =~= id) by {
                    assert forall|i: int| 0 <= i < id.len() implies rest.subrange(
                        start,
                        start + digits,
                    )[i] == id[i] by {
                        assert(head[i + 3] == nick[i + 3]);
                    }
                }
                assert(false);
            }
        }
    } else {
        if plain.is_prefix_of(rest) {
            let head = rest.subrange(0, plain.len() as int);
            assert(head[0] == plain[0] && head[1] == plain[1]);
        }
        if nick.is_prefix_of(rest) {
            let head = rest.subrange(0, nick.len() as int);
            assert(head[0] == nick[0] && head[1] == nick[1]);
        }
    }
}

/// Reads a mention of the bot at the cursor: `<@id>` or `<@!id>`, where
/// `id` is the identifier that the configuration names. On success the
/// identifier is returned, as it stands in the text, and the cursor is
/// behind the mention. Otherwise the cursor is where it was.
pub fn mention<'a>(stream: &mut Scanner<'a>, config: &Configuration) -> (r: Option<&'a str>)
    ensures
        match r {
            Some(id) => {
                &&& config.on_mention matches Some(own)
                &&& id@ == own@
                &&& mention_found(remaining(*old(stream)), *config) matches Some(count)
                &&& moved_by(*old(stream), *final(stream), count)
            },
            None => {
                &&& mention_found(remaining(*old(stream)), *config) is None
                &&& same_place(*old(stream), *final(stream))
            },
        },
{
    let on_mention = match &config.on_mention {
        Some(id) => id.as_str(),
        None => {
            return None;
        },
    };
    let ghost before = *stream;
    let ghost rest = remaining(*stream);
    proof {
        lemma_mention_scanned(rest, on_mention@);
        reveal_strlit("<@");
        reveal_strlit("!");
        reveal_strlit(">");
    }
    let start = stream.offset();
    if !stream.eat("<@") {
        proof {
            if rest.len() >= 2 && rest[0] == '<' && rest[1] == '@' {
                assert("<@"@ =~= rest.subrange(0, 2));
            }
        }
        return None;
    }
    let ghost opened = *stream;
    proof {
        assert(rest.subrange(0, 2)[0] == rest[0] && rest.subrange(0, 2)[1] == rest[1]);
        lemma_moved_keeps_text(before, opened, 2);
    }
    let nickname = stream.eat("!");
    let ghost named = *stream;
    let ghost skipped: int = if nickname {
        3
    } else {
        2
    };
    proof {
        if nickname {
            assert(remaining(opened).subrange(0, 1)[0] == remaining(opened)[0]);
            lemma_moved_twice(before, opened, named, 2, 1);
        } else {
            if rest.len() >= 3 && rest[2] == '!' {
                assert("!"@ =~= remaining(opened).subrange(0, 1));
            }
        }
        assert(moved_by(before, named, skipped));
        lemma_moved_keeps_text(before, named, skipped);
    }
    let id = stream.take_while(CharClass::Digit);
    let ghost counted = *stream;
    let ghost digits = leading_run(rest.skip(skipped), CharClass::Digit.pred()) as int;
    proof {
        lemma_moved_twice(before, named, counted, skipped, digits);
        lemma_moved_keeps_text(before, counted, skipped + digits);
        assert(id@ =~= rest.subrange(skipped, skipped + digits));
    }
    if !stream.eat(">") {
        proof {
            if rest.len() > skipped + digits && rest[skipped + digits] == '>' {
                assert(">"@ =~= remaining(counted).subrange(0, 1));
            }
        }
        stream.restore(start, Ghost(before));
        return None;
    }
    proof {
        assert(remaining(counted).subrange(0, 1)[0] == remaining(counted)[0]);
        lemma_moved_twice(before, counted, *stream, skipped + digits, 1);
        lemma_moved_keeps_text(before, *stream, skipped + digits + 1);
    }
    if same_text(id, on_mention) {
        Some(id)
    } else {
        stream.restore(start, Ghost(before));
        None
    }
}

/// The prefixes that are tried at the cursor, in their order: what each
/// producer returned, then the prefixes of the configuration.
pub open spec fn candidates(ctx: Context, config: Configuration) -> Seq<Option<Seq<char>>> {
    ctx.dynamic_prefixes@.map_values(
        |p: Option<String>|
            match p {
                Some(text) => Some(text@),
                None => None,
            },
    ) + config.prefixes@.map_values(|p: String| Some(p@))
}

/// The first of `tried`, from the one at `from` on, that `rest` starts
/// with.
pub open spec fn first_match(tried: Seq<Option<Seq<char>>>, rest: Seq<char>, from: int) -> Option<
    int,
>
    decreases tried.len() - from,
{
    if from < 0 || from >= tried.len() {
        None
    } else if tried[from] matches Some(text) && text.is_prefix_of(rest) {
        Some(from)
    } else {
        first_match(tried, rest, from + 1)
    }
}

/// The first match wins: what `first_match` finds is a candidate that
/// `rest` starts with, and `rest` starts with none of those tried before
/// it, whatever comes behind it in the list.
pub proof fn lemma_first_match(tried: Seq<Option<Seq<char>>>, rest: Seq<char>, from: int)
    requires
        0 <= from,
    ensures
        match first_match(tried, rest, from) {
            Some(i) => {
                &&& from <= i < tried.len()
                &&& tried[i] matches Some(text) && text.is_prefix_of(rest)
                &&& forall|j: int|
                    from <= j < i ==> !(#[trigger] tried[j] matches Some(text)
                        && text.is_prefix_of(rest))
            },
            None => forall|j: int|
                from <= j < tried.len() ==> !(#[trigger] tried[j] matches Some(text)
                    && text.is_prefix_of(rest)),
        },
    decreases tried.len() - from,
{
    if from < tried.len() && !(tried[from] matches Some(text) && text.is_prefix_of(rest)) {
        lemma_first_match(tried, rest, from + 1);
    }
}

/// The prefix that `rest` starts with: the first of the candidates that
/// it starts with, if there is one.
pub open spec fn prefix_found(ctx: Context, config: Configuration, rest: Seq<char>) -> Option<
    Seq<char>,
> {
    match first_match(candidates(ctx, config), rest, 0) {
        Some(i) => candidates(ctx, config)[i],
        None => None,
    }
}

/// The text at the cursor if it is `prefix`.
fn try_match<'a>(stream: &Scanner<'a>, prefix: &str) -> (r: Option<&'a str>)
    ensures
        r is Some == prefix@.is_prefix_of(remaining(*stream)),
        r matches Some(seen) ==> seen@ == prefix@,
{
    let seen = stream.peek_for(prefix.unicode_len());
    if same_text(prefix, seen) {
        Some(seen)
    } else {
        proof {
            let rest = remaining(*stream);
            if prefix@.is_prefix_of(rest) {
                assert(rest.take(prefix@.len() as int) =~= prefix@);
            }
        }
        None
    }
}

/// Finds the prefix that the text at the cursor starts with. What the
/// producers returned is tried first, in their order, then the prefixes
/// of the configuration in theirs; one that the text does not start with
/// is passed over. The cursor stays.
pub fn find_prefix<'a>(ctx: &Context, config: &Configuration, stream: &Scanner<'a>) -> (r: Option<
    &'a str,
>)
    ensures
        match r {
            Some(prefix) => prefix_found(*ctx, *config, remaining(*stream)) == Some(prefix@),
            None => prefix_found(*ctx, *config, remaining(*stream)) is None,
        },
        r matches Some(prefix) ==> prefix@.is_prefix_of(remaining(*stream)),
{
    let ghost rest = remaining(*stream);
    let ghost tried = candidates(*ctx, *config);
    let produced = ctx.dynamic_prefixes.len();
    let mut i: usize = 0;
    while i < produced
        invariant
            i <= produced,
            produced == ctx.dynamic_prefixes@.len(),
            rest == remaining(*stream),
            tried == candidates(*ctx, *config),
            first_match(tried, rest, 0) == first_match(tried, rest, i as int),
        decreases produced - i,
    {
        if let Some(p) = &ctx.dynamic_prefixes[i] {
            if let Some(seen) = try_match(stream, p.as_str()) {
                return Some(seen);
            }
        }
        i += 1;
    }
    let mut j: usize = 0;
    while j < config.prefixes.len()
        invariant
            j <= config.prefixes.len(),
            produced == ctx.dynamic_prefixes@.len(),
            rest == remaining(*stream),
            tried == candidates(*ctx, *config),
            first_match(tried, rest, 0) == first_match(tried, rest, produced + j),
        decreases config.prefixes.len() - j,
    {
        if let Some(seen) = try_match(stream, config.prefixes[j].as_str()) {
            return Some(seen);
        }
        j += 1;
    }
    None
}

/// What `prefix` does: the prefix it finds, and by how many characters it
/// moves the cursor. A mention comes before any other prefix and has the
/// whitespace behind it skipped. Otherwise, if a prefix is found, the
/// cursor moves past it, and then past whitespace if the configuration
/// asks for that. If none is found, the cursor stays.
pub open spec fn prefix_outcome(ctx: Context, config: Configuration, rest: Seq<char>) -> (
    Option<Seq<char>>,
    int,
) {
    let space = CharClass::Whitespace.pred();
    match mention_found(rest, config) {
        Some(count) => (
            Some(config.on_mention->0@),
            count + leading_run(rest.skip(count), space),
        ),
        None => match prefix_found(ctx, config, rest) {
            Some(text) => (
                Some(text),
                if config.with_whitespace.prefixes {
                    text.len() as int + leading_run(rest.skip(text.len() as int), space)
                } else {
                    text.len() as int
                },
            ),
            None => (None, 0),
        },
    }
}

/// Reads the prefix of a message: a mention of the bot, a prefix that a
/// producer returned, or a prefix of the configuration. Returns the
/// prefix, or nothing if the text starts with none; that is no error.
pub fn prefix<'a>(ctx: &Context, stream: &mut Scanner<'a>, config: &Configuration) -> (r: Option<
    &'a str,
>)
    ensures
        match r {
            Some(found) => prefix_outcome(*ctx, *config, remaining(*old(stream))).0 == Some(
                found@,
            ),
            None => prefix_outcome(*ctx, *config, remaining(*old(stream))).0 is None,
        },
        moved_by(
            *old(stream),
            *final(stream),
            prefix_outcome(*ctx, *config, remaining(*old(stream))).1,
        ),
{
    let ghost before = *stream;
    let ghost rest = remaining(*stream);
    if let Some(id) = mention(stream, config) {
        let ghost named = *stream;
        stream.take_while(CharClass::Whitespace);
        proof {
            let count = mention_found(rest, *config)->0;
            lemma_moved_twice(
                before,
                named,
                *stream,
                count,
                leading_run(rest.skip(count), CharClass::Whitespace.pred()) as int,
            );
        }
        return Some(id);
    }
    proof {
        lemma_stays(before, *stream);
    }
    match find_prefix(ctx, config, stream) {
        Some(text) => {
            let ghost count = text@.len() as int;
            proof {
                assert(rest.take(count) =~= text@);
            }
            stream.skip_chars(text, Ghost(count));
            let ghost named = *stream;
            if config.with_whitespace.prefixes {
                stream.take_while(CharClass::Whitespace);
                proof {
                    lemma_moved_twice(
                        before,
                        named,
                        *stream,
                        count,
                        leading_run(rest.skip(count), CharClass::Whitespace.pred()) as int,
                    );
                }
            }
            Some(text)
        },
        None => None,
    }
}

} // verus!
