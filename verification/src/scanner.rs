//! The cursor over the text of one message.
//!
//! The cursor itself is `uwl`'s Unicode stream. This module states what each
//! of its operations does to the text before and after the cursor, and
//! builds on them the steps that the resolver and the matcher take.

use crate::text::{
    chars_within, leading_run, lemma_boundary, lemma_chars_within_complete,
    lemma_chars_within_shift, lemma_chars_within_sound, lemma_leading_run_unique, lemma_same_split,
    lemma_utf8_len_concat, lemma_utf8_len_lower, encoded_len, utf8_len, CharClass,
};
use uwl::UnicodeStream;
use vstd::prelude::*;
use vstd::utf8::{encode_utf8, is_char_boundary};

verus! {

/// A cursor over a borrowed text. It reads the text in whole characters and
/// never copies it.
#[verifier::external_body]
pub struct Scanner<'a> {
    stream: UnicodeStream<'a>,
}

/// The part of the text that lies before the cursor.
pub uninterp spec fn consumed(scanner: Scanner) -> Seq<char>;

/// The part of the text that lies at and after the cursor.
pub uninterp spec fn remaining(scanner: Scanner) -> Seq<char>;

/// The whole text that the scanner reads.
pub open spec fn full_text(scanner: Scanner) -> Seq<char> {
    consumed(scanner) + remaining(scanner)
}

/// The cursor of `after` is where that of `before` was, moved forward over
/// the first `count` characters of what remained.
pub open spec fn moved_by(before: Scanner, after: Scanner, count: int) -> bool {
    &&& 0 <= count <= remaining(before).len()
    &&& consumed(after) == consumed(before) + remaining(before).take(count)
    &&& remaining(after) == remaining(before).skip(count)
}

/// Both scanners read the same text with the cursor at the same place.
pub open spec fn same_place(before: Scanner, after: Scanner) -> bool {
    &&& consumed(after) == consumed(before)
    &&& remaining(after) == remaining(before)
}

/// A cursor that stays has moved over no character.
pub proof fn lemma_stays(before: Scanner, after: Scanner)
    ensures
        same_place(before, after) <==> moved_by(before, after, 0),
{
    let rest = remaining(before);
    assert(rest.take(0) =~= Seq::<char>::empty());
    assert(consumed(before) + rest.take(0) =~= consumed(before));
    assert(rest.skip(0) =~= rest);
}

/// A cursor that has moved still reads the same text.
pub proof fn lemma_moved_keeps_text(before: Scanner, after: Scanner, count: int)
    requires
        moved_by(before, after, count),
    ensures
        full_text(after) == full_text(before),
{
    let rest = remaining(before);
    assert(rest.take(count) + rest.skip(count) =~= rest);
    assert(full_text(after) =~= full_text(before));
}

/// Two moves in a row are one move over the sum of their lengths.
pub proof fn lemma_moved_twice(first: Scanner, second: Scanner, third: Scanner, a: int, b: int)
    requires
        moved_by(first, second, a),
        moved_by(second, third, b),
    ensures
        moved_by(first, third, a + b),
{
    let rest = remaining(first);
    assert(rest.skip(a).take(b) =~= rest.subrange(a, a + b));
    assert(rest.take(a) + rest.subrange(a, a + b) =~= rest.take(a + b));
    assert(rest.skip(a).skip(b) =~= rest.skip(a + b));
    assert(consumed(third) =~= consumed(first) + rest.take(a + b));
}

impl<'a> Scanner<'a> {
    /// `UnicodeStream::new`: the stream starts in front of the first
    /// character of the text it is given.
    #[verifier::external_body]
    fn uwl_new(text: &'a str) -> (scanner: Scanner<'a>)
        ensures
            consumed(scanner) == Seq::<char>::empty(),
            remaining(scanner) == text@,
    {
        Scanner { stream: UnicodeStream::new(text) }
    }

    /// `Stream::offset`: the cursor as a count of bytes, which is the
    /// encoded length of the text before it.
    #[verifier::external_body]
    fn uwl_offset(&self) -> (offset: usize)
        ensures
            offset == utf8_len(consumed(*self)),
    {
        self.stream.offset()
    }

    /// `Stream::source`: the whole text that the stream reads.
    #[verifier::external_body]
    fn uwl_source(&self) -> (text: &'a str)
        ensures
            text@ == full_text(*self),
    {
        self.stream.source()
    }

    /// `Stream::set`: puts the cursor at a byte offset, which has to be a
    /// character boundary of the text. The text stays the same.
    #[verifier::external_body]
    fn uwl_set(&mut self, offset: usize)
        requires
            is_char_boundary(encode_utf8(full_text(*old(self))), offset as int),
        ensures
            full_text(*final(self)) == full_text(*old(self)),
            utf8_len(consumed(*final(self))) == offset,
    {
        self.stream.set(offset)
    }

    /// `Stream::increment`: moves the cursor forward by a count of bytes.
    /// Where it lands has to be a character boundary of the text. The text
    /// stays the same.
    #[verifier::external_body]
    fn uwl_increment(&mut self, bytes: usize)
        requires
            utf8_len(consumed(*old(self))) + bytes <= usize::MAX,
            is_char_boundary(
                encode_utf8(full_text(*old(self))),
                utf8_len(consumed(*old(self))) + bytes,
            ),
        ensures
            full_text(*final(self)) == full_text(*old(self)),
            utf8_len(consumed(*final(self))) == utf8_len(consumed(*old(self))) + bytes,
    {
        self.stream.increment(bytes)
    }

    /// `Stream::eat`: if the text at the cursor starts with the literal, the
    /// cursor moves past it; if not, nothing changes.
    #[verifier::external_body]
    fn uwl_eat(&mut self, literal: &str) -> (eaten: bool)
        ensures
            eaten == literal@.is_prefix_of(remaining(*old(self))),
            eaten ==> moved_by(*old(self), *final(self), literal@.len() as int),
            !eaten ==> same_place(*old(self), *final(self)),
    {
        self.stream.eat(literal)
    }

    /// `Stream::take_while`, with the test that a character belongs to
    /// `class`: the cursor moves past every character up to the first one
    /// outside the class, and the characters passed are returned.
    #[verifier::external_body]
    fn uwl_take_while(&mut self, class: CharClass) -> (run: &'a str)
        ensures
            moved_by(*old(self), *final(self), run@.len() as int),
            run@ == remaining(*old(self)).take(run@.len() as int),
            forall|i: int| 0 <= i < run@.len() ==> class.contains(#[trigger] run@[i]),
            run@.len() < remaining(*old(self)).len() ==> !class.contains(
                remaining(*old(self))[run@.len() as int],
            ),
    {
        self.stream.take_while(|s| class.matches(s))
    }

    /// `Stream::peek_for`: the next `ahead` characters, or all that remain
    /// if there are fewer. The cursor stays.
    #[verifier::external_body]
    fn uwl_peek_for(&self, ahead: usize) -> (seen: &'a str)
        ensures
            seen@ == remaining(*self).take(
                if ahead <= remaining(*self).len() {
                    ahead as int
                } else {
                    remaining(*self).len() as int
                },
            ),
    {
        self.stream.peek_for(ahead)
    }

    /// `Stream::peek_until`, with the test that a character belongs to
    /// `class`: the characters from the cursor up to the first one of the
    /// class. The cursor stays.
    #[verifier::external_body]
    fn uwl_peek_until(&self, class: CharClass) -> (seen: &'a str)
        ensures
            seen@.len() <= remaining(*self).len(),
            seen@ == remaining(*self).take(seen@.len() as int),
            forall|i: int| 0 <= i < seen@.len() ==> !class.contains(#[trigger] seen@[i]),
            seen@.len() < remaining(*self).len() ==> class.contains(
                remaining(*self)[seen@.len() as int],
            ),
    {
        self.stream.peek_until(|s| class.matches(s))
    }

    /// A scanner in front of the first character of `text`.
    pub fn new(text: &'a str) -> (scanner: Scanner<'a>)
        ensures
            consumed(scanner) == Seq::<char>::empty(),
            remaining(scanner) == text@,
    {
        Scanner::uwl_new(text)
    }

    /// The cursor as a count of bytes from the start of the text.
    pub fn offset(&self) -> (offset: usize)
        ensures
            offset == utf8_len(consumed(*self)),
    {
        self.uwl_offset()
    }

    /// Moves the cursor past `literal` if the text at the cursor starts
    /// with it, and says whether it did.
    pub fn eat(&mut self, literal: &str) -> (eaten: bool)
        ensures
            eaten == literal@.is_prefix_of(remaining(*old(self))),
            eaten ==> moved_by(*old(self), *final(self), literal@.len() as int),
            !eaten ==> same_place(*old(self), *final(self)),
    {
        self.uwl_eat(literal)
    }

    /// The next `ahead` characters, or all that remain if there are fewer.
    /// The cursor stays. No more steps are taken than bytes remain,
    /// however large `ahead` is.
    pub fn peek_for(&self, ahead: usize) -> (seen: &'a str)
        ensures
            seen@ == remaining(*self).take(
                if ahead <= remaining(*self).len() {
                    ahead as int
                } else {
                    remaining(*self).len() as int
                },
            ),
    {
        let total = encoded_len(self.uwl_source());
        let offset = self.uwl_offset();
        proof {
            lemma_utf8_len_concat(consumed(*self), remaining(*self));
            lemma_utf8_len_lower(remaining(*self));
        }
        let left = total - offset;
        self.uwl_peek_for(
            if ahead <= left {
                ahead
            } else {
                left
            },
        )
    }

    /// Moves the cursor past the longest run of characters of `class` and
    /// returns the run.
    pub fn take_while(&mut self, class: CharClass) -> (run: &'a str)
        ensures
            run@ == remaining(*old(self)).take(
                leading_run(remaining(*old(self)), class.pred()) as int,
            ),
            moved_by(
                *old(self),
                *final(self),
                leading_run(remaining(*old(self)), class.pred()) as int,
            ),
    {
        let ghost rest = remaining(*self);
        let run = self.uwl_take_while(class);
        proof {
            assert forall|i: int| 0 <= i < run@.len() implies (class.pred())(#[trigger] rest[i]) by {
                assert(rest[i] == run@[i]);
                assert(class.contains(run@[i]));
            }
            lemma_leading_run_unique(rest, class.pred(), run@.len() as int);
        }
        run
    }

    /// The characters from the cursor up to the first one of `class`, or to
    /// the end of the text. The cursor stays.
    pub fn peek_until(&self, class: CharClass) -> (seen: &'a str)
        ensures
            seen@ == remaining(*self).take(leading_run(remaining(*self), class.outside()) as int),
            leading_run(remaining(*self), class.outside()) <= remaining(*self).len(),
    {
        let ghost rest = remaining(*self);
        let seen = self.uwl_peek_until(class);
        proof {
            assert forall|i: int| 0 <= i < seen@.len() implies (class.outside())(
                #[trigger] rest[i],
            ) by {
                assert(rest[i] == seen@[i]);
                assert(!class.contains(seen@[i]));
            }
            lemma_leading_run_unique(rest, class.outside(), seen@.len() as int);
        }
        seen
    }

    /// Moves the cursor forward by `bytes` bytes if that many bytes end on a
    /// character boundary of what remains, and says whether it did.
    pub fn increment(&mut self, bytes: usize) -> (moved: bool)
        ensures
            moved == chars_within(remaining(*old(self)), bytes as int) is Some,
            moved ==> moved_by(
                *old(self),
                *final(self),
                chars_within(remaining(*old(self)), bytes as int).unwrap(),
            ),
            !moved ==> same_place(*old(self), *final(self)),
    {
        let ghost before = consumed(*self);
        let ghost rest = remaining(*self);
        let start = self.uwl_offset();
        let text = self.uwl_source();
        let total = encoded_len(text);
        proof {
            lemma_chars_within_shift(before, rest, bytes as int);
            lemma_chars_within_sound(rest, bytes as int);
            lemma_utf8_len_concat(before, rest);
        }
        if bytes > total - start {
            proof {
                if let Some(k) = chars_within(rest, bytes as int) {
                    assert(rest =~= rest.take(k) + rest.skip(k));
                    lemma_utf8_len_concat(rest.take(k), rest.skip(k));
                }
            }
            return false;
        }
        let target = start + bytes;
        proof {
            lemma_boundary(before + rest, target as int);
        }
        if !text.is_char_boundary(target) {
            return false;
        }
        self.uwl_increment(bytes);
        proof {
            let k = chars_within(rest, bytes as int).unwrap();
            assert(rest =~= rest.take(k) + rest.skip(k));
            lemma_utf8_len_concat(before, rest.take(k));
            assert((before + rest.take(k)) + rest.skip(k) =~= before + rest);
            lemma_same_split(consumed(*self), remaining(*self), before + rest.take(k), rest.skip(k));
        }
        true
    }

    /// Puts the cursor at `offset` bytes from the start of the text if
    /// that is a character boundary of the text, and says whether it did.
    pub fn set(&mut self, offset: usize) -> (moved: bool)
        ensures
            moved == chars_within(full_text(*old(self)), offset as int) is Some,
            moved ==> {
                let count = chars_within(full_text(*old(self)), offset as int).unwrap();
                &&& consumed(*final(self)) == full_text(*old(self)).take(count)
                &&& remaining(*final(self)) == full_text(*old(self)).skip(count)
            },
            !moved ==> same_place(*old(self), *final(self)),
    {
        let ghost whole = full_text(*self);
        let text = self.uwl_source();
        proof {
            lemma_boundary(whole, offset as int);
            lemma_chars_within_sound(whole, offset as int);
        }
        if !text.is_char_boundary(offset) {
            return false;
        }
        self.uwl_set(offset);
        proof {
            let count = chars_within(whole, offset as int).unwrap();
            assert(whole.take(count) + whole.skip(count) =~= whole);
            lemma_same_split(
                consumed(*self),
                remaining(*self),
                whole.take(count),
                whole.skip(count),
            );
        }
        true
    }

    /// Moves the cursor past the next `count` characters, which are `seen`.
    pub(crate) fn skip_chars(&mut self, seen: &str, Ghost(count): Ghost<int>)
        requires
            0 <= count <= remaining(*old(self)).len(),
            seen@ == remaining(*old(self)).take(count),
        ensures
            moved_by(*old(self), *final(self), count),
    {
        proof {
            lemma_chars_within_complete(remaining(*self), count);
        }
        let moved = self.increment(encoded_len(seen));
        assert(moved);
    }

    /// Puts the cursor back at a byte offset at which it stood before.
    pub(crate) fn restore(&mut self, offset: usize, Ghost(before): Ghost<Scanner>)
        requires
            full_text(*old(self)) == full_text(before),
            offset == utf8_len(consumed(before)),
        ensures
            same_place(before, *final(self)),
    {
        proof {
            let text = full_text(before);
            assert(text.take(consumed(before).len() as int) =~= consumed(before));
            lemma_chars_within_complete(text, consumed(before).len() as int);
            lemma_boundary(text, offset as int);
        }
        self.uwl_set(offset);
        proof {
            lemma_same_split(
                consumed(*self),
                remaining(*self),
                consumed(before),
                remaining(before),
            );
        }
    }
}

} // verus!
