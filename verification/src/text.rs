//! Character classes, case folding and the arithmetic of UTF-8 lengths.
//!
//! Message text is modelled as a sequence of `char`s. The cursor of the
//! scanner is a byte offset into the UTF-8 encoding of that sequence, so the
//! lemmas below relate counts of characters to counts of bytes.

use vstd::prelude::*;
use vstd::string::*;
use vstd::utf8::*;

verus! {

/// The classes of characters that the scanner consumes as a run.
#[derive(Clone, Copy, Debug)]
pub enum CharClass {
    /// The ASCII decimal digits `0` to `9`.
    Digit,
    /// The characters with the Unicode `White_Space` property.
    Whitespace,
}

/// `c` is one of the ASCII decimal digits.
pub open spec fn is_digit(c: char) -> bool {
    0x30 <= c as u32 <= 0x39
}

/// `c` has the Unicode `White_Space` property.
pub open spec fn is_whitespace(c: char) -> bool {
    let u = c as u32;
    ||| 0x09 <= u <= 0x0D
    ||| u == 0x20
    ||| u == 0x85
    ||| u == 0xA0
    ||| u == 0x1680
    ||| 0x2000 <= u <= 0x200A
    ||| u == 0x2028
    ||| u == 0x2029
    ||| u == 0x202F
    ||| u == 0x205F
    ||| u == 0x3000
}

/// Every character of `s` satisfies `pred`.
pub open spec fn all_chars(s: Seq<char>, pred: spec_fn(char) -> bool) -> bool {
    forall|i: int| 0 <= i < s.len() ==> pred(#[trigger] s[i])
}

/// The number of characters at the front of `s` that satisfy `pred`, up to
/// the first one that does not.
pub open spec fn leading_run(s: Seq<char>, pred: spec_fn(char) -> bool) -> nat
    decreases s.len(),
{
    if s.len() == 0 || !pred(s[0]) {
        0
    } else {
        1 + leading_run(s.drop_first(), pred)
    }
}

impl CharClass {
    /// Whether `c` belongs to the class.
    pub open spec fn contains(self, c: char) -> bool {
        match self {
            CharClass::Digit => is_digit(c),
            CharClass::Whitespace => is_whitespace(c),
        }
    }

    /// The class as a predicate on characters.
    pub open spec fn pred(self) -> spec_fn(char) -> bool {
        |c: char| self.contains(c)
    }

    /// The complement of the class as a predicate on characters.
    pub open spec fn outside(self) -> spec_fn(char) -> bool {
        |c: char| !self.contains(c)
    }

    /// Tests one character.
    pub fn has(self, c: char) -> (r: bool)
        ensures
            r == self.contains(c),
    {
        let u: u32 = c as u32;
        match self {
            CharClass::Digit => 0x30 <= u && u <= 0x39,
            CharClass::Whitespace => {
                (0x09 <= u && u <= 0x0D) || u == 0x20 || u == 0x85 || u == 0xA0 || u == 0x1680 || (
                0x2000 <= u && u <= 0x200A) || u == 0x2028 || u == 0x2029 || u == 0x202F || u
                    == 0x205F || u == 0x3000
            },
        }
    }

    /// Tests that a string consists of characters of the class only. The
    /// empty string passes.
    pub fn matches(self, s: &str) -> (r: bool)
        ensures
            r == all_chars(s@, self.pred()),
    {
        let n = s.unicode_len();
        let mut i: usize = 0;
        while i < n
            invariant
                n == s@.len(),
                i <= n,
                forall|j: int| 0 <= j < i ==> self.contains(#[trigger] s@[j]),
            decreases n - i,
        {
            if !self.has(s.get_char(i)) {
                return false;
            }
            i += 1;
        }
        true
    }
}

/// The lower-case form of a text, as the standard library computes it. It
/// depends on the text alone; its length may differ from the text's.
pub uninterp spec fn lowercase(text: Seq<char>) -> Seq<char>;

/// `str::to_lowercase` of the standard library: the result is the lower-case
/// form of the whole argument.
#[verifier::external_body]
pub(crate) fn lowercase_of(s: &str) -> (lowered: String)
    ensures
        lowered@ == lowercase(s@),
{
    s.to_lowercase()
}

/// The text under which a name is looked up: its lower-case form when names
/// are matched without regard to case, the text itself otherwise.
pub open spec fn normalized(case_insensitive: bool, text: Seq<char>) -> Seq<char> {
    if case_insensitive {
        lowercase(text)
    } else {
        text
    }
}

/// The number of bytes of a string, which is the length of its UTF-8
/// encoding.
pub fn encoded_len(s: &str) -> (bytes: usize)
    ensures
        bytes == utf8_len(s@),
{
    s.as_bytes().len()
}

/// Compares two strings character by character.
pub fn same_text(a: &str, b: &str) -> (r: bool)
    ensures
        r == (a@ == b@),
{
    let x = a.as_bytes();
    let y = b.as_bytes();
    if x.len() != y.len() {
        return false;
    }
    let mut i: usize = 0;
    while i < x.len()
        invariant
            x@ == encode_utf8(a@),
            y@ == encode_utf8(b@),
            x@.len() == y@.len(),
            i <= x@.len(),
            forall|j: int| 0 <= j < i ==> x@[j] == y@[j],
        decreases x@.len() - i,
    {
        if x[i] != y[i] {
            return false;
        }
        i += 1;
    }
    proof {
        assert(x@ =~= y@);
        encode_utf8_decode_utf8(a@);
        encode_utf8_decode_utf8(b@);
    }
    true
}

/// The number of bytes in the UTF-8 encoding of one character.
pub open spec fn char_len(c: char) -> nat {
    encode_scalar(c as u32).len()
}

/// The number of bytes in the UTF-8 encoding of a text.
pub open spec fn utf8_len(s: Seq<char>) -> nat {
    encode_utf8(s).len()
}

/// The number of leading characters of `text` whose encoding is exactly
/// `offset` bytes long, if the offset falls between two characters.
pub open spec fn chars_within(text: Seq<char>, offset: int) -> Option<int>
    decreases text.len(),
{
    if offset == 0 {
        Some(0)
    } else if offset < 0 || text.len() == 0 {
        None
    } else {
        match chars_within(text.drop_first(), offset - char_len(text[0])) {
            Some(k) => Some(k + 1),
            None => None,
        }
    }
}

/// A character takes between one and four bytes.
pub proof fn lemma_char_len(c: char)
    ensures
        1 <= char_len(c) <= 4,
{
}

/// A text of one character is encoded as that character is.
pub proof fn lemma_encode_single(c: char)
    ensures
        encode_utf8(seq![c]) == encode_scalar(c as u32),
        utf8_len(seq![c]) == char_len(c),
{
    let s = seq![c];
    assert(s.drop_first() =~= Seq::<char>::empty());
    assert(encode_utf8(Seq::<char>::empty()) =~= Seq::<u8>::empty());
    assert(encode_utf8(s) =~= encode_scalar(c as u32));
}

/// The encoding of a concatenation is the concatenation of the encodings.
pub proof fn lemma_encode_concat(a: Seq<char>, b: Seq<char>)
    ensures
        encode_utf8(a + b) == encode_utf8(a) + encode_utf8(b),
    decreases a.len(),
{
    if a.len() == 0 {
        assert(a + b =~= b);
        assert(encode_utf8(a) + encode_utf8(b) =~= encode_utf8(b));
    } else {
        assert((a + b).drop_first() =~= a.drop_first() + b);
        lemma_encode_concat(a.drop_first(), b);
        assert(encode_utf8(a + b) =~= encode_utf8(a) + encode_utf8(b));
    }
}

/// Encoded lengths add up over concatenation.
pub proof fn lemma_utf8_len_concat(a: Seq<char>, b: Seq<char>)
    ensures
        utf8_len(a + b) == utf8_len(a) + utf8_len(b),
{
    lemma_encode_concat(a, b);
}

/// A text takes at least one byte per character.
pub proof fn lemma_utf8_len_lower(s: Seq<char>)
    ensures
        s.len() <= utf8_len(s),
    decreases s.len(),
{
    if s.len() > 0 {
        lemma_char_len(s[0]);
        lemma_utf8_len_lower(s.drop_first());
    }
}

/// What `chars_within` finds is a prefix of the text with that encoded
/// length.
pub proof fn lemma_chars_within_sound(text: Seq<char>, offset: int)
    ensures
        chars_within(text, offset) matches Some(k) ==> 0 <= k <= text.len() && utf8_len(
            text.take(k),
        ) == offset,
    decreases text.len(),
{
    if offset == 0 {
        assert(text.take(0) =~= Seq::<char>::empty());
    } else if offset < 0 || text.len() == 0 {
    } else {
        let tail = text.drop_first();
        lemma_chars_within_sound(tail, offset - char_len(text[0]));
        if let Some(k) = chars_within(tail, offset - char_len(text[0])) {
            assert(text.take(k + 1) =~= seq![text[0]] + tail.take(k));
            lemma_utf8_len_concat(seq![text[0]], tail.take(k));
            lemma_encode_single(text[0]);
        }
    }
}

/// Every prefix of the text is found by `chars_within` at its encoded
/// length.
pub proof fn lemma_chars_within_complete(text: Seq<char>, k: int)
    requires
        0 <= k <= text.len(),
    ensures
        chars_within(text, utf8_len(text.take(k)) as int) == Some(k),
    decreases text.len(),
{
    if k == 0 {
        assert(text.take(0) =~= Seq::<char>::empty());
    } else {
        let tail = text.drop_first();
        assert(text.take(k) =~= seq![text[0]] + tail.take(k - 1));
        lemma_utf8_len_concat(seq![text[0]], tail.take(k - 1));
        lemma_encode_single(text[0]);
        lemma_char_len(text[0]);
        lemma_chars_within_complete(tail, k - 1);
    }
}

/// Offsets past a prefix `a` of `a + b` are found by counting within `b`.
pub proof fn lemma_chars_within_shift(a: Seq<char>, b: Seq<char>, n: int)
    requires
        0 <= n,
    ensures
        chars_within(a + b, utf8_len(a) + n) == match chars_within(b, n) {
            Some(k) => Some(a.len() + k),
            None => None,
        },
    decreases a.len(),
{
    if a.len() == 0 {
        assert(a + b =~= b);
        lemma_chars_within_sound(b, n);
    } else {
        let tail = a.drop_first();
        assert((a + b).drop_first() =~= tail + b);
        assert(a =~= seq![a[0]] + tail);
        lemma_utf8_len_concat(seq![a[0]], tail);
        lemma_encode_single(a[0]);
        lemma_char_len(a[0]);
        lemma_chars_within_shift(tail, b, n);
        lemma_chars_within_sound(b, n);
    }
}

/// `chars_within` decides whether an offset is a character boundary of the
/// encoded text.
pub proof fn lemma_boundary(text: Seq<char>, offset: int)
    ensures
        is_char_boundary(encode_utf8(text), offset) <==> chars_within(text, offset) is Some,
    decreases text.len(),
{
    let bytes = encode_utf8(text);
    encode_utf8_valid_utf8(text);
    if offset == 0 {
    } else if offset < 0 || text.len() == 0 {
    } else {
        let tail = text.drop_first();
        encode_utf8_first_scalar(text);
        assert(pop_first_scalar(bytes) =~= encode_utf8(tail));
        lemma_boundary(tail, offset - char_len(text[0]));
        lemma_chars_within_sound(text, offset);
        if bytes.len() < offset {
            if let Some(k) = chars_within(text, offset) {
                assert(text =~= text.take(k) + text.skip(k));
                lemma_utf8_len_concat(text.take(k), text.skip(k));
            }
        }
    }
}

/// Two prefixes of one text with the same encoded length are the same
/// prefix.
pub proof fn lemma_same_split(a: Seq<char>, b: Seq<char>, c: Seq<char>, d: Seq<char>)
    requires
        a + b == c + d,
        utf8_len(a) == utf8_len(c),
    ensures
        a == c,
        b == d,
{
    let text = a + b;
    assert(text.take(a.len() as int) =~= a);
    assert((c + d).take(c.len() as int) =~= c);
    lemma_chars_within_complete(text, a.len() as int);
    lemma_chars_within_complete(text, c.len() as int);
    assert(a =~= c);
    assert(text.skip(a.len() as int) =~= b);
    assert((c + d).skip(c.len() as int) =~= d);
}

/// The length that `leading_run` gives is the only one up to which every
/// character satisfies the predicate and at which the next one does not.
pub proof fn lemma_leading_run_unique(s: Seq<char>, pred: spec_fn(char) -> bool, k: int)
    requires
        0 <= k <= s.len(),
        forall|i: int| 0 <= i < k ==> pred(#[trigger] s[i]),
        k < s.len() ==> !pred(s[k]),
    ensures
        leading_run(s, pred) == k,
    decreases s.len(),
{
    if s.len() == 0 || !pred(s[0]) {
    } else {
        let tail = s.drop_first();
        assert forall|i: int| 0 <= i < k - 1 implies pred(#[trigger] tail[i]) by {
            assert(tail[i] == s[i + 1]);
        }
        lemma_leading_run_unique(tail, pred, k - 1);
    }
}

/// `leading_run` stays within the text, covers only characters that satisfy
/// the predicate and stops at one that does not.
pub proof fn lemma_leading_run(s: Seq<char>, pred: spec_fn(char) -> bool)
    ensures
        leading_run(s, pred) <= s.len(),
        forall|i: int| 0 <= i < leading_run(s, pred) ==> pred(#[trigger] s[i]),
        leading_run(s, pred) < s.len() ==> !pred(s[leading_run(s, pred) as int]),
    decreases s.len(),
{
    if s.len() == 0 || !pred(s[0]) {
    } else {
        let tail = s.drop_first();
        lemma_leading_run(tail, pred);
        assert forall|i: int| 0 <= i < leading_run(s, pred) implies pred(#[trigger] s[i]) by {
            if i > 0 {
                assert(s[i] == tail[i - 1]);
            }
        }
    }
}

} // verus!
