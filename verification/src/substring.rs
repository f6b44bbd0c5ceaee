//! Cutting a piece out of a string between two character positions, in time
//! that does not depend on where in the string the piece lies.
//!
//! A string is stored as UTF-8, so a character position has to be turned into
//! a byte offset first. The callers walk the characters anyway and keep the
//! byte offset of where they are; [`cut`] then splits at two such offsets.

use vstd::prelude::*;
use vstd::string::StringSliceAdditionalSpecFns;
use vstd::utf8::{
    encode_scalar, encode_utf8, encode_utf8_decode_utf8, encode_utf8_first_scalar,
    encode_utf8_valid_utf8, is_char_boundary, pop_first_scalar,
};

verus! {

/// The number of bytes that the characters `s` take in UTF-8.
pub open spec fn utf8_len(s: Seq<char>) -> nat {
    encode_utf8(s).len()
}

/// The encoding of two pieces is the encoding of the first followed by that
/// of the second.
proof fn lemma_encode_concat(a: Seq<char>, b: Seq<char>)
    ensures
        encode_utf8(a + b) == encode_utf8(a) + encode_utf8(b),
    decreases a.len(),
{
    if a.len() == 0 {
        assert(a + b == b);
    } else {
        assert((a + b).drop_first() == a.drop_first() + b);
        lemma_encode_concat(a.drop_first(), b);
    }
}

/// One character is encoded as its scalar value.
pub(crate) proof fn lemma_encode_one(c: char)
    ensures
        encode_utf8(seq![c]) == encode_scalar(c as u32),
{
    assert(seq![c].drop_first() == Seq::<char>::empty());
    assert(encode_utf8(seq![c].drop_first()) == Seq::<u8>::empty());
}

/// No piece of a string takes more bytes than the string.
pub(crate) proof fn lemma_utf8_len_subrange(s: Seq<char>, from: int, to: int)
    requires
        0 <= from <= to <= s.len(),
    ensures
        utf8_len(s.subrange(from, to)) <= utf8_len(s),
        utf8_len(s.take(to)) == utf8_len(s.take(from)) + utf8_len(s.subrange(from, to)),
        utf8_len(s.take(to)) <= utf8_len(s),
{
    assert(s == s.take(to) + s.skip(to));
    lemma_encode_concat(s.take(to), s.skip(to));
    assert(s.take(to) == s.take(from) + s.subrange(from, to));
    lemma_encode_concat(s.take(from), s.subrange(from, to));
}

/// Where the encoding of the first of two pieces ends, a character begins
/// or the whole encoding ends.
proof fn lemma_boundary_between(a: Seq<char>, b: Seq<char>)
    ensures
        is_char_boundary(encode_utf8(a + b), encode_utf8(a).len() as int),
    decreases a.len(),
{
    broadcast use encode_utf8_valid_utf8;

    let whole = a + b;
    let bytes = encode_utf8(whole);
    if a.len() > 0 {
        encode_utf8_first_scalar(whole);
        assert(whole.drop_first() == a.drop_first() + b);
        assert(pop_first_scalar(bytes) =~= encode_utf8(whole.drop_first()));
        lemma_boundary_between(a.drop_first(), b);
        lemma_encode_concat(a, b);
    }
}

/// The number of bytes that `c` takes in UTF-8.
pub fn utf8_width(c: char) -> (width: usize)
    ensures
        width == encode_scalar(c as u32).len(),
        1 <= width <= 4,
{
    let code: u32 = c as u32;
    if code < 0x80 {
        1
    } else if code < 0x800 {
        2
    } else if code < 0x10000 {
        3
    } else {
        4
    }
}

/// The number of bytes that the characters of `chars` from `from` up to `to`
/// take in UTF-8.
pub(crate) fn width_between(chars: &[char], from: usize, to: usize) -> (width: usize)
    requires
        from <= to <= chars@.len(),
        utf8_len(chars@) <= usize::MAX,
    ensures
        width == utf8_len(chars@.subrange(from as int, to as int)),
{
    let mut width: usize = 0;
    let mut i: usize = from;
    while i < to
        invariant
            from <= i <= to <= chars@.len(),
            utf8_len(chars@) <= usize::MAX,
            width == utf8_len(chars@.subrange(from as int, i as int)),
        decreases to - i,
    {
        proof {
            let done = chars@.subrange(from as int, i as int);
            assert(chars@.subrange(from as int, i + 1) == done + seq![chars@[i as int]]);
            lemma_encode_concat(done, seq![chars@[i as int]]);
            lemma_encode_one(chars@[i as int]);
            lemma_utf8_len_subrange(chars@, from as int, i + 1);
        }
        width += utf8_width(chars[i]);
        i += 1;
    }
    width
}

/// The characters of `text` from position `from` up to position `to`, given
/// the byte offsets of the two positions.
pub(crate) fn cut<'a>(
    text: &'a str,
    Ghost(from): Ghost<int>,
    Ghost(to): Ghost<int>,
    byte_from: usize,
    byte_to: usize,
) -> (part: &'a str)
    requires
        0 <= from <= to <= text@.len(),
        byte_from == utf8_len(text@.take(from)),
        byte_to == utf8_len(text@.take(to)),
    ensures
        part@ == text@.subrange(from, to),
{
    let ghost kept = text@.take(to);
    proof {
        assert(text@ == kept + text@.skip(to));
        lemma_boundary_between(kept, text@.skip(to));
        lemma_encode_concat(kept, text@.skip(to));
    }
    let (head, _) = text.split_at(byte_to);
    let ghost before = kept.take(from);
    let ghost wanted = kept.skip(from);
    proof {
        assert(encode_utf8(head@) =~= encode_utf8(kept));
        encode_utf8_decode_utf8(head@);
        encode_utf8_decode_utf8(kept);
        assert(head@ == kept);
        assert(before == text@.take(from));
        assert(wanted == text@.subrange(from, to));
        assert(kept == before + wanted);
        lemma_boundary_between(before, wanted);
        lemma_encode_concat(before, wanted);
    }
    let (_, part) = head.split_at(byte_from);
    proof {
        assert(encode_utf8(part@) =~= encode_utf8(wanted));
        encode_utf8_decode_utf8(part@);
        encode_utf8_decode_utf8(wanted);
    }
    part
}

} // verus!
