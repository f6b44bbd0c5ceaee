//! Character-level helpers shared by the parsers: strings as character
//! sequences, white space, trimming, and comparison with a literal.

use vstd::prelude::*;
use vstd::string::StringSliceAdditionalSpecFns;
use vstd::utf8::encode_utf8_decode_utf8;

verus! {

/// Whether `c` has the Unicode `White_Space` property.
pub open spec fn is_white_space(c: char) -> bool {
    let u = c as u32;
    ||| 0x09 <= u <= 0x0D
    ||| u == 0x20
    ||| u == 0x85
    ||| u == 0xA0
    ||| u == 0x1680
    ||| 0x2000 <= u <= 0x200A
    ||| u == 0x2028
    ||| u == 0x2029
    ||| u == 0x202F
    ||| u == 0x205F
    ||| u == 0x3000
}

/// The number of white-space characters at the front of `s`.
pub open spec fn leading_space(s: Seq<char>) -> nat
    decreases s.len(),
{
    if s.len() > 0 && is_white_space(s.first()) {
        1 + leading_space(s.drop_first())
    } else {
        0
    }
}

/// The number of white-space characters at the back of `s`.
pub open spec fn trailing_space(s: Seq<char>) -> nat
    decreases s.len(),
{
    if s.len() > 0 && is_white_space(s.last()) {
        1 + trailing_space(s.drop_last())
    } else {
        0
    }
}

/// `s` without its leading and trailing white space.
pub open spec fn trimmed(s: Seq<char>) -> Seq<char> {
    if leading_space(s) == s.len() {
        Seq::empty()
    } else {
        s.subrange(leading_space(s) as int, s.len() - trailing_space(s))
    }
}

/// The leading white space of `s` is its first `k` characters when those are
/// white space and the next one, if any, is not.
proof fn lemma_leading_space(s: Seq<char>, k: int)
    requires
        0 <= k <= s.len(),
        forall|i: int| 0 <= i < k ==> is_white_space(#[trigger] s[i]),
        k < s.len() ==> !is_white_space(s[k]),
    ensures
        leading_space(s) == k,
    decreases k,
{
    if k > 0 {
        let rest = s.drop_first();
        assert forall|i: int| 0 <= i < k - 1 implies is_white_space(#[trigger] rest[i]) by {
            assert(rest[i] == s[i + 1]);
        }
        lemma_leading_space(rest, k - 1);
    }
}

/// The trailing white space of `s` is its last `k` characters when those are
/// white space and the one before them, if any, is not.
proof fn lemma_trailing_space(s: Seq<char>, k: int)
    requires
        0 <= k <= s.len(),
        forall|i: int| s.len() - k <= i < s.len() ==> is_white_space(#[trigger] s[i]),
        k < s.len() ==> !is_white_space(s[s.len() - k - 1]),
    ensures
        trailing_space(s) == k,
    decreases k,
{
    if k > 0 {
        let rest = s.drop_last();
        assert forall|i: int| rest.len() - (k - 1) <= i < rest.len() implies is_white_space(
            #[trigger] rest[i],
        ) by {
            assert(rest[i] == s[i]);
        }
        lemma_trailing_space(rest, k - 1);
    }
}

/// What [`leading_space`] counts: the white space before the first character
/// that is none.
pub proof fn lemma_leading_space_counts(s: Seq<char>)
    ensures
        leading_space(s) <= s.len(),
        forall|i: int| 0 <= i < leading_space(s) ==> is_white_space(#[trigger] s[i]),
        leading_space(s) < s.len() ==> !is_white_space(s[leading_space(s) as int]),
    decreases s.len(),
{
    if s.len() > 0 && is_white_space(s.first()) {
        let rest = s.drop_first();
        lemma_leading_space_counts(rest);
        assert forall|i: int| 0 <= i < leading_space(s) implies is_white_space(#[trigger] s[i]) by {
            if i > 0 {
                assert(s[i] == rest[i - 1]);
            }
        }
        if leading_space(s) < s.len() {
            assert(s[leading_space(s) as int] == rest[leading_space(rest) as int]);
        }
    }
}

/// What [`trailing_space`] counts: the white space after the last character
/// that is none.
pub proof fn lemma_trailing_space_counts(s: Seq<char>)
    ensures
        trailing_space(s) <= s.len(),
        forall|i: int| s.len() - trailing_space(s) <= i < s.len() ==> is_white_space(#[trigger] s[i]),
        trailing_space(s) < s.len() ==> !is_white_space(s[s.len() - trailing_space(s) - 1]),
    decreases s.len(),
{
    if s.len() > 0 && is_white_space(s.last()) {
        let rest = s.drop_last();
        lemma_trailing_space_counts(rest);
        assert forall|i: int| s.len() - trailing_space(s) <= i < s.len() implies is_white_space(
            #[trigger] s[i],
        ) by {
            if i < s.len() - 1 {
                assert(s[i] == rest[i]);
            }
        }
        if trailing_space(s) < s.len() {
            assert(s[s.len() - trailing_space(s) - 1] == rest[rest.len() - trailing_space(rest) - 1]);
        }
    }
}

/// Trimming takes white space away, all of it at both ends and nothing else:
/// what is left is empty exactly when `s` is white space throughout, it
/// neither begins nor ends with white space, and trimming it again changes
/// nothing.
pub proof fn lemma_trimmed(s: Seq<char>)
    ensures
        trimmed(s).len() == 0 <==> forall|i: int| 0 <= i < s.len() ==> is_white_space(#[trigger] s[i]),
        trimmed(s).len() > 0 ==> !is_white_space(trimmed(s).first()) && !is_white_space(
            trimmed(s).last(),
        ),
        trimmed(s).len() > 0 ==> s == s.take(leading_space(s) as int) + trimmed(s) + s.skip(
            s.len() - trailing_space(s),
        ),
        trimmed(trimmed(s)) == trimmed(s),
{
    lemma_leading_space_counts(s);
    lemma_trailing_space_counts(s);
    let from = leading_space(s) as int;
    let to = s.len() - trailing_space(s);
    if from < s.len() {
        // The first character that is no white space stands before the
        // trailing white space.
        assert(from < to) by {
            if to <= from {
                assert(is_white_space(s[from]));
            }
        }
        let t = trimmed(s);
        assert(t.first() == s[from]);
        assert(t.last() == s[to - 1]);
        assert(s =~= s.take(from) + t + s.skip(to));
        assert(leading_space(t) == 0);
        assert(trailing_space(t) == 0);
        assert(t.subrange(0, t.len() as int) == t);
    } else {
        assert(leading_space(Seq::<char>::empty()) == 0);
    }
}

/// The characters of `s`, in order.
pub fn chars_of(s: &str) -> (v: Vec<char>)
    ensures
        v@ == s@,
{
    let mut v: Vec<char> = Vec::new();
    for c in it: s.chars()
        invariant
            it.seq() == s@,
            v@ == s@.take(it.index()),
    {
        v.push(c);
    }
    v
}

/// Whether `c` is white space.
pub fn is_whitespace(c: char) -> (b: bool)
    ensures
        b == is_white_space(c),
{
    let u: u32 = c as u32;
    (0x09 <= u && u <= 0x0D) || u == 0x20 || u == 0x85 || u == 0xA0 || u == 0x1680 || (0x2000 <= u
        && u <= 0x200A) || u == 0x2028 || u == 0x2029 || u == 0x202F || u == 0x205F || u == 0x3000
}

/// Where the trimmed part of `chars` begins and ends. Where nothing is left
/// of `chars`, both are 0.
pub fn trim_bounds(chars: &[char]) -> (bounds: (usize, usize))
    ensures
        bounds.0 <= bounds.1 <= chars@.len(),
        chars@.subrange(bounds.0 as int, bounds.1 as int) == trimmed(chars@),
        trimmed(chars@).len() == 0 ==> bounds == (0usize, 0usize),
        trimmed(chars@).len() > 0 ==> bounds.0 == leading_space(chars@) && bounds.1
            == chars@.len() - trailing_space(chars@),
{
    let n = chars.len();
    let mut from: usize = 0;
    while from < n && is_whitespace(chars[from])
        invariant
            from <= n == chars@.len(),
            forall|i: int| 0 <= i < from ==> is_white_space(#[trigger] chars@[i]),
        decreases n - from,
    {
        from += 1;
    }
    proof {
        lemma_leading_space(chars@, from as int);
    }
    if from == n {
        return (0, 0);
    }
    let mut to: usize = n;
    while is_whitespace(chars[to - 1])
        invariant
            from < to <= n == chars@.len(),
            !is_white_space(chars@[from as int]),
            forall|i: int| to <= i < n ==> is_white_space(#[trigger] chars@[i]),
        decreases to,
    {
        to -= 1;
    }
    proof {
        lemma_trailing_space(chars@, n - to);
    }
    (from, to)
}

/// Whether `a` and `b` hold the same characters.
pub fn same_text(a: &str, b: &str) -> (same: bool)
    ensures
        same == (a@ == b@),
{
    // Two strings are equal exactly when their UTF-8 encodings are.
    let x = a.as_bytes();
    let y = b.as_bytes();
    proof {
        encode_utf8_decode_utf8(a@);
        encode_utf8_decode_utf8(b@);
    }
    if x.len() != y.len() {
        return false;
    }
    let mut i: usize = 0;
    while i < x.len()
        invariant
            i <= x@.len() == y@.len(),
            x@ == a.spec_bytes(),
            y@ == b.spec_bytes(),
            forall|k: int| 0 <= k < i ==> x@[k] == y@[k],
        decreases x@.len() - i,
    {
        if x[i] != y[i] {
            return false;
        }
        i += 1;
    }
    assert(x@ =~= y@);
    true
}

/// Whether `chars` spells exactly the string `word`.
pub fn spells(chars: &[char], word: &str) -> (b: bool)
    ensures
        b == (chars@ == word@),
{
    let n = chars.len();
    let mut i: usize = 0;
    for c in it: word.chars()
        invariant
            it.seq() == word@,
            i == it.index(),
            i <= n == chars@.len(),
            chars@.take(i as int) == word@.take(i as int),
    {
        if i >= n || chars[i] != c {
            proof {
                if chars@ == word@ {
                    assert(chars@[i as int] == word@[i as int]);
                }
            }
            return false;
        }
        proof {
            assert(chars@.take(i + 1) == chars@.take(i as int).push(chars@[i as int]));
            assert(word@.take(i + 1) == word@.take(i as int).push(word@[i as int]));
        }
        i += 1;
    }
    proof {
        if i == n {
            assert(chars@.take(i as int) == chars@);
            assert(word@.take(i as int) == word@);
        }
    }
    i == n
}

} // verus!
