//! The list of ISEQs that may be compiled: the set type that holds it and the
//! reader for the text of a JIT list file.

use crate::substring::{cut, lemma_encode_one, lemma_utf8_len_subrange, utf8_len, width_between};
use crate::text::{chars_of, same_text, trim_bounds, trimmed};
use vstd::prelude::*;
use vstd::slice::slice_subrange;
use vstd::string::{StringExecFns, StringSliceAdditionalSpecFns};

verus! {

/// A finite set of ISEQ names.
#[derive(Debug)]
pub struct IseqSet {
    names: Vec<String>,
}

impl View for IseqSet {
    type V = Set<Seq<char>>;

    open spec fn view(&self) -> Set<Seq<char>> {
        self.listing().to_set()
    }
}

impl IseqSet {
    /// The names of the set, each once, in the order in which they came in.
    pub closed spec fn listing(&self) -> Seq<Seq<char>> {
        self.names@.map_values(|name: String| name@)
    }

    #[verifier::type_invariant]
    spec fn each_name_once(&self) -> bool {
        self.listing().no_duplicates()
    }

    /// The empty set.
    pub fn new() -> (set: Self)
        ensures
            set@ == Set::<Seq<char>>::empty(),
            set.listing() == Seq::<Seq<char>>::empty(),
    {
        let set = IseqSet { names: Vec::new() };
        assert(set.listing() == Seq::<Seq<char>>::empty());
        set
    }

    /// Whether `name` is in the set.
    pub fn contains(&self, name: &str) -> (found: bool)
        ensures
            found == self@.contains(name@),
    {
        let mut i: usize = 0;
        while i < self.names.len()
            invariant
                i <= self.names@.len(),
                forall|k: int| 0 <= k < i ==> #[trigger] self.listing()[k] != name@,
            decreases self.names@.len() - i,
        {
            if same_text(self.names[i].as_str(), name) {
                assert(self.listing()[i as int] == name@);
                return true;
            }
            i += 1;
        }
        false
    }

    /// Adds `name` to the set. Returns whether it was new.
    pub fn insert(&mut self, name: String) -> (added: bool)
        ensures
            final(self)@ == old(self)@.insert(name@),
            added == !old(self)@.contains(name@),
            final(self).listing() == if added {
                old(self).listing().push(name@)
            } else {
                old(self).listing()
            },
    {
        proof {
            use_type_invariant(&*self);
        }
        if self.contains(name.as_str()) {
            assert(self@.insert(name@) == self@);
            return false;
        }
        let ghost before = self.listing();
        let mut names = Vec::new();
        std::mem::swap(&mut names, &mut self.names);
        names.push(name);
        assert(names@.map_values(|name: String| name@) == before.push(name@));
        proof {
            before.lemma_push_to_set_commute(name@);
        }
        self.names = names;
        true
    }

    /// The number of names in the set.
    pub fn len(&self) -> (count: usize)
        ensures
            count == self@.len(),
            count == self.listing().len(),
    {
        proof {
            use_type_invariant(self);
            self.listing().unique_seq_to_set();
        }
        self.names.len()
    }

    /// Whether the set holds no name.
    pub fn is_empty(&self) -> (empty: bool)
        ensures
            empty == (self@ == Set::<Seq<char>>::empty()),
    {
        proof {
            if self.listing().len() > 0 {
                assert(self@.contains(self.listing()[0]));
            } else {
                assert(self@ =~= Set::<Seq<char>>::empty());
            }
        }
        self.names.len() == 0
    }

    /// The names of the set, each once.
    pub fn names(&self) -> (names: &Vec<String>)
        ensures
            names@.map_values(|name: String| name@) == self.listing(),
            self.listing().no_duplicates(),
    {
        proof {
            use_type_invariant(self);
        }
        &self.names
    }
}

impl Clone for IseqSet {
    fn clone(&self) -> (copy: Self)
        ensures
            copy@ == self@,
            copy.listing() == self.listing(),
    {
        proof {
            use_type_invariant(self);
        }
        let names = self.names.clone();
        assert(names@ == self.names@);
        IseqSet { names }
    }
}

/// Whether the characters of `text` from `start` up to `end` are one of its
/// lines: a longest stretch without a line feed.
pub open spec fn is_line(text: Seq<char>, start: int, end: int) -> bool {
    &&& 0 <= start <= end <= text.len()
    &&& start == 0 || text[start - 1] == '\n'
    &&& end == text.len() || text[end] == '\n'
    &&& forall|k: int| start <= k < end ==> text[k] != '\n'
}

/// The names that the text of a JIT list file holds: its lines without the
/// white space around them, blank lines left out.
pub open spec fn listed_names(text: Seq<char>) -> Set<Seq<char>> {
    Set::new(
        |name: Seq<char>|
            name.len() > 0 && exists|start: int, end: int|
                #[trigger] is_line(text, start, end) && trimmed(text.subrange(start, end)) == name,
    )
}

/// The names on the lines of `text` that begin before `bound`.
spec fn names_before(text: Seq<char>, bound: int) -> Set<Seq<char>> {
    Set::new(
        |name: Seq<char>|
            name.len() > 0 && exists|start: int, end: int|
                #[trigger] is_line(text, start, end) && start < bound && trimmed(
                    text.subrange(start, end),
                ) == name,
    )
}

/// No line begins inside another one.
proof fn lemma_one_line(text: Seq<char>, start: int, end: int, other_start: int, other_end: int)
    requires
        is_line(text, start, end),
        is_line(text, other_start, other_end),
        start <= other_start <= end,
    ensures
        other_start == start,
        other_end == end,
{
    if other_start > start {
        assert(text[other_start - 1] != '\n');
    }
    if other_end < end {
        assert(text[other_end] != '\n');
    }
    if other_end > end {
        assert(text[end] != '\n');
    }
}

/// Going past one line adds the name on it, if it holds one.
proof fn lemma_next_line(text: Seq<char>, start: int, end: int)
    requires
        is_line(text, start, end),
    ensures
        names_before(text, end + 1) == if trimmed(text.subrange(start, end)).len() > 0 {
            names_before(text, start).insert(trimmed(text.subrange(start, end)))
        } else {
            names_before(text, start)
        },
{
    let here = trimmed(text.subrange(start, end));
    let before = names_before(text, start);
    let after = names_before(text, end + 1);
    let expected = if here.len() > 0 {
        before.insert(here)
    } else {
        before
    };
    assert forall|name: Seq<char>| after.contains(name) implies expected.contains(name) by {
        let (s, e) = choose|s: int, e: int|
            #[trigger] is_line(text, s, e) && s < end + 1 && trimmed(text.subrange(s, e)) == name;
        if s >= start {
            lemma_one_line(text, start, end, s, e);
        }
    }
    assert forall|name: Seq<char>| expected.contains(name) implies after.contains(name) by {
        if before.contains(name) {
            let (s, e) = choose|s: int, e: int|
                #[trigger] is_line(text, s, e) && s < start && trimmed(text.subrange(s, e)) == name;
            assert(is_line(text, s, e) && s < end + 1);
        } else {
            assert(is_line(text, start, end) && start < end + 1);
        }
    }
    assert(after =~= expected);
}

/// Every line begins at or before the end of the text.
proof fn lemma_all_lines(text: Seq<char>)
    ensures
        names_before(text, text.len() as int + 1) == listed_names(text),
{
    assert(names_before(text, text.len() as int + 1) =~= listed_names(text));
}

/// Reads the text of a JIT list file: one name per line, white space around a
/// name and blank lines ignored.
pub fn parse_jit_list(text: &str) -> (list: IseqSet)
    ensures
        list@ == listed_names(text@),
{
    let chars = chars_of(text);
    let n = chars.len();
    // The text has as many bytes as a `usize` counts, so no offset below overflows.
    let byte_len = text.as_bytes().len();
    let mut list = IseqSet::new();
    // Where the line at hand begins, as a character position and as the byte
    // offset of that position.
    let mut start: usize = 0;
    let mut start_byte: usize = 0;
    proof {
        assert(names_before(text@, 0) =~= Set::<Seq<char>>::empty());
        assert(text@.take(0) == Seq::<char>::empty());
    }
    loop
        invariant_except_break
            list@ == names_before(text@, start as int),
            start == 0 || chars@[start - 1] == '\n',
        invariant
            chars@ == text@,
            start <= n == chars@.len(),
            byte_len == utf8_len(text@),
            start_byte == utf8_len(text@.take(start as int)),
        ensures
            list@ == listed_names(text@),
        decreases n - start,
    {
        let mut end: usize = start;
        while end < n && chars[end] != '\n'
            invariant
                start <= end <= n == chars@.len(),
                forall|k: int| start <= k < end ==> chars@[k] != '\n',
            decreases n - end,
        {
            end += 1;
        }
        proof {
            assert(is_line(text@, start as int, end as int));
            lemma_next_line(text@, start as int, end as int);
        }
        let line = slice_subrange(chars.as_slice(), start, end);
        let (from, to) = trim_bounds(line);
        if from < to {
            proof {
                lemma_utf8_len_subrange(text@, start as int, start + from);
                lemma_utf8_len_subrange(text@, start + from, start + to);
            }
            let from_byte = start_byte + width_between(chars.as_slice(), start, start + from);
            let to_byte = from_byte + width_between(chars.as_slice(), start + from, start + to);
            let name = cut(text, Ghost(start + from), Ghost(start + to), from_byte, to_byte);
            proof {
                assert(name@ == line@.subrange(from as int, to as int));
            }
            list.insert(String::from_str(name));
        }
        if end == n {
            proof {
                lemma_all_lines(text@);
            }
            break;
        }
        proof {
            lemma_utf8_len_subrange(text@, start as int, end as int);
            lemma_utf8_len_subrange(text@, end as int, end + 1);
            assert(text@.subrange(end as int, end + 1) == seq!['\n']);
            lemma_encode_one('\n');
        }
        start_byte = start_byte + width_between(chars.as_slice(), start, end) + 1;
        start = end + 1;
    }
    list
}

} // verus!
