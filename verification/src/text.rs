//! Character-level helpers shared by the classifier, the tailer and the
//! input editors.

use vstd::prelude::*;

verus! {

/// ASCII lower-casing of one character: `A`..`Z` map to `a`..`z`, every
/// other character is left alone.
pub open spec fn ascii_lower(c: char) -> char {
    if 'A' <= c && c <= 'Z' {
        ((c as u8 + 32) as u8) as char
    } else {
        c
    }
}

/// A text with every character ASCII lower-cased.
pub open spec fn folded(s: Seq<char>) -> Seq<char> {
    s.map_values(|c: char| ascii_lower(c))
}

/// `needle` occurs in `s` starting at position `at`.
pub open spec fn occurs_at(s: Seq<char>, needle: Seq<char>, at: int) -> bool {
    &&& 0 <= at
    &&& at + needle.len() <= s.len()
    &&& s.subrange(at, at + needle.len()) == needle
}

/// `needle` occurs somewhere in `s`.
pub open spec fn has_substring(s: Seq<char>, needle: Seq<char>) -> bool {
    exists|at: int| occurs_at(s, needle, at)
}

/// The last character of a text, if it has one.
pub open spec fn last_of(s: Seq<char>) -> Option<char> {
    if s.len() == 0 {
        None
    } else {
        Some(s.last())
    }
}

/// The first character of a text, if it has one.
pub open spec fn first_of(s: Seq<char>) -> Option<char> {
    if s.len() == 0 {
        None
    } else {
        Some(s.first())
    }
}

/// Calls `String::push`, which appends one character.
#[verifier::external_body]
pub(crate) fn string_push(s: &mut String, c: char)
    ensures
        final(s)@ == old(s)@.push(c),
{
    s.push(c)
}

/// Calls `String::pop`, which removes the last character and returns it,
/// or returns `None` and changes nothing when the string is empty.
#[verifier::external_body]
pub(crate) fn string_pop(s: &mut String) -> (c: Option<char>)
    ensures
        c == last_of(old(s)@),
        final(s)@ == (if old(s)@.len() == 0 {
            old(s)@
        } else {
            old(s)@.drop_last()
        }),
{
    s.pop()
}

/// Lower-cases one character the ASCII way.
pub fn lower_char(c: char) -> (r: char)
    ensures
        r == ascii_lower(c),
{
    if c >= 'A' && c <= 'Z' {
        ((c as u8) + 32u8) as char
    } else {
        c
    }
}

/// The characters of `s`, in order.
pub fn chars_of(s: &str) -> (v: Vec<char>)
    ensures
        v@ == s@,
{
    let mut v: Vec<char> = Vec::new();
    for c in it: s.chars()
        invariant
            it.seq() == s@,
            v@ == it.seq().take(it.index()),
    {
        v.push(c);
    }
    v
}

/// The characters of `s`, each ASCII lower-cased.
pub fn folded_chars_of(s: &str) -> (v: Vec<char>)
    ensures
        v@ == folded(s@),
{
    let mut v: Vec<char> = Vec::new();
    for c in it: s.chars()
        invariant
            it.seq() == s@,
            v@ == folded(it.seq().take(it.index())),
    {
        let ghost before = it.seq().take(it.index());
        v.push(lower_char(c));
        assert(it.seq().take(it.index() + 1) == before.push(c));
        assert(folded(before.push(c)) == folded(before).push(ascii_lower(c)));
    }
    assert(s@.take(s@.len() as int) == s@);
    v
}

/// The first and the last character of `s`; both `None` when it is empty.
pub fn ends_of(s: &str) -> (r: (Option<char>, Option<char>))
    ensures
        r.0 == first_of(s@),
        r.1 == last_of(s@),
{
    let mut first: Option<char> = None;
    let mut last: Option<char> = None;
    for c in it: s.chars()
        invariant
            it.seq() == s@,
            first == first_of(it.seq().take(it.index())),
            last == last_of(it.seq().take(it.index())),
    {
        if first.is_none() {
            first = Some(c);
        }
        last = Some(c);
    }
    assert(s@.take(s@.len() as int) == s@);
    (first, last)
}

/// Whether `needle` stands in `hay` at position `at`.
pub fn occurs_at_index(hay: &Vec<char>, needle: &Vec<char>, at: usize) -> (b: bool)
    requires
        at + needle@.len() <= hay@.len(),
    ensures
        b == occurs_at(hay@, needle@, at as int),
{
    let hay_len: usize = hay.len();
    let mut j: usize = 0;
    while j < needle.len()
        invariant
            j <= needle@.len(),
            at + needle@.len() <= hay@.len(),
            hay@.len() == hay_len,
            forall|k: int| 0 <= k < j ==> hay@[at + k] == needle@[k],
        decreases needle@.len() - j,
    {
        if hay[at + j] != needle[j] {
            assert(hay@.subrange(at as int, at + needle@.len())[j as int] == hay@[at + j]);
            return false;
        }
        j += 1;
    }
    assert(hay@.subrange(at as int, at + needle@.len()) =~= needle@);
    true
}

/// Whether `needle` stands anywhere in `hay`.
pub fn contains_chars(hay: &Vec<char>, needle: &Vec<char>) -> (b: bool)
    ensures
        b == has_substring(hay@, needle@),
{
    if needle.len() > hay.len() {
        return false;
    }
    let stop: usize = hay.len() - needle.len();
    let mut i: usize = 0;
    loop
        invariant
            stop + needle@.len() == hay@.len(),
            i <= stop,
            forall|a: int| 0 <= a < i ==> !occurs_at(hay@, needle@, a),
        decreases stop - i,
    {
        if occurs_at_index(hay, needle, i) {
            return true;
        }
        if i == stop {
            return false;
        }
        i += 1;
    }
}

/// Whether the text, ASCII lower-cased, contains `needle`.  This is the
/// case-insensitive substring test of the classifier when `needle` is itself
/// in lower case.
pub fn contains_ignore_ascii_case(line: &str, needle: &Vec<char>) -> (b: bool)
    ensures
        b == has_substring(folded(line@), needle@),
{
    let hay = folded_chars_of(line);
    contains_chars(&hay, needle)
}

} // verus!
