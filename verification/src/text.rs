//! Case-insensitive matching of entry names against a pattern.
//!
//! A pattern is plain text. It selects a name when the pattern, lower-cased,
//! occurs somewhere in the lower-cased name. Only the ASCII letters have a
//! lower-case form here; every other character stands for itself.

use vstd::prelude::*;

verus! {

/// The lower-case form of an ASCII letter; every other character is itself.
pub open spec fn lower(c: char) -> char {
    if 'A' <= c && c <= 'Z' {
        ((c as u32) + 32) as char
    } else {
        c
    }
}

/// A text with each character in its lower-case form.
pub open spec fn lowered(s: Seq<char>) -> Seq<char> {
    Seq::new(s.len(), |i: int| lower(s[i]))
}

/// `needle` stands in `hay` at position `at`.
pub open spec fn occurs_at(needle: Seq<char>, hay: Seq<char>, at: int) -> bool {
    &&& 0 <= at
    &&& at + needle.len() <= hay.len()
    &&& hay.subrange(at, at + needle.len()) == needle
}

/// `needle` stands somewhere in `hay`. The empty text stands in every text.
pub open spec fn occurs_in(needle: Seq<char>, hay: Seq<char>) -> bool {
    exists|at: int| occurs_at(needle, hay, at)
}

/// The pattern selects the name: case aside, the name contains the pattern.
pub open spec fn name_matches(name: Seq<char>, pattern: Seq<char>) -> bool {
    occurs_in(lowered(pattern), lowered(name))
}

/// The empty pattern selects every name.
pub proof fn law_empty_pattern_selects_every_name(name: Seq<char>)
    ensures
        name_matches(name, Seq::empty()),
{
    let nothing = lowered(Seq::<char>::empty());
    assert(lowered(name).subrange(0, 0) =~= nothing);
    assert(occurs_at(nothing, lowered(name), 0));
}

/// A name that contains the pattern as it is written is selected.
pub proof fn law_contained_pattern_selects(name: Seq<char>, pattern: Seq<char>)
    requires
        occurs_in(pattern, name),
    ensures
        name_matches(name, pattern),
{
    let at = choose|at: int| occurs_at(pattern, name, at);
    assert forall|i: int| 0 <= i < pattern.len() implies lowered(name)[at + i] == lowered(
        pattern,
    )[i] by {
        assert(name.subrange(at, at + pattern.len())[i] == pattern[i]);
    }
    assert(lowered(name).subrange(at, at + pattern.len()) =~= lowered(pattern));
    assert(occurs_at(lowered(pattern), lowered(name), at));
}

/// The case of the letters makes no difference, in the name or in the
/// pattern: lower-casing either one selects the same.
pub proof fn law_case_makes_no_difference(name: Seq<char>, pattern: Seq<char>)
    ensures
        name_matches(lowered(name), pattern) == name_matches(name, pattern),
        name_matches(name, lowered(pattern)) == name_matches(name, pattern),
{
    assert(lowered(lowered(name)) =~= lowered(name));
    assert(lowered(lowered(pattern)) =~= lowered(pattern));
}

/// Lower-cases one character, touching ASCII letters only.
pub fn to_lower(c: char) -> (r: char)
    ensures
        r == lower(c),
{
    if 'A' <= c && c <= 'Z' {
        ((c as u8) + 32u8) as char
    } else {
        c
    }
}

/// The characters of a text, one by one.
pub fn chars_of(s: &str) -> (v: Vec<char>)
    ensures
        v@ == s@,
{
    let mut v: Vec<char> = Vec::new();
    for c in it: s.chars()
        invariant
            it.seq() == s@,
            v@ == s@.take(it.index() as int),
    {
        v.push(c);
    }
    v
}

/// The characters of a text, each in its lower-case form.
pub fn lowered_chars(s: &str) -> (v: Vec<char>)
    ensures
        v@ == lowered(s@),
{
    let mut v: Vec<char> = Vec::new();
    for c in it: s.chars()
        invariant
            it.seq() == s@,
            v@ == lowered(s@).take(it.index() as int),
    {
        v.push(to_lower(c));
    }
    v
}

/// Whether `needle` stands in `hay` at position `at`.
fn stands_at(needle: &Vec<char>, hay: &Vec<char>, at: usize) -> (found: bool)
    requires
        at + needle.len() <= hay.len(),
    ensures
        found == occurs_at(needle@, hay@, at as int),
{
    let mut k: usize = 0;
    while k < needle.len()
        invariant
            k <= needle.len(),
            at + needle.len() <= hay.len(),
            forall|j: int| 0 <= j < k ==> hay@[at + j] == needle@[j],
        decreases needle.len() - k,
    {
        if hay[at + k] != needle[k] {
            return false;
        }
        k += 1;
    }
    assert(hay@.subrange(at as int, at + needle.len()) =~= needle@);
    true
}

/// Whether `needle` stands somewhere in `hay`.
pub fn contains(hay: &Vec<char>, needle: &Vec<char>) -> (found: bool)
    ensures
        found == occurs_in(needle@, hay@),
{
    if needle.len() > hay.len() {
        return false;
    }
    let last: usize = hay.len() - needle.len();
    let mut at: usize = 0;
    while at < last
        invariant
            at <= last,
            last == hay.len() - needle.len(),
            needle.len() <= hay.len(),
            forall|i: int| 0 <= i < at ==> !occurs_at(needle@, hay@, i),
        decreases last - at,
    {
        if stands_at(needle, hay, at) {
            return true;
        }
        at += 1;
    }
    stands_at(needle, hay, last)
}

/// Whether the pattern selects the name: case aside, the name contains it.
pub fn is_match(name: &str, pattern: &str) -> (selected: bool)
    ensures
        selected == name_matches(name@, pattern@),
{
    let hay = lowered_chars(name);
    let needle = lowered_chars(pattern);
    contains(&hay, &needle)
}

} // verus!
