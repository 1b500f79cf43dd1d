//! Text rules shared by the task list: what counts as an empty entry and when
//! a task's text matches a search.

use vstd::prelude::*;
use vstd::std_specs::iter::IteratorSpec;

verus! {

/// The characters that `str::trim` leaves of a text.
pub uninterp spec fn trimmed(s: Seq<char>) -> Seq<char>;

/// The characters that `str::to_lowercase` gives for a text.
pub uninterp spec fn lowercased(s: Seq<char>) -> Seq<char>;

/// `needle` stands in `hay` from the place `i` on, character for character.
pub open spec fn stands_at(needle: Seq<char>, hay: Seq<char>, i: int) -> bool {
    0 <= i && i + needle.len() <= hay.len() && hay.subrange(i, i + needle.len()) == needle
}

/// `needle` occurs in `hay` as a contiguous run of characters.
pub open spec fn occurs_in(needle: Seq<char>, hay: Seq<char>) -> bool {
    exists|i: int| stands_at(needle, hay, i)
}

/// A text is blank when nothing is left of it once the white space at both
/// ends is taken away.
pub open spec fn blank(s: Seq<char>) -> bool {
    trimmed(s).len() == 0
}

/// A task's text matches a search when the search occurs in it, both taken in
/// lower case.
pub open spec fn text_matches(text: Seq<char>, search: Seq<char>) -> bool {
    occurs_in(lowercased(search), lowercased(text))
}

/// Calls `str::trim` of the standard library. Trusted: the slice returned
/// depends on the characters of `s` alone, so it is given the name `trimmed`.
#[verifier::external_body]
pub(crate) fn trim(s: &str) -> (r: &str)
    ensures
        r@ == trimmed(s@),
{
    s.trim()
}

/// Calls `str::to_lowercase` of the standard library. Trusted: the string
/// returned depends on the characters of `s` alone (the conversion knows no
/// locale), so it is given the name `lowercased`.
#[verifier::external_body]
fn to_lowercase(s: &str) -> (r: String)
    ensures
        r@ == lowercased(s@),
{
    s.to_lowercase()
}

/// The characters of a string, one by one.
fn chars_of(s: &str) -> (chars: Vec<char>)
    ensures
        chars@ == s@,
{
    broadcast use vstd::string::axiom_spec_iter;

    let mut chars: Vec<char> = Vec::new();
    for c in it: s.chars()
        invariant
            it.seq() == s@,
            chars@ == s@.subrange(0, it.index() as int),
    {
        chars.push(c);
        assert(chars@ =~= s@.subrange(0, it.index() + 1));
    }
    assert(chars@ =~= s@);
    chars
}

/// Whether `needle` stands in `hay` from the place `i` on.
fn found_at(hay: &Vec<char>, needle: &Vec<char>, i: usize) -> (found: bool)
    requires
        i + needle@.len() <= hay@.len(),
    ensures
        found == stands_at(needle@, hay@, i as int),
{
    assert(hay@.len() == hay.len());
    let mut j: usize = 0;
    while j < needle.len()
        invariant
            j <= needle@.len(),
            i + needle@.len() <= hay@.len() <= usize::MAX,
            forall|k: int| 0 <= k < j ==> hay@[i + k] == needle@[k],
        decreases needle@.len() - j,
    {
        if hay[i + j] != needle[j] {
            assert(hay@.subrange(i as int, i + needle@.len())[j as int] != needle@[j as int]);
            return false;
        }
        j += 1;
    }
    assert(hay@.subrange(i as int, i + needle@.len()) =~= needle@);
    true
}

/// Whether nothing but white space stands in `s`.
pub fn is_blank(s: &str) -> (r: bool)
    ensures
        r == blank(s@),
{
    trim(s).is_empty()
}

/// Whether `needle` occurs in `hay`, letter for letter.
pub fn occurs(hay: &str, needle: &str) -> (r: bool)
    ensures
        r == occurs_in(needle@, hay@),
{
    let hay_chars = chars_of(hay);
    let needle_chars = chars_of(needle);
    if needle_chars.len() == 0 {
        assert(stands_at(needle@, hay@, 0)) by {
            assert(hay@.subrange(0, 0) =~= needle@);
        }
        return true;
    }
    if needle_chars.len() > hay_chars.len() {
        return false;
    }
    assert(hay_chars@.len() == hay_chars.len());
    let last: usize = hay_chars.len() - needle_chars.len();
    let mut i: usize = 0;
    while i <= last
        invariant
            i <= last + 1,
            last + needle_chars@.len() == hay_chars@.len() <= usize::MAX,
            needle_chars@.len() > 0,
            hay_chars@ == hay@,
            needle_chars@ == needle@,
            forall|k: int| 0 <= k < i ==> !stands_at(needle@, hay@, k),
        decreases last + 1 - i,
    {
        if found_at(&hay_chars, &needle_chars, i) {
            return true;
        }
        i += 1;
    }
    false
}

/// Whether a task's text matches a search, whatever the case of the letters.
pub fn matches_search(text: &str, search: &str) -> (r: bool)
    ensures
        r == text_matches(text@, search@),
{
    let text_lower = to_lowercase(text);
    let search_lower = to_lowercase(search);
    occurs(text_lower.as_str(), search_lower.as_str())
}

} // verus!
