//! Matching a search term against text without regard to case.

use vstd::prelude::*;
use crate::person::{texts, Person, PersonView};

verus! {

/// The lower-case form of a text, as `str::to_lowercase` of the standard
/// library gives it: each character taken to its Unicode lower-case
/// equivalent, which may be more than one character.
pub uninterp spec fn lowercase(text: Seq<char>) -> Seq<char>;

/// Whether every character of `text` is an ASCII character.
pub open spec fn is_ascii_text(text: Seq<char>) -> bool {
    forall|i: int| 0 <= i < text.len() ==> (#[trigger] text[i]) as int <= 127
}

/// `c` with the capital letters `A` to `Z` taken to their small forms.
pub open spec fn ascii_lower(c: char) -> char {
    if 'A' <= c && c <= 'Z' {
        (c as int + 32) as char
    } else {
        c
    }
}

/// `text` with the capital letters `A` to `Z` taken to their small forms.
pub open spec fn ascii_lowered(text: Seq<char>) -> Seq<char> {
    Seq::new(text.len(), |i: int| ascii_lower(text[i]))
}

/// Whether `needle` stands in `hay` from position `at` on, character for
/// character.
pub open spec fn occurs_at(hay: Seq<char>, needle: Seq<char>, at: int) -> bool {
    &&& 0 <= at
    &&& at + needle.len() <= hay.len()
    &&& forall|k: int| 0 <= k < needle.len() ==> hay[at + k] == #[trigger] needle[k]
}

/// Whether `needle` stands somewhere in `hay`, character for character.
pub open spec fn occurs(hay: Seq<char>, needle: Seq<char>) -> bool {
    exists|at: int| occurs_at(hay, needle, at)
}

/// Whether `needle` stands somewhere in `hay`, case aside: whether the
/// lower-case form of the one stands in that of the other.
pub open spec fn contains_folded(hay: Seq<char>, needle: Seq<char>) -> bool {
    occurs(lowercase(hay), lowercase(needle))
}

/// Whether `needle` stands in the lower-case form of one of `items`.
pub open spec fn any_holds(items: Seq<Seq<char>>, needle: Seq<char>) -> bool {
    exists|j: int| 0 <= j < items.len() && occurs(lowercase(#[trigger] items[j]), needle)
}

/// Whether `needle` stands in the lower-case form of the name, of the
/// nickname or of a technology of `person`.
pub open spec fn person_holds(person: PersonView, needle: Seq<char>) -> bool {
    ||| occurs(lowercase(person.name), needle)
    ||| occurs(lowercase(person.nick), needle)
    ||| match person.stack {
        Some(techs) => any_holds(techs, needle),
        None => false,
    }
}

/// Whether the name, the nickname or a technology of `person` contains
/// `term`, case aside.
pub open spec fn person_matches(person: PersonView, term: Seq<char>) -> bool {
    person_holds(person, lowercase(term))
}

/// The lower-case form of `text`, from `str::to_lowercase` of the standard
/// library. Believed of it: that the same text always gives the same
/// result, and that a text of ASCII characters alone comes back with its
/// letters `A` to `Z` made small and nothing else changed.
#[verifier::external_body]
fn lowered(text: &str) -> (lower: String)
    ensures
        lower@ == lowercase(text@),
        is_ascii_text(text@) ==> lower@ == ascii_lowered(text@),
{
    text.to_lowercase()
}

/// The characters of `text`, one by one.
pub fn chars_of(text: &str) -> (chars: Vec<char>)
    ensures
        chars@ == text@,
{
    let n: usize = text.unicode_len();
    let mut chars: Vec<char> = Vec::new();
    let mut i: usize = 0;
    while i < n
        invariant
            n == text@.len(),
            i <= n,
            chars@ == text@.take(i as int),
        decreases n - i,
    {
        chars.push(text.get_char(i));
        assert(chars@ =~= text@.take(i + 1));
        i += 1;
    }
    assert(text@.take(n as int) =~= text@);
    chars
}

/// The characters of the lower-case form of `text`. Of a text of ASCII
/// characters alone these are its own, with the letters `A` to `Z` made
/// small.
pub fn lowered_chars_of(text: &str) -> (chars: Vec<char>)
    ensures
        chars@ == lowercase(text@),
        is_ascii_text(text@) ==> chars@ == ascii_lowered(text@),
{
    let lower = lowered(text);
    chars_of(lower.as_str())
}

/// Whether `needle` stands in `hay` from `at` on, character for character.
fn matches_at(hay: &Vec<char>, needle: &Vec<char>, at: usize) -> (r: bool)
    requires
        at + needle@.len() <= hay@.len(),
    ensures
        r == occurs_at(hay@, needle@, at as int),
{
    let n: usize = hay.len();
    let m: usize = needle.len();
    let mut k: usize = 0;
    while k < m
        invariant
            n == hay@.len(),
            m == needle@.len(),
            at + m <= n,
            k <= m,
            forall|j: int| 0 <= j < k ==> hay@[at + j] == #[trigger] needle@[j],
        decreases m - k,
    {
        if hay[at + k] != needle[k] {
            assert(hay@[at + k] != needle@[k as int]);
            return false;
        }
        k += 1;
    }
    true
}

/// Whether `needle` stands somewhere in `hay`, character for character.
/// The empty needle stands in every text.
pub fn contains_chars(hay: &Vec<char>, needle: &Vec<char>) -> (r: bool)
    ensures
        r == occurs(hay@, needle@),
{
    let n: usize = hay.len();
    let m: usize = needle.len();
    if m > n {
        assert forall|at: int| !occurs_at(hay@, needle@, at) by {}
        return false;
    }
    let last: usize = n - m;
    let mut at: usize = 0;
    while at <= last
        invariant
            n == hay@.len(),
            m == needle@.len(),
            last == n - m,
            at <= last + 1,
            forall|a: int| 0 <= a < at ==> !occurs_at(hay@, needle@, a),
        decreases last + 1 - at,
    {
        if matches_at(hay, needle, at) {
            return true;
        }
        at += 1;
    }
    assert forall|a: int| !occurs_at(hay@, needle@, a) by {}
    false
}

/// Whether `hay` contains `needle`, case aside. Of two texts of ASCII
/// characters alone, that is whether the one stands in the other once the
/// letters `A` to `Z` of both are made small.
pub fn contains_ignoring_case(hay: &str, needle: &str) -> (r: bool)
    ensures
        r == contains_folded(hay@, needle@),
        is_ascii_text(hay@) && is_ascii_text(needle@) ==> r == occurs(
            ascii_lowered(hay@),
            ascii_lowered(needle@),
        ),
{
    let hay_chars = lowered_chars_of(hay);
    let needle_chars = lowered_chars_of(needle);
    contains_chars(&hay_chars, &needle_chars)
}

/// Whether `needle` stands in the lower-case form of the name, of the
/// nickname or of a technology of `person`.
pub fn matches_person(person: &Person, needle: &Vec<char>) -> (r: bool)
    ensures
        r == person_holds(person@, needle@),
{
    if contains_chars(&lowered_chars_of(person.name.as_str()), needle) {
        return true;
    }
    if contains_chars(&lowered_chars_of(person.nick.as_str()), needle) {
        return true;
    }
    match &person.stack {
        Some(techs) => {
            let ghost names = person@.stack->Some_0;
            let n: usize = techs.len();
            let mut j: usize = 0;
            while j < n
                invariant
                    n == techs@.len(),
                    j <= n,
                    names == texts(techs@),
                    person@.stack == Some(names),
                    forall|i: int| 0 <= i < j ==> !occurs(lowercase(#[trigger] names[i]), needle@),
                decreases n - j,
            {
                if contains_chars(&lowered_chars_of(techs[j].as_str()), needle) {
                    assert(names[j as int] == techs@[j as int]@);
                    assert(occurs(lowercase(names[j as int]), needle@));
                    return true;
                }
                j += 1;
            }
            false
        },
        None => false,
    }
}

} // verus!
