//! Names given as text: comparison and lower case.

use vstd::prelude::*;

verus! {

/// What `str::to_lowercase` makes of a text.
pub uninterp spec fn lowered(text: Seq<char>) -> Seq<char>;

/// Whether every character is an ASCII character.
pub open spec fn all_ascii(text: Seq<char>) -> bool {
    forall|i: int| 0 <= i < text.len() ==> (#[trigger] text[i] as int) < 128
}

/// The lower-case form of an ASCII character.
pub open spec fn ascii_lower(c: char) -> char {
    if 'A' <= c <= 'Z' {
        (c as int + 32) as char
    } else {
        c
    }
}

/// An ASCII text in lower case.
pub open spec fn ascii_lowered(text: Seq<char>) -> Seq<char> {
    text.map_values(|c: char| ascii_lower(c))
}

/// A text in lower case: letter by letter where it is ASCII, as `str::to_lowercase` has
/// it otherwise.
pub open spec fn in_lower_case(text: Seq<char>) -> Seq<char> {
    if all_ascii(text) {
        ascii_lowered(text)
    } else {
        lowered(text)
    }
}

/// The text in lower case.
///
/// Calls `str::to_lowercase`. The result is a function of the text alone, named by
/// [`lowered`]; of an ASCII text it is the text with `A` to `Z` turned into `a` to
/// `z`. How other characters change is left to Unicode and not stated.
#[verifier::external_body]
pub(crate) fn to_lower(text: &str) -> (lower: String)
    ensures
        lower@ == lowered(text@),
        all_ascii(text@) ==> lower@ == ascii_lowered(text@),
{
    text.to_lowercase()
}

/// Whether two texts are the same.
pub fn same_text(a: &str, b: &str) -> (same: bool)
    ensures
        same == (a@ == b@),
{
    a.to_owned() == b.to_owned()
}

} // verus!
