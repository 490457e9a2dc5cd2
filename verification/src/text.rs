//! Texts as sequences of characters, and the one string operation that is
//! taken from the standard library on trust.

use vstd::prelude::*;

verus! {

/// The characters of an optional text.
pub open spec fn text_of(text: Option<String>) -> Option<Seq<char>> {
    match text {
        Some(s) => Some(s@),
        None => None,
    }
}

/// The characters of each of a list of owned texts.
pub open spec fn texts(lines: Seq<String>) -> Seq<Seq<char>> {
    Seq::new(lines.len(), |k: int| lines[k]@)
}

/// The characters of each of a list of borrowed texts.
pub open spec fn strs(lines: Seq<&str>) -> Seq<Seq<char>> {
    Seq::new(lines.len(), |k: int| lines[k]@)
}

/// What `str::trim` leaves of a line: the line without its leading and
/// trailing white space.
pub uninterp spec fn trimmed(line: Seq<char>) -> Seq<char>;

/// `str::trim`: the line without its leading and trailing white space. The
/// contract names the result; it does not say which characters count as
/// white space.
#[verifier::external_body]
pub(crate) fn trim(line: &str) -> (rest: &str)
    ensures
        rest@ == trimmed(line@),
{
    line.trim()
}

} // verus!
