//! The letters by which choices are offered and picked.

use vstd::prelude::*;

verus! {

/// How many choices one prompt can offer.
pub const ALPHABET_LEN: usize = 7;

/// The letters, in the order in which they are handed out.
pub open spec fn alphabet() -> Seq<char> {
    seq!['a', 'b', 'c', 'd', 'e', 'f', 'g']
}

/// The letter of the choice at position `k`.
pub open spec fn letter(k: int) -> char
    recommends
        0 <= k < alphabet().len(),
{
    alphabet()[k]
}

/// The position whose letter is `c`, if `c` is a letter of the alphabet.
pub open spec fn position(c: char) -> Option<int> {
    if alphabet().contains(c) {
        Some(alphabet().index_of(c))
    } else {
        None
    }
}

/// Position and letter determine each other.
pub proof fn lemma_position_of_letter(k: int)
    requires
        0 <= k < alphabet().len(),
    ensures
        position(letter(k)) == Some(k),
{
}

/// A position is only ever that of its own letter.
pub proof fn lemma_letter_of_position(c: char)
    ensures
        position(c) matches Some(k) ==> 0 <= k < alphabet().len() && letter(k) == c,
        position(c).is_none() ==> forall|k: int| 0 <= k < alphabet().len() ==> letter(k) != c,
{
}

/// The letters as a string.
fn letters() -> (all: &'static str)
    ensures
        all@ == alphabet(),
{
    proof {
        reveal_strlit("abcdefg");
    }
    let all: &'static str = "abcdefg";
    all
}

/// The letter of the choice at position `k`, as a text of one character.
pub fn letter_text(k: usize) -> (text: &'static str)
    requires
        k < ALPHABET_LEN,
    ensures
        text@ == seq![letter(k as int)],
{
    let text = letters().substring_char(k, k + 1);
    text
}

/// The position that the character `c` picks.
pub fn choice_index(c: char) -> (found: Option<usize>)
    ensures
        found matches Some(k) ==> position(c) == Some(k as int),
        found.is_none() ==> position(c).is_none(),
{
    let all = letters();
    let mut k: usize = 0;
    while k < ALPHABET_LEN
        invariant
            k <= ALPHABET_LEN,
            all@ == alphabet(),
            forall|j: int| 0 <= j < k ==> alphabet()[j] != c,
        decreases ALPHABET_LEN - k,
    {
        if all.get_char(k) == c {
            proof {
                lemma_position_of_letter(k as int);
            }
            return Some(k);
        }
        k = k + 1;
    }
    None
}

} // verus!
