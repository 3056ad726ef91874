//! The letters that replace a region: lower case first, then upper case.

use vstd::prelude::*;

verus! {

/// Number of letters in the alphabet.
pub const ALPHABET_LEN: usize = 52;

/// The alphabet as text.
pub open spec fn alphabet() -> Seq<char> {
    "abcdefghijklmnopqrstuvwxyzABCDEFGHIJKLMNOPQRSTUVWXYZ"@
}

/// `b` is an ASCII letter.
pub open spec fn is_letter(b: u8) -> bool {
    (0x61 <= b <= 0x7a) || (0x41 <= b <= 0x5a)
}

/// The alphabet has `ALPHABET_LEN` entries, all of them letters, and every
/// letter is one of them.
pub proof fn lemma_alphabet()
    ensures
        alphabet().len() == ALPHABET_LEN,
        forall|i: int| 0 <= i < ALPHABET_LEN ==> is_letter(#[trigger] alphabet()[i] as u8),
        forall|b: u8|
            is_letter(b) ==> exists|i: int|
                0 <= i < ALPHABET_LEN && #[trigger] alphabet()[i] as u8 == b,
{
    reveal_strlit("abcdefghijklmnopqrstuvwxyzABCDEFGHIJKLMNOPQRSTUVWXYZ");
    assert forall|b: u8| is_letter(b) implies exists|i: int|
        0 <= i < ALPHABET_LEN && #[trigger] alphabet()[i] as u8 == b by {
        let i: int = if b >= 0x61 {
            b - 0x61
        } else {
            b - 0x41 + 26
        };
        assert(alphabet()[i] as u8 == b);
    }
}

/// The letter at `index` of the alphabet, as a byte.
pub fn letter(index: usize) -> (b: u8)
    requires
        index < ALPHABET_LEN,
    ensures
        b == alphabet()[index as int] as u8,
        is_letter(b),
{
    proof {
        reveal_strlit("abcdefghijklmnopqrstuvwxyzABCDEFGHIJKLMNOPQRSTUVWXYZ");
    }
    if index < 26 {
        0x61u8 + index as u8
    } else {
        0x41u8 + (index - 26) as u8
    }
}

} // verus!
