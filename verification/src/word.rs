//! The two operations of the key expansion on four-byte words.
use vstd::prelude::*;
use crate::constants::{sbox, S_BOX};

verus! {

/// The word rotated left by one byte.
pub open spec fn rot_word_spec(word: Seq<u8>) -> Seq<u8> {
    seq![word[1], word[2], word[3], word[0]]
}

/// The word with every byte replaced through the substitution table.
pub open spec fn sub_word_spec(word: Seq<u8>) -> Seq<u8> {
    Seq::new(4, |i: int| sbox(word[i]))
}

/// Takes a four-byte word and moves its first byte behind the other three.
pub fn rot_word(word: &[u8]) -> (rotated: Vec<u8>)
    requires
        word@.len() == 4,
    ensures
        rotated@ == rot_word_spec(word@),
{
    let mut rotated: Vec<u8> = Vec::with_capacity(4);
    rotated.push(word[1]);
    rotated.push(word[2]);
    rotated.push(word[3]);
    rotated.push(word[0]);
    rotated
}

/// Takes a four-byte word and looks each of its bytes up in the substitution
/// table.
pub fn sub_word(word: &[u8]) -> (substituted: Vec<u8>)
    requires
        word@.len() == 4,
    ensures
        substituted@ == sub_word_spec(word@),
{
    let mut substituted: Vec<u8> = Vec::with_capacity(4);
    let mut i: usize = 0;
    while i < 4
        invariant
            i <= 4,
            word@.len() == 4,
            substituted@.len() == i,
            forall|j: int| 0 <= j < i ==> substituted@[j] == sbox(word@[j]),
        decreases 4 - i,
    {
        substituted.push(S_BOX[word[i] as usize]);
        i += 1;
    }
    substituted
}

} // verus!
