//! Repeating-key XOR over byte strings.
use vstd::prelude::*;

verus! {

/// The key byte that meets position `i` of the input: the key repeats, and an
/// empty key stands for a key of zero bytes.
pub open spec fn key_byte_at(key: Seq<u8>, i: int) -> u8 {
    if key.len() > 0 {
        key[i % (key.len() as int)]
    } else {
        0u8
    }
}

/// The input XORed byte by byte with the repeating key.
pub open spec fn fixed_key_xor_spec(input: Seq<u8>, key: Seq<u8>) -> Seq<u8> {
    Seq::new(input.len(), |i: int| input[i] ^ key_byte_at(key, i))
}

/// XORs every byte of `input` with the byte of `key` at the same position,
/// starting over at the key's first byte whenever the key runs out.
pub fn fixed_key_xor(input: &[u8], key: &[u8]) -> (result: Vec<u8>)
    ensures
        result@ == fixed_key_xor_spec(input@, key@),
{
    let mut result: Vec<u8> = Vec::with_capacity(input.len());
    let mut i: usize = 0;
    while i < input.len()
        invariant
            i <= input.len(),
            result@.len() == i,
            forall|j: int| 0 <= j < i ==> result@[j] == input@[j] ^ key_byte_at(key@, j),
        decreases input.len() - i,
    {
        let key_byte: u8 = if key.len() > 0 {
            key[i % key.len()]
        } else {
            0
        };
        result.push(input[i] ^ key_byte);
        i += 1;
    }
    result
}

} // verus!
