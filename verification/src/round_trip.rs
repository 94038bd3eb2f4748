//! What encryption and decryption are to each other.
use vstd::prelude::*;
use crate::cipher::{lemma_inv_cipher_of_cipher, lemma_xor_block_twice};
use crate::key::expand_key_spec;
use crate::pad::{
    lemma_pkcs7_round_trip, pkcs7_pad_length, pkcs7_pad_spec, remove_pkcs7_spec, Padding,
};
use crate::state::xor_block;
use crate::xor::key_byte_at;
use crate::{
    bytes_to_parts_spec, cipher_input, decrypt_spec, decrypted_block, encrypt_spec,
    encrypted_block, encrypted_blocks, part_count, BlockCipherMode,
};

verus! {

/// The bytes followed by as many zero bytes as it takes to fill the last block
/// of sixteen.
pub open spec fn zero_filled(bytes: Seq<u8>) -> Seq<u8> {
    Seq::new(
        (16 * part_count(bytes.len() as int)) as nat,
        |i: int|
            if i < bytes.len() {
                bytes[i]
            } else {
                0u8
            },
    )
}

/// Bytes that fill whole blocks stay as they are when the last block is
/// filled with zero bytes.
pub proof fn lemma_zero_filled_whole_blocks(bytes: Seq<u8>)
    requires
        bytes.len() % 16 == 0,
    ensures
        zero_filled(bytes) == bytes,
{
    assert(zero_filled(bytes) =~= bytes);
}

/// Every block that encryption produces has sixteen bytes.
pub proof fn lemma_encrypted_block_len(
    parts: Seq<Seq<u8>>,
    w: Seq<Seq<u8>>,
    mode: BlockCipherMode,
    k: int,
)
    ensures
        encrypted_block(parts, w, mode, k).len() == 16,
{
}

/// Cut into parts again, the ciphertext of `parts` gives the encrypted blocks
/// back, one part for each.
proof fn lemma_parts_of_encrypted_blocks(
    parts: Seq<Seq<u8>>,
    w: Seq<Seq<u8>>,
    mode: BlockCipherMode,
)
    ensures
        bytes_to_parts_spec(encrypted_blocks(parts, w, mode, parts.len() as int)).len()
            == parts.len(),
        forall|k: int|
            0 <= k < parts.len() ==> #[trigger] bytes_to_parts_spec(
                encrypted_blocks(parts, w, mode, parts.len() as int),
            )[k] == encrypted_block(parts, w, mode, k),
{
    let blocks = encrypted_blocks(parts, w, mode, parts.len() as int);
    let again = bytes_to_parts_spec(blocks);
    assert forall|k: int| 0 <= k < parts.len() implies #[trigger] again[k] == encrypted_block(
        parts,
        w,
        mode,
        k,
    ) by {
        lemma_encrypted_block_len(parts, w, mode, k);
        assert forall|j: int| 0 <= j < 16 implies again[k][j] == encrypted_block(
            parts,
            w,
            mode,
            k,
        )[j] by {
            let i = 16 * k + j;
            assert(i / 16 == k && i % 16 == j);
            assert(blocks[i] == encrypted_block(parts, w, mode, i / 16)[i % 16]);
        }
        assert(again[k] =~= encrypted_block(parts, w, mode, k));
    }
}

/// In ECB and CBC mode, decrypting block `k` of a ciphertext gives block `k`
/// of what was encrypted.
proof fn lemma_decrypted_block_of_encrypted(
    parts: Seq<Seq<u8>>,
    w: Seq<Seq<u8>>,
    mode: BlockCipherMode,
    k: int,
)
    requires
        !(mode is CTR),
        0 <= k < parts.len(),
        forall|p: int| 0 <= p < parts.len() ==> (#[trigger] parts[p]).len() == 16,
    ensures
        decrypted_block(
            bytes_to_parts_spec(encrypted_blocks(parts, w, mode, parts.len() as int)),
            w,
            mode,
            k,
        ) == parts[k],
{
    let again = bytes_to_parts_spec(encrypted_blocks(parts, w, mode, parts.len() as int));
    lemma_parts_of_encrypted_blocks(parts, w, mode);
    assert(again[k] == encrypted_block(parts, w, mode, k));
    match mode {
        BlockCipherMode::CBC(iv) => {
            let chained = if k <= 0 {
                iv@
            } else {
                encrypted_block(parts, w, mode, k - 1)
            };
            if k > 0 {
                assert(again[k - 1] == encrypted_block(parts, w, mode, k - 1));
            }
            lemma_inv_cipher_of_cipher(xor_block(parts[k], chained), w);
            lemma_xor_block_twice(parts[k], chained);
        },
        _ => {
            lemma_inv_cipher_of_cipher(parts[k], w);
        },
    }
}

/// In ECB and CBC mode, decryption gives back what was cut into blocks and
/// encrypted: the message, with its padding where it got one, and with zero
/// bytes where its last block was not full.
pub proof fn lemma_decrypt_of_encrypt(
    raw: Seq<u8>,
    key: Seq<u8>,
    mode: BlockCipherMode,
    padding: Padding,
)
    requires
        !(mode is CTR),
    ensures
        decrypt_spec(encrypt_spec(raw, key, mode, padding), key, mode) == zero_filled(
            cipher_input(raw, mode, padding),
        ),
{
    let input = cipher_input(raw, mode, padding);
    let parts = bytes_to_parts_spec(input);
    let w = expand_key_spec(key);
    let cipher = encrypt_spec(raw, key, mode, padding);
    assert(cipher == encrypted_blocks(parts, w, mode, parts.len() as int));
    lemma_parts_of_encrypted_blocks(parts, w, mode);
    let decrypted = decrypt_spec(cipher, key, mode);
    assert(decrypted.len() == 16 * parts.len());
    assert forall|i: int| 0 <= i < 16 * parts.len() implies decrypted[i] == zero_filled(
        input,
    )[i] by {
        lemma_decrypted_block_of_encrypted(parts, w, mode, i / 16);
    }
    assert(decrypted =~= zero_filled(input));
}

/// For every message of whole blocks and every key, decryption undoes
/// encryption without padding, in ECB mode and in CBC mode.
pub proof fn lemma_decrypt_inverts_encrypt(raw: Seq<u8>, key: Seq<u8>, mode: BlockCipherMode)
    requires
        raw.len() % 16 == 0,
        !(mode is CTR),
    ensures
        decrypt_spec(encrypt_spec(raw, key, mode, Padding::NoPadding), key, mode) == raw,
{
    lemma_decrypt_of_encrypt(raw, key, mode, Padding::NoPadding);
    lemma_zero_filled_whole_blocks(raw);
}

/// For every message and every key, in ECB mode and in CBC mode, decrypting
/// what was encrypted with PKCS7 padding and taking the padding off gives the
/// message back.
pub proof fn lemma_decrypt_inverts_padded_encrypt(
    raw: Seq<u8>,
    key: Seq<u8>,
    mode: BlockCipherMode,
)
    requires
        !(mode is CTR),
    ensures
        remove_pkcs7_spec(
            decrypt_spec(encrypt_spec(raw, key, mode, Padding::PKCS7), key, mode),
        ) == raw,
{
    lemma_decrypt_of_encrypt(raw, key, mode, Padding::PKCS7);
    let padded = pkcs7_pad_spec(raw, 16);
    assert(padded.len() == raw.len() + pkcs7_pad_length(raw.len() as int, 16));
    lemma_zero_filled_whole_blocks(padded);
    lemma_pkcs7_round_trip(raw, 16);
}

/// In CTR mode, encrypting a ciphertext again with the same key and nonce
/// gives the message back, whatever the padding asked for.
pub proof fn lemma_ctr_encrypt_twice(
    raw: Seq<u8>,
    key: Seq<u8>,
    mode: BlockCipherMode,
    first: Padding,
    second: Padding,
)
    requires
        mode is CTR,
    ensures
        encrypt_spec(encrypt_spec(raw, key, mode, first), key, mode, second) == raw,
{
    let once = encrypt_spec(raw, key, mode, first);
    let twice = encrypt_spec(once, key, mode, second);
    let parts = bytes_to_parts_spec(cipher_input(raw, mode, first));
    let stream = encrypted_blocks(parts, expand_key_spec(key), mode, parts.len() as int);
    assert(once.len() == raw.len());
    assert(cipher_input(once, mode, second) == cipher_input(raw, mode, first));
    assert forall|i: int| 0 <= i < raw.len() implies twice[i] == raw[i] by {
        let x = raw[i];
        let y = key_byte_at(stream, i);
        assert((x ^ y) ^ y == x) by (bit_vector);
    }
    assert(twice =~= raw);
}

} // verus!
