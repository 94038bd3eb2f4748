//! AES-128 in ECB, CBC and CTR mode, with PKCS7 padding.
use vstd::prelude::*;
use vstd::slice::slice_to_vec;
use crate::cipher::{cipher_spec, decrypt_block, encrypt_block, inv_cipher_spec};
use crate::ctr::{ctr_stream, ctr_stream_len, generate_ctr_byte_stream_for_length};
use crate::key::{expand_key_spec, Key};
use crate::pad::{pkcs7_pad, pkcs7_pad_length, pkcs7_pad_spec, Padding};
use crate::state::{xor_block, State};
use crate::xor::{fixed_key_xor, fixed_key_xor_spec};

pub mod cipher;
pub mod constants;
pub mod ctr;
pub mod key;
pub mod math;
pub mod pad;
pub mod round_trip;
pub mod state;
pub mod word;
pub mod xor;

verus! {

/// The mode of operation and the padding of one encryption.
#[derive(PartialEq, Debug)]
pub struct AESEncryptionOptions<'a> {
    pub block_cipher_mode: &'a BlockCipherMode<'a>,
    pub padding: &'a Padding,
}

impl<'a> AESEncryptionOptions<'a> {
    /// The options with the mode and the padding given.
    pub fn new(block_cipher_mode: &'a BlockCipherMode, padding: &'a Padding) -> (options: Self)
        ensures
            options.block_cipher_mode == block_cipher_mode,
            options.padding == padding,
    {
        AESEncryptionOptions { block_cipher_mode, padding }
    }
}

impl Default for AESEncryptionOptions<'_> {
    /// ECB mode without padding.
    fn default() -> (options: Self)
        ensures
            *options.block_cipher_mode == BlockCipherMode::ECB,
            *options.padding == Padding::NoPadding,
    {
        AESEncryptionOptions::new(&BlockCipherMode::ECB, &Padding::NoPadding)
    }
}

/// Sixteen bytes as four columns of four: byte `i` of the block is
/// `self.0[i / 4][i % 4]`.
#[derive(PartialEq, Debug)]
pub struct Block(pub [[u8; 4]; 4]);

/// How the blocks of a message are chained.
#[derive(PartialEq, Debug)]
pub enum BlockCipherMode<'a> {
    /// Every block is encrypted by itself.
    ECB,
    /// Every block is XORed with the ciphertext of the block before it, the
    /// first one with the initialization vector, and then encrypted.
    CBC(&'a Iv),
    /// A stream of nonce and counter is encrypted and XORed onto the message.
    CTR(&'a Nonce),
}

/// Why a ciphertext was not decrypted.
#[derive(PartialEq, Eq, Debug, Clone, Copy)]
pub enum DecryptionError {
    /// CTR mode has no decryption of its own: encrypting the ciphertext again
    /// gives the message.
    InvalidModeForOperation,
}

/// The initialization vector of CBC mode.
pub type Iv = Block;

/// The nonce of CTR mode.
pub type Nonce = [u8; 8];

impl View for Block {
    type V = Seq<u8>;

    /// The sixteen bytes of the block in order.
    open spec fn view(&self) -> Seq<u8> {
        state::columns_block(self.0)
    }
}

impl Block {
    /// The block of sixteen zero bytes.
    pub fn empty() -> (block: Self)
        ensures
            block@ == Seq::new(16, |i: int| 0u8),
    {
        let block = Block([[0; 4]; 4]);
        assert(block@ =~= Seq::new(16, |i: int| 0u8));
        block
    }
}

/// The number of bytes in a block.
pub const BLOCK_SIZE: usize = 16;

/// The number of sixteen-byte parts that `len` bytes are cut into.
pub open spec fn part_count(len: int) -> int {
    (len + 15) / 16
}

/// The bytes cut into parts of sixteen; a last part that the bytes do not
/// fill ends in zero bytes.
pub open spec fn bytes_to_parts_spec(bytes: Seq<u8>) -> Seq<Seq<u8>> {
    Seq::new(
        part_count(bytes.len() as int) as nat,
        |k: int|
            Seq::new(
                16,
                |j: int|
                    if 16 * k + j < bytes.len() {
                        bytes[BLOCK_SIZE * k + j]
                    } else {
                        0u8
                    },
            ),
    )
}

/// The parts of a vector of parts, each as its bytes.
pub open spec fn parts_view(parts: Seq<Vec<u8>>) -> Seq<Seq<u8>> {
    Seq::new(parts.len(), |k: int| parts[k]@)
}

/// Cuts the bytes into parts of sixteen bytes each. Where the bytes do not
/// fill the last part, the rest of it is zero.
pub fn bytes_to_parts(bytes: &[u8]) -> (parts: Vec<Vec<u8>>)
    ensures
        parts_view(parts@) == bytes_to_parts_spec(bytes@),
{
    let full: usize = bytes.len() / BLOCK_SIZE;
    let rest: usize = bytes.len() % BLOCK_SIZE;
    let count: usize = if rest != 0 {
        full + 1
    } else {
        full
    };

    let mut parts: Vec<Vec<u8>> = Vec::with_capacity(count);
    let mut k: usize = 0;
    while k < count
        invariant
            bytes@.len() <= usize::MAX,
            full == bytes@.len() / 16,
            rest == bytes@.len() % 16,
            count == part_count(bytes@.len() as int),
            k <= count,
            parts@.len() == k,
            forall|p: int| 0 <= p < k ==> (#[trigger] parts@[p])@ == bytes_to_parts_spec(bytes@)[p],
        decreases count - k,
    {
        let mut part: Vec<u8> = Vec::with_capacity(BLOCK_SIZE);
        let mut j: usize = 0;
        while j < BLOCK_SIZE
            invariant
                    bytes@.len() <= usize::MAX,
                full == bytes@.len() / 16,
                rest == bytes@.len() % 16,
                count == part_count(bytes@.len() as int),
                k < count,
                j <= BLOCK_SIZE,
                part@.len() == j,
                forall|q: int| 0 <= q < j ==> part@[q] == bytes_to_parts_spec(bytes@)[k as int][q],
            decreases BLOCK_SIZE - j,
        {
            let byte: u8 = if k < full || j < rest {
                bytes[BLOCK_SIZE * k + j]
            } else {
                0
            };
            part.push(byte);
            j += 1;
        }
        assert(part@ =~= bytes_to_parts_spec(bytes@)[k as int]);
        parts.push(part);
        k += 1;
    }
    assert(parts_view(parts@) =~= bytes_to_parts_spec(bytes@));
    parts
}

/// The bytes that are cut into blocks and encrypted: in CTR mode the stream of
/// nonce and counter for the length of the message, whatever the padding;
/// otherwise the message, with its padding where PKCS7 is asked for.
pub open spec fn cipher_input(raw: Seq<u8>, mode: BlockCipherMode, padding: Padding) -> Seq<u8> {
    match mode {
        BlockCipherMode::CTR(nonce) => ctr_stream(raw.len() as int, nonce@),
        _ => match padding {
            Padding::PKCS7 => pkcs7_pad_spec(raw, 16),
            Padding::NoPadding => raw,
        },
    }
}

/// The ciphertext of part `k`. In CBC mode the part is first XORed with the
/// ciphertext of the part before it, and the first part with the
/// initialization vector. In the other modes the part is encrypted as it is.
pub open spec fn encrypted_block(
    parts: Seq<Seq<u8>>,
    w: Seq<Seq<u8>>,
    mode: BlockCipherMode,
    k: int,
) -> Seq<u8>
    decreases k,
{
    match mode {
        BlockCipherMode::CBC(iv) => {
            let chained = if k <= 0 {
                iv@
            } else {
                encrypted_block(parts, w, mode, k - 1)
            };
            cipher_spec(xor_block(parts[k], chained), w)
        },
        _ => cipher_spec(parts[k], w),
    }
}

/// The ciphertexts of the first `count` parts, one after the other.
pub open spec fn encrypted_blocks(
    parts: Seq<Seq<u8>>,
    w: Seq<Seq<u8>>,
    mode: BlockCipherMode,
    count: int,
) -> Seq<u8> {
    Seq::new((16 * count) as nat, |i: int| encrypted_block(parts, w, mode, i / 16)[i % 16])
}

/// The ciphertexts of the first `count` parts, followed by the ciphertext of
/// the next part, are the ciphertexts of the first `count + 1` parts.
pub proof fn lemma_encrypted_blocks_grow(
    parts: Seq<Seq<u8>>,
    w: Seq<Seq<u8>>,
    mode: BlockCipherMode,
    count: int,
)
    requires
        0 <= count,
    ensures
        encrypted_blocks(parts, w, mode, count) + encrypted_block(parts, w, mode, count)
            == encrypted_blocks(parts, w, mode, count + 1),
{
    let next = encrypted_block(parts, w, mode, count);
    assert(next.len() == 16);
    let grown = encrypted_blocks(parts, w, mode, count) + next;
    assert forall|i: int| 0 <= i < 16 * (count + 1) implies grown[i] == encrypted_block(
        parts,
        w,
        mode,
        i / 16,
    )[i % 16] by {
        if i >= 16 * count {
            assert(i / 16 == count && i % 16 == i - 16 * count);
        }
    }
    assert(grown =~= encrypted_blocks(parts, w, mode, count + 1));
}

/// What encryption makes of the message `raw` under `key`. In ECB and CBC mode
/// it is the ciphertext of the message's blocks. In CTR mode it is the message
/// XORed with the ciphertext of the stream of nonce and counter.
pub open spec fn encrypt_spec(
    raw: Seq<u8>,
    key: Seq<u8>,
    mode: BlockCipherMode,
    padding: Padding,
) -> Seq<u8> {
    let parts = bytes_to_parts_spec(cipher_input(raw, mode, padding));
    let blocks = encrypted_blocks(parts, expand_key_spec(key), mode, parts.len() as int);
    match mode {
        BlockCipherMode::CTR(_) => fixed_key_xor_spec(raw, blocks),
        _ => blocks,
    }
}

/// The plaintext of part `k`: the part run through the inverse cipher and, in
/// CBC mode, XORed with the part before it, the first one with the
/// initialization vector.
pub open spec fn decrypted_block(
    parts: Seq<Seq<u8>>,
    w: Seq<Seq<u8>>,
    mode: BlockCipherMode,
    k: int,
) -> Seq<u8> {
    match mode {
        BlockCipherMode::CBC(iv) => {
            let chained = if k <= 0 {
                iv@
            } else {
                parts[k - 1]
            };
            xor_block(inv_cipher_spec(parts[k], w), chained)
        },
        _ => inv_cipher_spec(parts[k], w),
    }
}

/// The plaintexts of the first `count` parts, one after the other.
pub open spec fn decrypted_blocks(
    parts: Seq<Seq<u8>>,
    w: Seq<Seq<u8>>,
    mode: BlockCipherMode,
    count: int,
) -> Seq<u8> {
    Seq::new((16 * count) as nat, |i: int| decrypted_block(parts, w, mode, i / 16)[i % 16])
}

/// The plaintexts of the first `count` parts, followed by the plaintext of the
/// next part, are the plaintexts of the first `count + 1` parts.
pub proof fn lemma_decrypted_blocks_grow(
    parts: Seq<Seq<u8>>,
    w: Seq<Seq<u8>>,
    mode: BlockCipherMode,
    count: int,
)
    requires
        0 <= count,
    ensures
        decrypted_blocks(parts, w, mode, count) + decrypted_block(parts, w, mode, count)
            == decrypted_blocks(parts, w, mode, count + 1),
{
    let next = decrypted_block(parts, w, mode, count);
    assert(next.len() == 16);
    let grown = decrypted_blocks(parts, w, mode, count) + next;
    assert forall|i: int| 0 <= i < 16 * (count + 1) implies grown[i] == decrypted_block(
        parts,
        w,
        mode,
        i / 16,
    )[i % 16] by {
        if i >= 16 * count {
            assert(i / 16 == count && i % 16 == i - 16 * count);
        }
    }
    assert(grown =~= decrypted_blocks(parts, w, mode, count + 1));
}

/// What decryption makes of the ciphertext `cipher` under `key`, in ECB or CBC
/// mode: the plaintexts of all parts, one after the other.
pub open spec fn decrypt_spec(cipher: Seq<u8>, key: Seq<u8>, mode: BlockCipherMode) -> Seq<u8> {
    let parts = bytes_to_parts_spec(cipher);
    decrypted_blocks(parts, expand_key_spec(key), mode, parts.len() as int)
}

/// Encrypts `raw_bytes` under `key` in the mode and with the padding of
/// `options`. The result is made of whole blocks in ECB and CBC mode, and is
/// as long as the message in CTR mode. What is encrypted, the padded message
/// or in CTR mode the stream of nonce and counter, must not be longer than a
/// `usize` can count.
pub fn encrypt_aes_128(raw_bytes: &[u8], key: &Key, options: &AESEncryptionOptions) -> (cipher:
    Vec<u8>)
    requires
        options.block_cipher_mode is CTR ==> ctr_stream_len(raw_bytes@.len() as int)
            <= usize::MAX,
        !(options.block_cipher_mode is CTR) && options.padding is PKCS7 ==> raw_bytes@.len()
            + pkcs7_pad_length(raw_bytes@.len() as int, 16) <= usize::MAX,
    ensures
        cipher@ == encrypt_spec(
            raw_bytes@,
            key@,
            *options.block_cipher_mode,
            *options.padding,
        ),
{
    let block_size: u8 = 16;

    let schedule = key.do_key_expansion();
    let bytes: Vec<u8> = if let BlockCipherMode::CTR(nonce) = options.block_cipher_mode {
        generate_ctr_byte_stream_for_length(raw_bytes.len(), nonce)
    } else {
        match options.padding {
            Padding::PKCS7 => pkcs7_pad(raw_bytes, block_size),
            Padding::NoPadding => slice_to_vec(raw_bytes),
        }
    };
    let parts = bytes_to_parts(bytes.as_slice());

    let ghost mode = *options.block_cipher_mode;
    let ghost ws = expand_key_spec(key@);
    let ghost ps = bytes_to_parts_spec(cipher_input(raw_bytes@, mode, *options.padding));

    let mut cipher: Vec<u8> = Vec::with_capacity(raw_bytes.len());
    let mut previous_state: State = State::empty();

    for i in 0..parts.len()
        invariant
            mode == *options.block_cipher_mode,
            schedule@ == ws,
            parts_view(parts@) == ps,
            forall|k: int| 0 <= k < ps.len() ==> (#[trigger] ps[k]).len() == 16,
            cipher@ == encrypted_blocks(ps, ws, mode, i as int),
            i > 0 && mode is CBC ==> previous_state@ == encrypted_block(ps, ws, mode, i - 1),
    {
        let part = &parts[i];
        assert(part@ == ps[i as int]);
        let mut state = State::from_part(part.as_slice());
        assert(state@ =~= ps[i as int]);
        if let BlockCipherMode::CBC(iv) = options.block_cipher_mode {
            if i == 0 {
                state.xor_with_iv(iv);
            } else {
                state.xor_with_state(&previous_state);
            };
        }
        encrypt_block(&mut state, &schedule);
        assert(state@ == encrypted_block(ps, ws, mode, i as int));

        if let BlockCipherMode::CBC(_iv) = options.block_cipher_mode {
            previous_state = state.clone();
        }
        let mut block = state.to_block();
        proof {
            lemma_encrypted_blocks_grow(ps, ws, mode, i as int);
        }
        cipher.append(&mut block);
    }

    if let BlockCipherMode::CTR(_nonce) = options.block_cipher_mode {
        fixed_key_xor(raw_bytes, cipher.as_slice())
    } else {
        cipher
    }
}

/// Decrypts `cipher` under `key` in ECB or CBC mode. The padding, if the
/// message had one, stays on the result. In CTR mode there is nothing to
/// decrypt with: there, encrypting the ciphertext again gives the message.
pub fn decrypt_aes_128(cipher: &[u8], key: &Key, mode: &BlockCipherMode) -> (deciphered: Vec<u8>)
    requires
        !(mode is CTR),
    ensures
        deciphered@ == decrypt_spec(cipher@, key@, *mode),
{
    let schedule = key.do_key_expansion();
    let parts = bytes_to_parts(cipher);

    let ghost ws = expand_key_spec(key@);
    let ghost ps = bytes_to_parts_spec(cipher@);

    let mut deciphered: Vec<u8> = Vec::with_capacity(cipher.len());
    let mut previous_state = State::empty();

    for i in 0..parts.len()
        invariant
            schedule@ == ws,
            parts_view(parts@) == ps,
            forall|k: int| 0 <= k < ps.len() ==> (#[trigger] ps[k]).len() == 16,
            deciphered@ == decrypted_blocks(ps, ws, *mode, i as int),
            i > 0 && mode is CBC ==> previous_state@ == ps[i - 1],
    {
        let part = &parts[i];
        assert(part@ == ps[i as int]);
        let mut state = State::from_part(part.as_slice());
        assert(state@ =~= ps[i as int]);

        decrypt_block(&mut state, &schedule);

        if let BlockCipherMode::CBC(iv) = mode {
            if i == 0 {
                state.xor_with_iv(iv);
            } else {
                state.xor_with_state(&previous_state);
            };
            previous_state = State::from_part(part.as_slice());
            assert(previous_state@ =~= ps[i as int]);
        }
        assert(state@ == decrypted_block(ps, ws, *mode, i as int));

        let mut block = state.to_block();
        proof {
            lemma_decrypted_blocks_grow(ps, ws, *mode, i as int);
        }
        deciphered.append(&mut block);
    }

    deciphered
}

/// Decrypts `cipher` under `key` as [`decrypt_aes_128`] does, and refuses CTR
/// mode in place of asking the caller to rule it out.
pub fn try_decrypt_aes_128(cipher: &[u8], key: &Key, mode: &BlockCipherMode) -> (outcome: Result<
    Vec<u8>,
    DecryptionError,
>)
    ensures
        mode is CTR ==> outcome == Err::<Vec<u8>, DecryptionError>(
            DecryptionError::InvalidModeForOperation,
        ),
        !(mode is CTR) ==> outcome is Ok && outcome->Ok_0@ == decrypt_spec(cipher@, key@, *mode),
{
    if let BlockCipherMode::CTR(_nonce) = mode {
        return Err(DecryptionError::InvalidModeForOperation);
    }
    Ok(decrypt_aes_128(cipher, key, mode))
}

} // verus!
