//! PKCS7 padding: adding it, checking it and taking it off.
use vstd::prelude::*;
use vstd::slice::slice_to_vec;

verus! {

/// How a message is brought to whole blocks before it is encrypted.
#[derive(PartialEq, Debug)]
pub enum Padding {
    /// PKCS7 padding is added to the message.
    PKCS7,
    /// Nothing is added; a last block that is not full is filled with zero
    /// bytes.
    NoPadding,
}

/// Why a byte string is not a PKCS7-padded one.
#[derive(PartialEq, Eq, Debug, Clone, Copy)]
pub enum PaddingError {
    /// The last byte cannot be a padding length: it is zero, larger than the
    /// block size or larger than the whole string, or there is no last byte.
    InvalidLastPaddingByte,
    /// The last byte is a possible padding length, but the bytes it counts do
    /// not all hold it.
    InconsistentPadding,
}

/// The number of bytes that PKCS7 adds to `len` bytes for blocks of
/// `block_size`: what is missing to the next multiple of the block size, and a
/// whole block where nothing is missing.
pub open spec fn pkcs7_pad_length(len: int, block_size: int) -> int {
    block_size - len % block_size
}

/// The bytes followed by their PKCS7 padding: as many bytes as the padding is
/// long, each holding that length.
pub open spec fn pkcs7_pad_spec(bytes: Seq<u8>, block_size: u8) -> Seq<u8> {
    let pad_length = pkcs7_pad_length(bytes.len() as int, block_size as int);
    bytes + Seq::new(pad_length as nat, |i: int| pad_length as u8)
}

/// Whether the last byte of `bytes` cannot be the length of a padding for
/// blocks of `block_size`.
pub open spec fn invalid_last_padding_byte(bytes: Seq<u8>, block_size: u8) -> bool {
    bytes.len() == 0 || bytes.last() == 0 || bytes.last() > block_size || bytes.last()
        > bytes.len()
}

/// Whether the last `bytes.last()` bytes of `bytes` all hold that number.
pub open spec fn consistent_padding(bytes: Seq<u8>) -> bool {
    forall|i: int| bytes.len() - bytes.last() <= i < bytes.len() ==> bytes[i] == bytes.last()
}

/// The verdict on `bytes` as a PKCS7-padded string for blocks of `block_size`.
pub open spec fn validate_pkcs7_spec(bytes: Seq<u8>, block_size: u8) -> Result<
    (),
    PaddingError,
> {
    if invalid_last_padding_byte(bytes, block_size) {
        Err(PaddingError::InvalidLastPaddingByte)
    } else if !consistent_padding(bytes) {
        Err(PaddingError::InconsistentPadding)
    } else {
        Ok(())
    }
}

/// The bytes without as many of their last bytes as the last byte says.
pub open spec fn remove_pkcs7_spec(bytes: Seq<u8>) -> Seq<u8> {
    bytes.subrange(0, bytes.len() - bytes.last())
}

/// Pads `bytes` to a multiple of `block_size` with PKCS7 padding. Bytes that
/// already fill whole blocks get a whole block of padding.
pub fn pkcs7_pad(bytes: &[u8], block_size: u8) -> (padded: Vec<u8>)
    requires
        block_size > 0,
        bytes@.len() + pkcs7_pad_length(bytes@.len() as int, block_size as int) <= usize::MAX,
    ensures
        padded@ == pkcs7_pad_spec(bytes@, block_size),
{
    let remainder: usize = bytes.len() % (block_size as usize);
    let pad_length: u8 = block_size - (remainder as u8);

    let mut padded: Vec<u8> = slice_to_vec(bytes);
    let mut i: u8 = 0;
    while i < pad_length
        invariant
            i <= pad_length,
            pad_length == pkcs7_pad_length(bytes@.len() as int, block_size as int),
            bytes@.len() + pad_length <= usize::MAX,
            pad_length <= block_size,
            padded@.len() == bytes@.len() + i,
            forall|j: int| 0 <= j < bytes@.len() ==> padded@[j] == bytes@[j],
            forall|j: int| bytes@.len() <= j < padded@.len() ==> padded@[j] == pad_length,
        decreases pad_length - i,
    {
        padded.push(pad_length);
        i += 1;
    }
    assert(padded@ =~= pkcs7_pad_spec(bytes@, block_size));
    padded
}

/// Checks that `bytes` ends in a PKCS7 padding for blocks of `block_size`.
pub fn validate_pkcs7(bytes: &[u8], block_size: u8) -> (verdict: Result<(), PaddingError>)
    ensures
        verdict == validate_pkcs7_spec(bytes@, block_size),
{
    let len: usize = bytes.len();
    if len == 0 {
        return Err(PaddingError::InvalidLastPaddingByte);
    }
    let last: u8 = bytes[len - 1];
    if last == 0 || last > block_size || (last as usize) > len {
        return Err(PaddingError::InvalidLastPaddingByte);
    }
    let start: usize = len - (last as usize);
    let mut i: usize = start;
    while i < len
        invariant
            start <= i <= len,
            len == bytes@.len(),
            len > 0,
            last == bytes@.last(),
            start == len - last,
            !invalid_last_padding_byte(bytes@, block_size),
            forall|j: int| start <= j < i ==> bytes@[j] == last,
        decreases len - i,
    {
        if bytes[i] != last {
            assert(!consistent_padding(bytes@)) by {
                assert(bytes@[i as int] != bytes@.last());
            }
            return Err(PaddingError::InconsistentPadding);
        }
        i += 1;
    }
    Ok(())
}

/// Takes the PKCS7 padding off `bytes`: drops as many bytes from the end as
/// the last byte says. It does not check the padding; that is
/// [`validate_pkcs7`]'s part.
pub fn remove_pkcs7(bytes: &[u8]) -> (unpadded: Vec<u8>)
    requires
        bytes@.len() > 0,
        bytes@.last() <= bytes@.len(),
    ensures
        unpadded@ == remove_pkcs7_spec(bytes@),
{
    let len: usize = bytes.len();
    let last: u8 = bytes[len - 1];
    slice_to_vec(&bytes[0..len - (last as usize)])
}

/// Padding and then taking the padding off gives the bytes back, and what
/// padding produces passes validation.
pub proof fn lemma_pkcs7_round_trip(bytes: Seq<u8>, block_size: u8)
    requires
        block_size > 0,
    ensures
        remove_pkcs7_spec(pkcs7_pad_spec(bytes, block_size)) == bytes,
        validate_pkcs7_spec(pkcs7_pad_spec(bytes, block_size), block_size) == Ok::<
            (),
            PaddingError,
        >(()),
{
    let padded = pkcs7_pad_spec(bytes, block_size);
    let pad_length = pkcs7_pad_length(bytes.len() as int, block_size as int);
    assert(1 <= pad_length <= block_size);
    assert(padded.len() == bytes.len() + pad_length);
    assert(padded.last() == pad_length as u8);
    assert(remove_pkcs7_spec(padded) =~= bytes);
}

} // verus!
