//! The byte stream that CTR mode encrypts in place of the message.
use vstd::prelude::*;
use crate::Nonce;

verus! {

/// The length of the stream for a message of `length` bytes: `length` rounded
/// up to whole blocks of sixteen bytes.
pub open spec fn ctr_stream_len(length: int) -> int {
    if length % 16 != 0 {
        length + (16 - length % 16)
    } else {
        length
    }
}

/// The counter in block `block` of the stream, counting blocks from zero: one
/// more than the block's number, and 255 once that no longer fits in a byte.
pub open spec fn ctr_counter(block: int) -> u8 {
    if block + 1 < 255 {
        (block + 1) as u8
    } else {
        255u8
    }
}

/// Byte `i` of the stream: each block is the eight bytes of the nonce, then
/// seven zero bytes, then the block's counter.
pub open spec fn ctr_stream_byte(nonce: Seq<u8>, i: int) -> u8 {
    if i % 16 < 8 {
        nonce[i % 16]
    } else if i % 16 == 15 {
        ctr_counter(i / 16)
    } else {
        0u8
    }
}

/// The stream for a message of `length` bytes.
pub open spec fn ctr_stream(length: int, nonce: Seq<u8>) -> Seq<u8> {
    Seq::new(ctr_stream_len(length) as nat, |i: int| ctr_stream_byte(nonce, i))
}

/// Generates the stream nonce, counter, nonce, counter + 1 and so on, long
/// enough to cover `length` bytes with whole blocks. The counter takes the
/// last eight bytes of a block; it starts at one and stops growing at 255.
pub fn generate_ctr_byte_stream_for_length(length: usize, nonce: &Nonce) -> (stream: Vec<u8>)
    requires
        ctr_stream_len(length as int) <= usize::MAX,
    ensures
        stream@ == ctr_stream(length as int, nonce@),
{
    let block_size: usize = 16;
    let mut counter: u8 = 0u8;
    let byte_stream_length_padding: usize = if length % block_size != 0 {
        block_size - (length % block_size)
    } else {
        0
    };
    let total: usize = length + byte_stream_length_padding;

    let mut stream: Vec<u8> = Vec::with_capacity(total);
    let mut i: usize = 0;
    while i < total
        invariant
            block_size == 16,
            total == ctr_stream_len(length as int),
            i <= total,
            stream@.len() == i,
            i / 16 < 255 ==> counter == i / 16,
            i / 16 >= 255 ==> counter == 255,
            forall|j: int| 0 <= j < i ==> stream@[j] == ctr_stream_byte(nonce@, j),
        decreases total - i,
    {
        let byte: u8 = if (i % block_size) < nonce.len() {
            nonce[i % block_size]
        } else if block_size - (i % block_size) == 1 {
            counter += if counter < 0xff {
                1
            } else {
                0
            };

            counter
        } else {
            0u8
        };
        stream.push(byte);
        i += 1;
    }
    assert(stream@ =~= ctr_stream(length as int, nonce@));
    stream
}

} // verus!
