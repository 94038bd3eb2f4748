//! The cipher on one block, as a function of the block and the key schedule,
//! and the proof that the inverse cipher undoes it.
use vstd::prelude::*;
use crate::constants::{lemma_inv_sbox_of_sbox, Nb, Nr};
use crate::key::{schedule_view, KeySchedule};
use crate::math::{gf_mul, lemma_gf_mul_distributes_right, lemma_matrix_product_is_identity};
use crate::state::{
    inv_mix_columns_spec, inv_mix_matrix, inv_shift_rows_spec, inv_sub_bytes_spec,
    matrix_row_times_column, mix_columns_spec, mix_matrix, round_key_block, shift_rows_spec,
    sub_bytes_spec, xor_block, State,
};

verus! {

/// The key of round `round` as one block: words `4 * round` to
/// `4 * round + 3` of the schedule `w`.
pub open spec fn round_key(w: Seq<Seq<u8>>, round: int) -> Seq<u8> {
    Seq::new(16, |i: int| w[4 * round + i / 4][i % 4])
}

/// The state after the first round key is added and `round` full rounds
/// (SubBytes, ShiftRows, MixColumns, AddRoundKey) have been done.
pub open spec fn cipher_rounds(block: Seq<u8>, w: Seq<Seq<u8>>, round: int) -> Seq<u8>
    decreases round,
{
    if round <= 0 {
        xor_block(block, round_key(w, 0))
    } else {
        xor_block(
            mix_columns_spec(shift_rows_spec(sub_bytes_spec(cipher_rounds(block, w, round - 1)))),
            round_key(w, round),
        )
    }
}

/// The cipher: nine full rounds, and a last round without MixColumns.
pub open spec fn cipher_spec(block: Seq<u8>, w: Seq<Seq<u8>>) -> Seq<u8> {
    xor_block(shift_rows_spec(sub_bytes_spec(cipher_rounds(block, w, 9))), round_key(w, 10))
}

/// The state of the inverse cipher after the last round key is added and the
/// inverse rounds (InvShiftRows, InvSubBytes, AddRoundKey, InvMixColumns) from
/// round 9 down to `round` have been done.
pub open spec fn inv_cipher_rounds(block: Seq<u8>, w: Seq<Seq<u8>>, round: int) -> Seq<u8>
    decreases 10 - round,
{
    if round >= 10 {
        xor_block(block, round_key(w, 10))
    } else {
        inv_mix_columns_spec(
            xor_block(
                inv_sub_bytes_spec(inv_shift_rows_spec(inv_cipher_rounds(block, w, round + 1))),
                round_key(w, round),
            ),
        )
    }
}

/// The inverse cipher: nine inverse rounds, and a last one without
/// InvMixColumns.
pub open spec fn inv_cipher_spec(block: Seq<u8>, w: Seq<Seq<u8>>) -> Seq<u8> {
    xor_block(
        inv_sub_bytes_spec(inv_shift_rows_spec(inv_cipher_rounds(block, w, 1))),
        round_key(w, 0),
    )
}

/// XORing the same block in twice gives the first block back.
pub proof fn lemma_xor_block_twice(a: Seq<u8>, k: Seq<u8>)
    requires
        a.len() == 16,
    ensures
        xor_block(xor_block(a, k), k) == a,
{
    assert forall|i: int| 0 <= i < 16 implies xor_block(xor_block(a, k), k)[i] == a[i] by {
        let x = a[i];
        let y = k[i];
        assert((x ^ y) ^ y == x) by (bit_vector);
    }
    assert(xor_block(xor_block(a, k), k) =~= a);
}

/// InvSubBytes undoes SubBytes.
pub proof fn lemma_inv_sub_bytes(s: Seq<u8>)
    requires
        s.len() == 16,
    ensures
        inv_sub_bytes_spec(sub_bytes_spec(s)) == s,
{
    assert forall|i: int| 0 <= i < 16 implies inv_sub_bytes_spec(sub_bytes_spec(s))[i]
        == s[i] by {
        lemma_inv_sbox_of_sbox(s[i]);
    }
    assert(inv_sub_bytes_spec(sub_bytes_spec(s)) =~= s);
}

/// InvShiftRows undoes ShiftRows.
pub proof fn lemma_inv_shift_rows(s: Seq<u8>)
    requires
        s.len() == 16,
    ensures
        inv_shift_rows_spec(shift_rows_spec(s)) == s,
{
    assert(inv_shift_rows_spec(shift_rows_spec(s)) =~= s);
}

/// Sixteen bytes XORed row by row are the same bytes XORed column by column.
proof fn lemma_xor_rows_are_columns(
    t00: u8, t01: u8, t02: u8, t03: u8,
    t10: u8, t11: u8, t12: u8, t13: u8,
    t20: u8, t21: u8, t22: u8, t23: u8,
    t30: u8, t31: u8, t32: u8, t33: u8,
)
    by (bit_vector)
    ensures
        (t00 ^ t01 ^ t02 ^ t03) ^ (t10 ^ t11 ^ t12 ^ t13) ^ (t20 ^ t21 ^ t22 ^ t23) ^ (t30 ^ t31
            ^ t32 ^ t33) == (t00 ^ t10 ^ t20 ^ t30) ^ (t01 ^ t11 ^ t21 ^ t31) ^ (t02 ^ t12 ^ t22
            ^ t32) ^ (t03 ^ t13 ^ t23 ^ t33),
{
}

/// The product of `k` and the XOR of four bytes is the XOR of the four
/// products.
proof fn lemma_gf_mul_over_four(k: u8, p: u8, q: u8, r: u8, s: u8)
    ensures
        gf_mul(k, p ^ q ^ r ^ s) == gf_mul(k, p) ^ gf_mul(k, q) ^ gf_mul(k, r) ^ gf_mul(k, s),
{
    lemma_gf_mul_distributes_right(k, p ^ q ^ r, s);
    lemma_gf_mul_distributes_right(k, p ^ q, r);
    lemma_gf_mul_distributes_right(k, p, q);
}

/// Byte `r` of the column that MixColumns makes of the column `a`, `b`, `c`,
/// `d`.
spec fn mixed_byte(r: int, a: u8, b: u8, c: u8, d: u8) -> u8 {
    gf_mul(mix_matrix()[r][0], a) ^ gf_mul(mix_matrix()[r][1], b) ^ gf_mul(mix_matrix()[r][2], c)
        ^ gf_mul(mix_matrix()[r][3], d)
}

/// Byte `r` of the column that InvMixColumns makes of the column `a`, `b`,
/// `c`, `d`.
spec fn inv_mixed_byte(r: int, a: u8, b: u8, c: u8, d: u8) -> u8 {
    gf_mul(inv_mix_matrix()[r][0], a) ^ gf_mul(inv_mix_matrix()[r][1], b) ^ gf_mul(
        inv_mix_matrix()[r][2],
        c,
    ) ^ gf_mul(inv_mix_matrix()[r][3], d)
}

/// A row `k0`, `k1`, `k2`, `k3` times the column that MixColumns makes of `a`,
/// `b`, `c`, `d`, sorted by the byte of the column that each product holds.
proof fn lemma_row_times_mixed_column(k0: u8, k1: u8, k2: u8, k3: u8, a: u8, b: u8, c: u8, d: u8)
    ensures
        gf_mul(k0, mixed_byte(0, a, b, c, d)) ^ gf_mul(k1, mixed_byte(1, a, b, c, d)) ^ gf_mul(
            k2,
            mixed_byte(2, a, b, c, d),
        ) ^ gf_mul(k3, mixed_byte(3, a, b, c, d)) == (gf_mul(k0, gf_mul(0x02, a)) ^ gf_mul(
            k1,
            gf_mul(0x01, a),
        ) ^ gf_mul(k2, gf_mul(0x01, a)) ^ gf_mul(k3, gf_mul(0x03, a))) ^ (gf_mul(
            k0,
            gf_mul(0x03, b),
        ) ^ gf_mul(k1, gf_mul(0x02, b)) ^ gf_mul(k2, gf_mul(0x01, b)) ^ gf_mul(
            k3,
            gf_mul(0x01, b),
        )) ^ (gf_mul(k0, gf_mul(0x01, c)) ^ gf_mul(k1, gf_mul(0x03, c)) ^ gf_mul(
            k2,
            gf_mul(0x02, c),
        ) ^ gf_mul(k3, gf_mul(0x01, c))) ^ (gf_mul(k0, gf_mul(0x01, d)) ^ gf_mul(
            k1,
            gf_mul(0x01, d),
        ) ^ gf_mul(k2, gf_mul(0x03, d)) ^ gf_mul(k3, gf_mul(0x02, d))),
{
    lemma_mixed_bytes(a, b, c, d);
    lemma_gf_mul_over_four(k0, gf_mul(0x02, a), gf_mul(0x03, b), gf_mul(0x01, c), gf_mul(0x01, d));
    lemma_gf_mul_over_four(k1, gf_mul(0x01, a), gf_mul(0x02, b), gf_mul(0x03, c), gf_mul(0x01, d));
    lemma_gf_mul_over_four(k2, gf_mul(0x01, a), gf_mul(0x01, b), gf_mul(0x02, c), gf_mul(0x03, d));
    lemma_gf_mul_over_four(k3, gf_mul(0x03, a), gf_mul(0x01, b), gf_mul(0x01, c), gf_mul(0x02, d));
    lemma_xor_rows_are_columns(
        gf_mul(k0, gf_mul(0x02, a)), gf_mul(k0, gf_mul(0x03, b)), gf_mul(k0, gf_mul(0x01, c)),
        gf_mul(k0, gf_mul(0x01, d)),
        gf_mul(k1, gf_mul(0x01, a)), gf_mul(k1, gf_mul(0x02, b)), gf_mul(k1, gf_mul(0x03, c)),
        gf_mul(k1, gf_mul(0x01, d)),
        gf_mul(k2, gf_mul(0x01, a)), gf_mul(k2, gf_mul(0x01, b)), gf_mul(k2, gf_mul(0x02, c)),
        gf_mul(k2, gf_mul(0x03, d)),
        gf_mul(k3, gf_mul(0x03, a)), gf_mul(k3, gf_mul(0x01, b)), gf_mul(k3, gf_mul(0x01, c)),
        gf_mul(k3, gf_mul(0x02, d)),
    );
}

/// The bytes that MixColumns makes of a column, with the entries of the
/// matrix written out.
proof fn lemma_mixed_bytes(a: u8, b: u8, c: u8, d: u8)
    ensures
        mixed_byte(0, a, b, c, d) == gf_mul(0x02, a) ^ gf_mul(0x03, b) ^ gf_mul(0x01, c) ^ gf_mul(
            0x01,
            d,
        ),
        mixed_byte(1, a, b, c, d) == gf_mul(0x01, a) ^ gf_mul(0x02, b) ^ gf_mul(0x03, c) ^ gf_mul(
            0x01,
            d,
        ),
        mixed_byte(2, a, b, c, d) == gf_mul(0x01, a) ^ gf_mul(0x01, b) ^ gf_mul(0x02, c) ^ gf_mul(
            0x03,
            d,
        ),
        mixed_byte(3, a, b, c, d) == gf_mul(0x03, a) ^ gf_mul(0x01, b) ^ gf_mul(0x01, c) ^ gf_mul(
            0x02,
            d,
        ),
{
}

/// The bytes that InvMixColumns makes of a column, with the entries of the
/// matrix written out.
proof fn lemma_inv_mixed_bytes(a: u8, b: u8, c: u8, d: u8)
    ensures
        inv_mixed_byte(0, a, b, c, d) == gf_mul(0x0e, a) ^ gf_mul(0x0b, b) ^ gf_mul(0x0d, c)
            ^ gf_mul(0x09, d),
        inv_mixed_byte(1, a, b, c, d) == gf_mul(0x09, a) ^ gf_mul(0x0e, b) ^ gf_mul(0x0b, c)
            ^ gf_mul(0x0d, d),
        inv_mixed_byte(2, a, b, c, d) == gf_mul(0x0d, a) ^ gf_mul(0x09, b) ^ gf_mul(0x0e, c)
            ^ gf_mul(0x0b, d),
        inv_mixed_byte(3, a, b, c, d) == gf_mul(0x0b, a) ^ gf_mul(0x0d, b) ^ gf_mul(0x09, c)
            ^ gf_mul(0x0e, d),
{
}

/// The column that MixColumns makes of `a`, `b`, `c`, `d`, as a sequence.
spec fn mixed_column(a: u8, b: u8, c: u8, d: u8) -> Seq<u8> {
    seq![
        mixed_byte(0, a, b, c, d),
        mixed_byte(1, a, b, c, d),
        mixed_byte(2, a, b, c, d),
        mixed_byte(3, a, b, c, d),
    ]
}

/// The column that InvMixColumns makes of `a`, `b`, `c`, `d`, as a sequence.
spec fn inv_mixed_column(a: u8, b: u8, c: u8, d: u8) -> Seq<u8> {
    seq![
        inv_mixed_byte(0, a, b, c, d),
        inv_mixed_byte(1, a, b, c, d),
        inv_mixed_byte(2, a, b, c, d),
        inv_mixed_byte(3, a, b, c, d),
    ]
}

/// InvMixColumns undoes MixColumns on the column `a`, `b`, `c`, `d`.
proof fn lemma_inv_mix_column(a: u8, b: u8, c: u8, d: u8)
    ensures
        ({
            let m = mixed_column(a, b, c, d);
            inv_mixed_column(m[0], m[1], m[2], m[3]) == seq![a, b, c, d]
        }),
{
    let m0 = mixed_byte(0, a, b, c, d);
    let m1 = mixed_byte(1, a, b, c, d);
    let m2 = mixed_byte(2, a, b, c, d);
    let m3 = mixed_byte(3, a, b, c, d);
    lemma_inv_mixed_bytes(m0, m1, m2, m3);
    assert(a ^ 0u8 ^ 0u8 ^ 0u8 == a && 0u8 ^ b ^ 0u8 ^ 0u8 == b && 0u8 ^ 0u8 ^ c ^ 0u8 == c && 0u8
        ^ 0u8 ^ 0u8 ^ d == d) by (bit_vector);
    assert(inv_mixed_byte(0, m0, m1, m2, m3) == a) by {
        lemma_matrix_product_is_identity(a);
        lemma_matrix_product_is_identity(b);
        lemma_matrix_product_is_identity(c);
        lemma_matrix_product_is_identity(d);
        lemma_row_times_mixed_column(0x0e, 0x0b, 0x0d, 0x09, a, b, c, d);
    }
    assert(inv_mixed_byte(1, m0, m1, m2, m3) == b) by {
        lemma_matrix_product_is_identity(a);
        lemma_matrix_product_is_identity(b);
        lemma_matrix_product_is_identity(c);
        lemma_matrix_product_is_identity(d);
        lemma_row_times_mixed_column(0x09, 0x0e, 0x0b, 0x0d, a, b, c, d);
    }
    assert(inv_mixed_byte(2, m0, m1, m2, m3) == c) by {
        lemma_matrix_product_is_identity(a);
        lemma_matrix_product_is_identity(b);
        lemma_matrix_product_is_identity(c);
        lemma_matrix_product_is_identity(d);
        lemma_row_times_mixed_column(0x0d, 0x09, 0x0e, 0x0b, a, b, c, d);
    }
    assert(inv_mixed_byte(3, m0, m1, m2, m3) == d) by {
        lemma_matrix_product_is_identity(a);
        lemma_matrix_product_is_identity(b);
        lemma_matrix_product_is_identity(c);
        lemma_matrix_product_is_identity(d);
        lemma_row_times_mixed_column(0x0b, 0x0d, 0x09, 0x0e, a, b, c, d);
    }
    let m = mixed_column(a, b, c, d);
    assert(inv_mixed_column(m[0], m[1], m[2], m[3]) =~= seq![a, b, c, d]);
}

/// A column of four bytes times the matrix `m`, in GF(2^8).
pub open spec fn mix_column_with(m: Seq<Seq<u8>>, column: Seq<u8>) -> Seq<u8> {
    Seq::new(4, |r: int| matrix_row_times_column(m, r, column, 0))
}

/// On any column of four bytes, MixColumns followed by InvMixColumns is the
/// identity.
pub proof fn lemma_inv_mix_column_of_mix_column(column: Seq<u8>)
    requires
        column.len() == 4,
    ensures
        mix_column_with(inv_mix_matrix(), mix_column_with(mix_matrix(), column)) == column,
{
    let (a, b, c, d) = (column[0], column[1], column[2], column[3]);
    lemma_inv_mix_column(a, b, c, d);
    let m = mixed_column(a, b, c, d);
    let mixed = mix_column_with(mix_matrix(), column);
    assert(mixed[0] == m[0] && mixed[1] == m[1] && mixed[2] == m[2] && mixed[3] == m[3]);
    let back = mix_column_with(inv_mix_matrix(), mixed);
    assert forall|r: int| 0 <= r < 4 implies back[r] == column[r] by {
        assert(back[r] == inv_mixed_column(m[0], m[1], m[2], m[3])[r]);
        assert(seq![a, b, c, d][r] == column[r]);
    }
    assert(back =~= column);
}

/// InvMixColumns undoes MixColumns on a whole block.
pub proof fn lemma_inv_mix_columns(s: Seq<u8>)
    requires
        s.len() == 16,
    ensures
        inv_mix_columns_spec(mix_columns_spec(s)) == s,
{
    assert forall|i: int| 0 <= i < 16 implies inv_mix_columns_spec(mix_columns_spec(s))[i]
        == s[i] by {
        let c = i / 4;
        let (p, q, r, t) = (s[4 * c], s[4 * c + 1], s[4 * c + 2], s[4 * c + 3]);
        lemma_inv_mix_column(p, q, r, t);
        let m = mixed_column(p, q, r, t);
        let mixed = mix_columns_spec(s);
        assert(mixed[4 * c] == m[0] && mixed[4 * c + 1] == m[1] && mixed[4 * c + 2] == m[2]
            && mixed[4 * c + 3] == m[3]);
        assert(inv_mix_columns_spec(mixed)[i] == inv_mixed_column(m[0], m[1], m[2], m[3])[i % 4]);
        assert(seq![p, q, r, t][i % 4] == s[i]);
    }
    assert(inv_mix_columns_spec(mix_columns_spec(s)) =~= s);
}

/// From the ciphertext of `block`, the inverse rounds down to `round` lead
/// back to the state that the cipher had before the MixColumns of that round
/// (before the last AddRoundKey, for round 10).
proof fn lemma_inv_cipher_rounds(block: Seq<u8>, w: Seq<Seq<u8>>, round: int)
    requires
        block.len() == 16,
        1 <= round <= 10,
    ensures
        inv_cipher_rounds(cipher_spec(block, w), w, round) == shift_rows_spec(
            sub_bytes_spec(cipher_rounds(block, w, round - 1)),
        ),
    decreases 10 - round,
{
    let before = shift_rows_spec(sub_bytes_spec(cipher_rounds(block, w, round - 1)));
    if round == 10 {
        lemma_xor_block_twice(before, round_key(w, 10));
    } else {
        lemma_inv_cipher_rounds(block, w, round + 1);
        let after = cipher_rounds(block, w, round);
        lemma_inv_shift_rows(sub_bytes_spec(after));
        lemma_inv_sub_bytes(after);
        lemma_xor_block_twice(mix_columns_spec(before), round_key(w, round));
        lemma_inv_mix_columns(before);
    }
}

/// The inverse cipher undoes the cipher, on every block and with every key
/// schedule.
pub proof fn lemma_inv_cipher_of_cipher(block: Seq<u8>, w: Seq<Seq<u8>>)
    requires
        block.len() == 16,
    ensures
        inv_cipher_spec(cipher_spec(block, w), w) == block,
{
    lemma_inv_cipher_rounds(block, w, 1);
    let first = cipher_rounds(block, w, 0);
    lemma_inv_shift_rows(sub_bytes_spec(first));
    lemma_inv_sub_bytes(first);
    lemma_xor_block_twice(block, round_key(w, 0));
}

/// The four words of the schedule from word `4 * round` on are the key of
/// round `round`.
pub proof fn lemma_round_key_words(w: [[u8; 4]; 44], round: int)
    requires
        0 <= round <= 10,
    ensures
        round_key_block(w@.subrange(4 * round, 4 * round + 4)) == round_key(
            schedule_view(w),
            round,
        ),
{
    assert(round_key_block(w@.subrange(4 * round, 4 * round + 4)) =~= round_key(
        schedule_view(w),
        round,
    ));
}

/// Encrypts the block in `state` with the round keys of `schedule`: the first
/// round key, nine full rounds, and a last round without MixColumns.
pub fn encrypt_block(state: &mut State, schedule: &KeySchedule)
    ensures
        final(state)@ == cipher_spec(old(state)@, schedule@),
{
    let w = &schedule.0;
    let ghost ws = schedule@;
    let ghost start = state@;

    proof {
        lemma_round_key_words(*w, 0);
    }
    state.add_round_key(&w[0..Nb]);

    for round in 1..Nr
        invariant
            schedule_view(*w) == ws,
            state@ == cipher_rounds(start, ws, round - 1),
    {
        state.sub_bytes();
        state.shift_rows();
        state.mix_columns();
        proof {
            lemma_round_key_words(*w, round as int);
        }
        state.add_round_key(&w[round * Nb..(round + 1) * Nb]);
    }

    state.sub_bytes();
    state.shift_rows();
    proof {
        lemma_round_key_words(*w, 10);
    }
    state.add_round_key(&w[Nr * Nb..(Nr + 1) * Nb]);
}

/// Decrypts the block in `state` with the round keys of `schedule`: the last
/// round key, nine inverse rounds from the ninth down to the first, and a last
/// one without InvMixColumns.
pub fn decrypt_block(state: &mut State, schedule: &KeySchedule)
    ensures
        final(state)@ == inv_cipher_spec(old(state)@, schedule@),
{
    let w = &schedule.0;
    let ghost ws = schedule@;
    let ghost start = state@;

    proof {
        lemma_round_key_words(*w, 10);
    }
    state.add_round_key(&w[Nr * Nb..(Nr + 1) * Nb]);

    let mut round: usize = Nr - 1;
    while round >= 1
        invariant
            round <= 9,
            schedule_view(*w) == ws,
            state@ == inv_cipher_rounds(start, ws, round + 1),
        decreases round,
    {
        state.inv_shift_rows();
        state.inv_sub_bytes();
        proof {
            lemma_round_key_words(*w, round as int);
        }
        state.add_round_key(&w[round * Nb..(round + 1) * Nb]);
        state.inv_mix_columns();
        round -= 1;
    }

    state.inv_shift_rows();
    state.inv_sub_bytes();
    proof {
        lemma_round_key_words(*w, 0);
    }
    state.add_round_key(&w[0..Nb]);
}

} // verus!
