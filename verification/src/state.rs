//! The state of the cipher: one block of sixteen bytes, and the round
//! operations on it.
use vstd::prelude::*;
use vstd::std_specs::cmp::PartialEqSpecImpl;
use crate::constants::{INVERSE_S_BOX, S_BOX};
use crate::math::{gf_mul, multiply_in_g};
use crate::Iv;

verus! {

/// Four columns of four bytes laid out as one block: byte `i` is
/// `data[i / 4][i % 4]`.
pub open spec fn columns_block(data: [[u8; 4]; 4]) -> Seq<u8> {
    Seq::new(16, |i: int| data[i / 4][i % 4])
}

/// Four borrowed columns laid out as one block.
pub open spec fn borrowed_columns_block(data: [&[u8; 4]; 4]) -> Seq<u8> {
    Seq::new(16, |i: int| data[i / 4][i % 4])
}

/// The bytewise XOR of two blocks.
pub open spec fn xor_block(a: Seq<u8>, b: Seq<u8>) -> Seq<u8> {
    Seq::new(16, |i: int| a[i] ^ b[i])
}

/// The four words of a round key laid out as one block.
pub open spec fn round_key_block(words: Seq<[u8; 4]>) -> Seq<u8> {
    Seq::new(16, |i: int| words[i / 4][i % 4])
}

/// The block with every byte replaced through a table of 256 bytes.
pub open spec fn substitute_block(s: Seq<u8>, table: Seq<u8>) -> Seq<u8> {
    Seq::new(16, |i: int| table[s[i] as int])
}

/// SubBytes on a block.
pub open spec fn sub_bytes_spec(s: Seq<u8>) -> Seq<u8> {
    substitute_block(s, S_BOX@)
}

/// InvSubBytes on a block.
pub open spec fn inv_sub_bytes_spec(s: Seq<u8>) -> Seq<u8> {
    substitute_block(s, INVERSE_S_BOX@)
}

/// ShiftRows on a block: row `r` of the state, the bytes at `r`, `r + 4`,
/// `r + 8` and `r + 12`, moves left by `r` places.
pub open spec fn shift_rows_spec(s: Seq<u8>) -> Seq<u8> {
    Seq::new(16, |i: int| s[(i + 4 * (i % 4)) % 16])
}

/// InvShiftRows on a block: row `r` of the state moves right by `r` places.
pub open spec fn inv_shift_rows_spec(s: Seq<u8>) -> Seq<u8> {
    Seq::new(16, |i: int| s[(i + 12 * (i % 4)) % 16])
}

/// Row `r` of a four-by-four matrix times the column that starts at byte
/// `4 * c` of the block, in GF(2^8).
pub open spec fn matrix_row_times_column(m: Seq<Seq<u8>>, r: int, s: Seq<u8>, c: int) -> u8 {
    gf_mul(m[r][0], s[4 * c]) ^ gf_mul(m[r][1], s[4 * c + 1]) ^ gf_mul(m[r][2], s[4 * c + 2])
        ^ gf_mul(m[r][3], s[4 * c + 3])
}

/// Every column of the block replaced by its product with the matrix `m`.
pub open spec fn mix_columns_with(m: Seq<Seq<u8>>, s: Seq<u8>) -> Seq<u8> {
    Seq::new(16, |i: int| matrix_row_times_column(m, i % 4, s, i / 4))
}

/// The matrix of MixColumns.
pub open spec fn mix_matrix() -> Seq<Seq<u8>> {
    seq![
        seq![0x02u8, 0x03u8, 0x01u8, 0x01u8],
        seq![0x01u8, 0x02u8, 0x03u8, 0x01u8],
        seq![0x01u8, 0x01u8, 0x02u8, 0x03u8],
        seq![0x03u8, 0x01u8, 0x01u8, 0x02u8],
    ]
}

/// The matrix of InvMixColumns.
pub open spec fn inv_mix_matrix() -> Seq<Seq<u8>> {
    seq![
        seq![0x0eu8, 0x0bu8, 0x0du8, 0x09u8],
        seq![0x09u8, 0x0eu8, 0x0bu8, 0x0du8],
        seq![0x0du8, 0x09u8, 0x0eu8, 0x0bu8],
        seq![0x0bu8, 0x0du8, 0x09u8, 0x0eu8],
    ]
}

/// MixColumns on a block.
pub open spec fn mix_columns_spec(s: Seq<u8>) -> Seq<u8> {
    mix_columns_with(mix_matrix(), s)
}

/// InvMixColumns on a block.
pub open spec fn inv_mix_columns_spec(s: Seq<u8>) -> Seq<u8> {
    mix_columns_with(inv_mix_matrix(), s)
}

/// The rows of a matrix handed over as slices.
pub open spec fn matrix_rows(m: &[&[u8]]) -> Seq<Seq<u8>> {
    Seq::new(m@.len(), |r: int| m@[r]@)
}

/// One block in the cipher's working form. `data[c]` is column `c` of the
/// state, so that `data[c][r]` is byte `4 * c + r` of the block.
#[derive(Debug)]
pub struct State {
    pub data: [[u8; 4]; 4],
}

impl View for State {
    type V = Seq<u8>;

    /// The sixteen bytes of the state in block order.
    open spec fn view(&self) -> Seq<u8> {
        columns_block(self.data)
    }
}

impl PartialEq for State {
    /// Two states are equal when their sixteen bytes are.
    fn eq(&self, other: &Self) -> (equal: bool) {
        let mut equal: bool = true;
        for c in 0..4usize
            invariant
                equal <==> forall|i: int, j: int|
                    0 <= i < c && 0 <= j < 4 ==> self.data[i][j] == other.data[i][j],
        {
            for r in 0..4usize
                invariant
                    0 <= c < 4,
                    equal <==> (forall|i: int, j: int|
                        0 <= i < c && 0 <= j < 4 ==> self.data[i][j] == other.data[i][j])
                        && (forall|j: int|
                        0 <= j < r ==> self.data[c as int][j] == other.data[c as int][j]),
            {
                if self.data[c][r] != other.data[c][r] {
                    equal = false;
                }
            }
        }
        proof {
            if equal {
                assert forall|i: int| 0 <= i < 4 implies self.data[i] == other.data[i] by {
                    assert(self.data[i] =~= other.data[i]);
                }
                assert(self.data =~= other.data);
            }
        }
        equal
    }
}

impl PartialEqSpecImpl for State {
    open spec fn obeys_eq_spec() -> bool {
        true
    }

    open spec fn eq_spec(&self, other: &Self) -> bool {
        self.data == other.data
    }
}

impl Clone for State {
    fn clone(&self) -> (copy: Self)
        ensures
            copy == *self,
    {
        State { data: self.data }
    }
}

impl State {
    /// The state that holds the first sixteen bytes of `part`.
    pub fn from_part(part: &[u8]) -> (state: State)
        requires
            part@.len() >= 16,
        ensures
            state@ == part@.subrange(0, 16),
    {
        let mut state = State::empty();
        for r in 0..4usize
            invariant
                part@.len() >= 16,
                forall|i: int, j: int|
                    0 <= i < 4 && 0 <= j < r ==> state.data[i][j] == part@[j + 4 * i],
        {
            for c in 0..4usize
                invariant
                    part@.len() >= 16,
                    0 <= r < 4,
                    forall|i: int, j: int|
                        0 <= i < 4 && 0 <= j < r ==> state.data[i][j] == part@[j + 4 * i],
                    forall|i: int| 0 <= i < c ==> state.data[i][r as int] == part@[r + 4 * i],
            {
                state.data[c][r] = part[r + 4 * c];
            }
        }
        assert(state@ =~= part@.subrange(0, 16));
        state
    }

    /// The state of sixteen zero bytes.
    pub fn empty() -> (state: State)
        ensures
            state@ == Seq::new(16, |i: int| 0u8),
    {
        let state = State { data: [[0u8; 4]; 4] };
        assert(state@ =~= Seq::new(16, |i: int| 0u8));
        state
    }

    /// The sixteen bytes of the state in block order.
    pub fn to_block(&self) -> (out: Vec<u8>)
        ensures
            out@ == self@,
    {
        let mut out: Vec<u8> = vec![0u8; 16];
        for r in 0..4usize
            invariant
                out@.len() == 16,
                forall|i: int, j: int|
                    0 <= i < 4 && 0 <= j < r ==> out@[j + 4 * i] == self.data[i][j],
        {
            for c in 0..4usize
                invariant
                    out@.len() == 16,
                    0 <= r < 4,
                    forall|i: int, j: int|
                        0 <= i < 4 && 0 <= j < r ==> out@[j + 4 * i] == self.data[i][j],
                    forall|i: int| 0 <= i < c ==> out@[r + 4 * i] == self.data[i][r as int],
            {
                out[r + 4 * c] = self.data[c][r];
            }
        }
        assert(out@ =~= self@);
        out
    }

    /// XORs the other state into this one, byte by byte.
    pub fn xor_with_state(&mut self, other: &State)
        ensures
            final(self)@ == xor_block(old(self)@, other@),
    {
        self.xor(&[&other.data[0], &other.data[1], &other.data[2], &other.data[3]]);
        assert(final(self)@ =~= xor_block(old(self)@, other@));
    }

    /// XORs four columns into the state, byte by byte.
    pub fn xor(&mut self, data: &[&[u8; 4]; 4])
        ensures
            final(self)@ == xor_block(old(self)@, borrowed_columns_block(*data)),
    {
        for r in 0..4usize
            invariant
                forall|i: int, j: int|
                    0 <= i < r && 0 <= j < 4 ==> self.data[i][j] == old(self).data[i][j]
                        ^ data[i][j],
                forall|i: int, j: int|
                    r <= i < 4 && 0 <= j < 4 ==> self.data[i][j] == old(self).data[i][j],
        {
            for c in 0..4usize
                invariant
                    0 <= r < 4,
                    forall|i: int, j: int|
                        0 <= i < r && 0 <= j < 4 ==> self.data[i][j] == old(self).data[i][j]
                            ^ data[i][j],
                    forall|i: int, j: int|
                        r < i < 4 && 0 <= j < 4 ==> self.data[i][j] == old(self).data[i][j],
                    forall|j: int|
                        0 <= j < c ==> self.data[r as int][j] == old(self).data[r as int][j]
                            ^ data[r as int][j],
                    forall|j: int|
                        c <= j < 4 ==> self.data[r as int][j] == old(self).data[r as int][j],
            {
                self.data[r][c] ^= data[r][c];
            }
        }
        assert(self@ =~= xor_block(old(self)@, borrowed_columns_block(*data)));
    }

    /// XORs the initialization vector into the state, byte by byte.
    pub fn xor_with_iv(&mut self, iv: &Iv)
        ensures
            final(self)@ == xor_block(old(self)@, iv@),
    {
        for r in 0..4usize
            invariant
                forall|i: int, j: int|
                    0 <= i < r && 0 <= j < 4 ==> self.data[i][j] == old(self).data[i][j]
                        ^ iv.0[i][j],
                forall|i: int, j: int|
                    r <= i < 4 && 0 <= j < 4 ==> self.data[i][j] == old(self).data[i][j],
        {
            for c in 0..4usize
                invariant
                    0 <= r < 4,
                    forall|i: int, j: int|
                        0 <= i < r && 0 <= j < 4 ==> self.data[i][j] == old(self).data[i][j]
                            ^ iv.0[i][j],
                    forall|i: int, j: int|
                        r < i < 4 && 0 <= j < 4 ==> self.data[i][j] == old(self).data[i][j],
                    forall|j: int|
                        0 <= j < c ==> self.data[r as int][j] == old(self).data[r as int][j]
                            ^ iv.0[r as int][j],
                    forall|j: int|
                        c <= j < 4 ==> self.data[r as int][j] == old(self).data[r as int][j],
            {
                self.data[r][c] ^= iv.0[r][c];
            }
        }
        assert(self@ =~= xor_block(old(self)@, iv@));
    }

    /// AddRoundKey: XORs the first four words of `round_key` into the four
    /// columns of the state.
    pub fn add_round_key(&mut self, round_key: &[[u8; 4]])
        requires
            round_key@.len() >= 4,
        ensures
            final(self)@ == xor_block(old(self)@, round_key_block(round_key@)),
    {
        self.xor(&[&round_key[0], &round_key[1], &round_key[2], &round_key[3]]);
        assert(final(self)@ =~= xor_block(old(self)@, round_key_block(round_key@)));
    }

    /// SubBytes: replaces every byte of the state through the substitution
    /// table.
    pub fn sub_bytes(&mut self)
        ensures
            final(self)@ == sub_bytes_spec(old(self)@),
    {
        self.sub_bytes_with_box(&S_BOX)
    }

    /// InvSubBytes: replaces every byte of the state through the inverse
    /// substitution table.
    pub fn inv_sub_bytes(&mut self)
        ensures
            final(self)@ == inv_sub_bytes_spec(old(self)@),
    {
        self.sub_bytes_with_box(&INVERSE_S_BOX)
    }

    /// Replaces every byte of the state by the entry of the table that the byte
    /// indexes.
    pub fn sub_bytes_with_box(&mut self, substitution_box: &[u8; 256])
        ensures
            final(self)@ == substitute_block(old(self)@, substitution_box@),
    {
        for c in 0..4usize
            invariant
                forall|i: int, j: int|
                    0 <= i < c && 0 <= j < 4 ==> self.data[i][j]
                        == substitution_box[old(self).data[i][j] as int],
                forall|i: int, j: int|
                    c <= i < 4 && 0 <= j < 4 ==> self.data[i][j] == old(self).data[i][j],
        {
            for r in 0..4usize
                invariant
                    0 <= c < 4,
                    forall|i: int, j: int|
                        0 <= i < c && 0 <= j < 4 ==> self.data[i][j]
                            == substitution_box[old(self).data[i][j] as int],
                    forall|i: int, j: int|
                        c < i < 4 && 0 <= j < 4 ==> self.data[i][j] == old(self).data[i][j],
                    forall|j: int|
                        0 <= j < r ==> self.data[c as int][j]
                            == substitution_box[old(self).data[c as int][j] as int],
                    forall|j: int|
                        r <= j < 4 ==> self.data[c as int][j] == old(self).data[c as int][j],
            {
                self.data[c][r] = substitution_box[self.data[c][r] as usize];
            }
        }
        assert(self@ =~= substitute_block(old(self)@, substitution_box@));
    }

    /// ShiftRows: moves row `r` of the state left by `r` places.
    pub fn shift_rows(&mut self)
        ensures
            final(self)@ == shift_rows_spec(old(self)@),
    {
        self.data = [
            [self.data[0][0], self.data[1][1], self.data[2][2], self.data[3][3]],
            [self.data[1][0], self.data[2][1], self.data[3][2], self.data[0][3]],
            [self.data[2][0], self.data[3][1], self.data[0][2], self.data[1][3]],
            [self.data[3][0], self.data[0][1], self.data[1][2], self.data[2][3]],
        ];
        assert(self@ =~= shift_rows_spec(old(self)@));
    }

    /// InvShiftRows: moves row `r` of the state right by `r` places.
    pub fn inv_shift_rows(&mut self)
        ensures
            final(self)@ == inv_shift_rows_spec(old(self)@),
    {
        self.data = [
            [self.data[0][0], self.data[3][1], self.data[2][2], self.data[1][3]],
            [self.data[1][0], self.data[0][1], self.data[3][2], self.data[2][3]],
            [self.data[2][0], self.data[1][1], self.data[0][2], self.data[3][3]],
            [self.data[3][0], self.data[2][1], self.data[1][2], self.data[0][3]],
        ];
        assert(self@ =~= inv_shift_rows_spec(old(self)@));
    }

    /// MixColumns: multiplies every column of the state by the fixed matrix.
    pub fn mix_columns(&mut self)
        ensures
            final(self)@ == mix_columns_spec(old(self)@),
    {
        let fixed_polynomial: &[&[u8]] = &[
            &[0x02, 0x03, 0x01, 0x01],
            &[0x01, 0x02, 0x03, 0x01],
            &[0x01, 0x01, 0x02, 0x03],
            &[0x03, 0x01, 0x01, 0x02],
        ];
        assert(matrix_rows(fixed_polynomial) =~~= mix_matrix());
        self.mix_columns_using_substitution_matrix(fixed_polynomial)
    }

    /// InvMixColumns: multiplies every column of the state by the inverse of
    /// the fixed matrix.
    pub fn inv_mix_columns(&mut self)
        ensures
            final(self)@ == inv_mix_columns_spec(old(self)@),
    {
        let fixed_polynomial: &[&[u8]] = &[
            &[0x0e, 0x0b, 0x0d, 0x09],
            &[0x09, 0x0e, 0x0b, 0x0d],
            &[0x0d, 0x09, 0x0e, 0x0b],
            &[0x0b, 0x0d, 0x09, 0x0e],
        ];
        assert(matrix_rows(fixed_polynomial) =~~= inv_mix_matrix());
        self.mix_columns_using_substitution_matrix(fixed_polynomial)
    }

    /// Replaces every column of the state by its product, in GF(2^8), with the
    /// first four rows and columns of the matrix.
    pub fn mix_columns_using_substitution_matrix(&mut self, substitution_matrix: &[&[u8]])
        requires
            substitution_matrix@.len() >= 4,
            forall|r: int| 0 <= r < 4 ==> (#[trigger] substitution_matrix@[r])@.len() >= 4,
        ensures
            final(self)@ == mix_columns_with(matrix_rows(substitution_matrix), old(self)@),
    {
        let ghost m = matrix_rows(substitution_matrix);
        let mut mixed_columns: [[u8; 4]; 4] = [[0; 4]; 4];
        for c in 0..4usize
            invariant
                *self == *old(self),
                m == matrix_rows(substitution_matrix),
                substitution_matrix@.len() >= 4,
                forall|r: int| 0 <= r < 4 ==> (#[trigger] substitution_matrix@[r])@.len() >= 4,
                forall|i: int, j: int|
                    0 <= i < c && 0 <= j < 4 ==> mixed_columns[i][j] == matrix_row_times_column(
                        m,
                        j,
                        self@,
                        i,
                    ),
        {
            for r in 0..4usize
                invariant
                    0 <= c < 4,
                    *self == *old(self),
                    m == matrix_rows(substitution_matrix),
                    substitution_matrix@.len() >= 4,
                    forall|r: int|
                        0 <= r < 4 ==> (#[trigger] substitution_matrix@[r])@.len() >= 4,
                    forall|i: int, j: int|
                        0 <= i < c && 0 <= j < 4 ==> mixed_columns[i][j]
                            == matrix_row_times_column(m, j, self@, i),
                    forall|j: int|
                        0 <= j < r ==> mixed_columns[c as int][j] == matrix_row_times_column(
                            m,
                            j,
                            self@,
                            c as int,
                        ),
            {
                let row: &[u8] = substitution_matrix[r];
                let g0: u8 = multiply_in_g(row[0], self.data[c][0]);
                let g1: u8 = multiply_in_g(row[1], self.data[c][1]);
                let g2: u8 = multiply_in_g(row[2], self.data[c][2]);
                let g3: u8 = multiply_in_g(row[3], self.data[c][3]);
                mixed_columns[c][r] = g0 ^ g1 ^ g2 ^ g3;
            }
        }
        self.data = mixed_columns;
        assert(self@ =~= mix_columns_with(m, old(self)@));
    }
}

} // verus!
