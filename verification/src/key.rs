//! The cipher key and its expansion into the round keys.
use vstd::prelude::*;
use vstd::slice::slice_to_vec;
use vstd::string::StringSliceAdditionalSpecFns;
use crate::constants::{Nk, Rcon};
use crate::math::xtime;
use crate::word::{rot_word, rot_word_spec, sub_word, sub_word_spec};
use crate::xor::{fixed_key_xor, fixed_key_xor_spec};

verus! {

/// A cipher key of sixteen bytes.
#[derive(PartialEq, Debug)]
pub struct Key(pub [u8; 16]);

/// The forty-four words of the expanded key: words `4 * n` to `4 * n + 3` are
/// the round key of round `n`.
pub struct KeySchedule(pub [[u8; 4]; 44]);

impl View for Key {
    type V = Seq<u8>;

    /// The sixteen bytes of the key.
    open spec fn view(&self) -> Seq<u8> {
        self.0@
    }
}

/// Forty-four words, each as its four bytes.
pub open spec fn schedule_view(w: [[u8; 4]; 44]) -> Seq<Seq<u8>> {
    Seq::new(44, |i: int| w[i]@)
}

impl View for KeySchedule {
    type V = Seq<Seq<u8>>;

    /// The forty-four words of the schedule, each as its four bytes.
    open spec fn view(&self) -> Seq<Seq<u8>> {
        schedule_view(self.0)
    }
}

/// The bytewise XOR of two four-byte words.
pub open spec fn xor_words(a: Seq<u8>, b: Seq<u8>) -> Seq<u8> {
    Seq::new(4, |j: int| a[j] ^ b[j])
}

/// Word `i` of the schedule of `key`. The first four words are the key. Every
/// later word is the word four places back XORed with the word before it,
/// which, at every fourth place, is first rotated, substituted and XORed with
/// the round constant.
pub open spec fn key_schedule_word(key: Seq<u8>, i: int) -> Seq<u8>
    decreases i,
{
    if i < 4 {
        key.subrange(4 * i, 4 * i + 4)
    } else {
        let previous = key_schedule_word(key, i - 1);
        let temp = if i % 4 == 0 {
            xor_words(sub_word_spec(rot_word_spec(previous)), Rcon[i / 4 - 1]@)
        } else {
            previous
        };
        xor_words(key_schedule_word(key, i - 4), temp)
    }
}

/// On two words of four bytes the repeating-key XOR is the bytewise XOR.
pub proof fn lemma_fixed_key_xor_of_words(a: Seq<u8>, b: Seq<u8>)
    requires
        a.len() == 4,
        b.len() == 4,
    ensures
        fixed_key_xor_spec(a, b) == xor_words(a, b),
{
    assert(fixed_key_xor_spec(a, b) =~= xor_words(a, b));
}

/// The schedule of `key`: its forty-four words.
pub open spec fn expand_key_spec(key: Seq<u8>) -> Seq<Seq<u8>> {
    Seq::new(44, |i: int| key_schedule_word(key, i))
}

/// Every word of the schedule of a sixteen-byte key has four bytes.
pub proof fn lemma_key_schedule_word_len(key: Seq<u8>, i: int)
    requires
        key.len() == 16,
        0 <= i,
    ensures
        key_schedule_word(key, i).len() == 4,
    decreases i,
{
    if i >= 4 {
        lemma_key_schedule_word_len(key, i - 1);
        lemma_key_schedule_word_len(key, i - 4);
    }
}

/// The round constants are the powers of x in GF(2^8): the first is 1, each
/// later one is the one before it doubled, and only the first byte of a
/// constant's word is set.
pub proof fn lemma_round_constants_double(i: int)
    requires
        0 <= i < 10,
    ensures
        Rcon[i]@ == seq![Rcon[i][0], 0u8, 0u8, 0u8],
        i == 0 ==> Rcon[i][0] == 1,
        i > 0 ==> Rcon[i][0] == xtime(Rcon[i - 1][0]),
{
    assert(xtime(0x01) == 0x02 && xtime(0x02) == 0x04 && xtime(0x04) == 0x08 && xtime(0x08)
        == 0x10 && xtime(0x10) == 0x20 && xtime(0x20) == 0x40 && xtime(0x40) == 0x80 && xtime(
        0x80,
    ) == 0x1b && xtime(0x1b) == 0x36) by (bit_vector);
    assert(Rcon[i]@ =~= seq![Rcon[i][0], 0u8, 0u8, 0u8]);
}

impl Key {
    /// The key made of the sixteen bytes given.
    pub fn from_bytes(bytes: [u8; 16]) -> (key: Key)
        ensures
            key@ == bytes@,
    {
        Key(bytes)
    }

    /// The key made of the first sixteen bytes of the string's UTF-8 form.
    pub fn from_string(string: &str) -> (key: Key)
        requires
            string.spec_bytes().len() >= 16,
        ensures
            key@ == string.spec_bytes().subrange(0, 16),
    {
        let mut out: [u8; 16] = [0u8; 16];
        let bytes = string.as_bytes();
        for i in 0..16usize
            invariant
                bytes@ == string.spec_bytes(),
                bytes@.len() >= 16,
                forall|j: int| 0 <= j < i ==> out[j] == bytes@[j],
        {
            out[i] = bytes[i];
        }
        assert(out@ =~= string.spec_bytes().subrange(0, 16));
        Key(out)
    }

    /// Expands the key into the round keys: the schedule of forty-four words
    /// that the rounds of the cipher take their keys from.
    pub fn do_key_expansion(&self) -> (schedule: KeySchedule)
        ensures
            schedule@ == expand_key_spec(self@),
    {
        let mut w: [[u8; 4]; 44] = [[0u8; 4]; 44];

        for i in 0..Nk
            invariant
                forall|j: int| 0 <= j < i ==> w[j]@ == key_schedule_word(self@, j),
        {
            let key_part = &self.0[4 * i..4 * i + 4];
            w[i] = [key_part[0], key_part[1], key_part[2], key_part[3]];
            assert(w[i as int]@ =~= key_schedule_word(self@, i as int));
        }

        for i in Nk..44usize
            invariant
                forall|j: int| 0 <= j < i ==> w[j]@ == key_schedule_word(self@, j),
        {
            let ghost previous = key_schedule_word(self@, i - 1);
            let mut temp: Vec<u8> = slice_to_vec(&w[i - 1]);
            assert(temp@ == previous);
            if i % Nk == 0 {
                let xored = fixed_key_xor(&sub_word(&rot_word(&temp)), &Rcon[(i / Nk) - 1]);
                proof {
                    lemma_fixed_key_xor_of_words(
                        sub_word_spec(rot_word_spec(previous)),
                        Rcon[i / 4 - 1]@,
                    );
                }
                temp = xored;
            } else if Nk > 6 && i % Nk == 4 {
                temp = sub_word(&temp);
            }
            proof {
                lemma_fixed_key_xor_of_words(w[i - 4]@, temp@);
            }
            let ghost mixed = if i % 4 == 0 {
                xor_words(sub_word_spec(rot_word_spec(previous)), Rcon[i / 4 - 1]@)
            } else {
                previous
            };
            assert(temp@ == mixed);
            let key = fixed_key_xor(&w[i - Nk], &temp);
            assert(key@ == xor_words(key_schedule_word(self@, i - 4), mixed));
            w[i] = [key[0], key[1], key[2], key[3]];
            assert(w[i as int]@ =~= key@);
        }

        let schedule = KeySchedule(w);
        assert(schedule@ =~= expand_key_spec(self@));
        schedule
    }
}

} // verus!
