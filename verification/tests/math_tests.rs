use aes_ndlr::constants::{INVERSE_S_BOX, Nb, Nk, Nr, Rcon, S_BOX};
use aes_ndlr::math::multiply_in_g;

#[test]
fn multiplies_the_examples_of_the_standard() {
    assert_eq!(multiply_in_g(0x57, 0x83), 0xc1);
    assert_eq!(multiply_in_g(0x57, 0x13), 0xfe);
    assert_eq!(multiply_in_g(0x57, 0x02), 0xae);
    assert_eq!(multiply_in_g(0x57, 0x04), 0x47);
    assert_eq!(multiply_in_g(0x57, 0x08), 0x8e);
    assert_eq!(multiply_in_g(0x57, 0x10), 0x07);
}

#[test]
fn multiplies_by_zero_and_one() {
    for a in 0..=255u8 {
        assert_eq!(multiply_in_g(a, 0), 0);
        assert_eq!(multiply_in_g(0, a), 0);
        assert_eq!(multiply_in_g(a, 1), a);
        assert_eq!(multiply_in_g(1, a), a);
    }
}

#[test]
fn doubling_reduces_by_0x1b_on_overflow() {
    assert_eq!(multiply_in_g(0x80, 0x02), 0x1b);
    assert_eq!(multiply_in_g(0x40, 0x02), 0x80);
    assert_eq!(multiply_in_g(0xff, 0x02), 0xe5);
}

#[test]
fn multiplication_is_commutative() {
    for a in 0..=255u8 {
        for b in 0..=255u8 {
            assert_eq!(multiply_in_g(a, b), multiply_in_g(b, a));
        }
    }
}

#[test]
fn multiplication_distributes_over_xor() {
    for a in 0..=255u8 {
        for b in (0..=255u8).step_by(3) {
            for c in (0..=255u8).step_by(5) {
                assert_eq!(
                    multiply_in_g(a, b ^ c),
                    multiply_in_g(a, b) ^ multiply_in_g(a, c)
                );
                assert_eq!(
                    multiply_in_g(b ^ c, a),
                    multiply_in_g(b, a) ^ multiply_in_g(c, a)
                );
            }
        }
    }
}

#[test]
fn every_byte_but_zero_has_an_inverse() {
    assert_eq!(multiply_in_g(0x53, 0xca), 0x01);
    for a in 1..=255u8 {
        assert_eq!((1..=255u8).filter(|b| multiply_in_g(a, *b) == 1).count(), 1);
    }
}

#[test]
fn inverse_table_undoes_the_table() {
    for x in 0..=255u8 {
        assert_eq!(INVERSE_S_BOX[S_BOX[x as usize] as usize], x);
        assert_eq!(S_BOX[INVERSE_S_BOX[x as usize] as usize], x);
    }
}

#[test]
fn tables_hold_the_entries_of_the_standard() {
    assert_eq!(S_BOX[0x00], 0x63);
    assert_eq!(S_BOX[0x53], 0xed);
    assert_eq!(S_BOX[0xff], 0x16);
    assert_eq!(INVERSE_S_BOX[0x00], 0x52);
    assert_eq!(INVERSE_S_BOX[0xed], 0x53);
    assert_eq!(INVERSE_S_BOX[0xff], 0x7d);
}

#[test]
fn round_constants_double_from_one() {
    assert_eq!(Rcon[0], [0x01, 0x00, 0x00, 0x00]);
    for i in 1..10 {
        assert_eq!(Rcon[i], [multiply_in_g(Rcon[i - 1][0], 0x02), 0x00, 0x00, 0x00]);
    }
    assert_eq!(Rcon[8], [0x1b, 0x00, 0x00, 0x00]);
    assert_eq!(Rcon[9], [0x36, 0x00, 0x00, 0x00]);
}

#[test]
fn sizes_are_those_of_aes_128() {
    assert_eq!(Nb, 4);
    assert_eq!(Nk, 4);
    assert_eq!(Nr, 10);
    assert_eq!(Nb * (Nr + 1), 44);
}
