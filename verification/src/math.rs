//! Arithmetic in GF(2^8) modulo x^8 + x^4 + x^3 + x + 1.
use vstd::prelude::*;

verus! {

/// The product of `a` and the polynomial x: `a` doubled, and reduced by 0x1b
/// when the doubling carries out of bit 7.
pub open spec fn xtime(a: u8) -> u8 {
    if a & 0x80 != 0 {
        (a << 1) ^ 0x1b
    } else {
        a << 1
    }
}

/// `a` if bit `i` of `b` is set, and zero otherwise.
pub open spec fn select(a: u8, b: u8, i: u8) -> u8 {
    if (b >> i) & 1 == 1 {
        a
    } else {
        0
    }
}

/// The product of `a` and `b` in GF(2^8): the sum (XOR), over the set bits `i`
/// of `b`, of `a` times x^i.
#[verifier::opaque]
pub open spec fn gf_mul(a: u8, b: u8) -> u8 {
    let a1 = xtime(a);
    let a2 = xtime(a1);
    let a3 = xtime(a2);
    let a4 = xtime(a3);
    let a5 = xtime(a4);
    let a6 = xtime(a5);
    let a7 = xtime(a6);
    select(a, b, 0) ^ select(a1, b, 1) ^ select(a2, b, 2) ^ select(a3, b, 3) ^ select(a4, b, 4)
        ^ select(a5, b, 5) ^ select(a6, b, 6) ^ select(a7, b, 7)
}

/// `a` times x^n.
pub open spec fn xtime_pow(a: u8, n: nat) -> u8
    decreases n,
{
    if n == 0 {
        a
    } else {
        xtime(xtime_pow(a, (n - 1) as nat))
    }
}

/// The product of `a` and the lowest `n` bits of `b`.
pub open spec fn gf_mul_low(a: u8, b: u8, n: nat) -> u8
    decreases n,
{
    if n == 0 {
        0
    } else {
        gf_mul_low(a, b, (n - 1) as nat) ^ select(xtime_pow(a, (n - 1) as nat), b, (n - 1) as u8)
    }
}

/// With all eight bits of `b` taken in, the partial product is the product.
pub proof fn lemma_gf_mul_low_full(a: u8, b: u8)
    ensures
        gf_mul_low(a, b, 8) == gf_mul(a, b),
{
    reveal(gf_mul);
    reveal_with_fuel(xtime_pow, 9);
    reveal_with_fuel(gf_mul_low, 9);
    let s0 = select(a, b, 0);
    assert(0u8 ^ s0 == s0) by (bit_vector);
}

/// Multiplies `a` and `b` in GF(2^8): for each bit of `b`, from the lowest,
/// adds `a` to the product where the bit is set, and doubles `a`.
pub fn multiply_in_g(a: u8, b: u8) -> (product: u8)
    ensures
        product == gf_mul(a, b),
{
    let mut p: u8 = 0;
    let mut x: u8 = a;
    let mut y: u8 = b;
    let mut k: u8 = 0;
    proof {
        assert(b >> 0u8 == b) by (bit_vector);
    }
    while k < 8
        invariant
            k <= 8,
            p == gf_mul_low(a, b, k as nat),
            x == xtime_pow(a, k as nat),
            y == b >> k,
        decreases 8 - k,
    {
        proof {
            assert(k < 8 ==> (b >> k) >> 1u8 == b >> ((k + 1) as u8)) by (bit_vector);
            assert(p ^ 0u8 == p) by (bit_vector);
        }
        if y & 1 == 1 {
            p = p ^ x;
        }
        let carry: bool = x & 0x80 != 0;
        x = x << 1;
        if carry {
            x = x ^ 0x1b;
        }
        y = y >> 1;
        k = k + 1;
    }
    proof {
        lemma_gf_mul_low_full(a, b);
    }
    p
}

/// XOR of bytes is linear under doubling.
proof fn lemma_xtime_linear(a: u8, b: u8)
    by (bit_vector)
    ensures
        xtime(a ^ b) == xtime(a) ^ xtime(b),
{
}

/// Sixteen bytes XORed pairwise and then together are the XOR of the two
/// rows of eight.
proof fn lemma_xor_rows(
    s0: u8, s1: u8, s2: u8, s3: u8, s4: u8, s5: u8, s6: u8, s7: u8,
    t0: u8, t1: u8, t2: u8, t3: u8, t4: u8, t5: u8, t6: u8, t7: u8,
)
    by (bit_vector)
    ensures
        (s0 ^ t0) ^ (s1 ^ t1) ^ (s2 ^ t2) ^ (s3 ^ t3) ^ (s4 ^ t4) ^ (s5 ^ t5) ^ (s6 ^ t6) ^ (s7
            ^ t7) == (s0 ^ s1 ^ s2 ^ s3 ^ s4 ^ s5 ^ s6 ^ s7) ^ (t0 ^ t1 ^ t2 ^ t3 ^ t4 ^ t5 ^ t6
            ^ t7),
{
}

/// Selecting by a bit of `b ^ c` is selecting by the bit of `b`, XORed with
/// selecting by the bit of `c`.
proof fn lemma_select_linear(x: u8, b: u8, c: u8, i: u8)
    by (bit_vector)
    ensures
        select(x, b ^ c, i) == select(x, b, i) ^ select(x, c, i),
{
}

/// Multiplication in GF(2^8) distributes over XOR, on the right.
pub proof fn lemma_gf_mul_distributes_right(a: u8, b: u8, c: u8)
    ensures
        gf_mul(a, b ^ c) == gf_mul(a, b) ^ gf_mul(a, c),
{
    reveal(gf_mul);
    let a1 = xtime(a);
    let a2 = xtime(a1);
    let a3 = xtime(a2);
    let a4 = xtime(a3);
    let a5 = xtime(a4);
    let a6 = xtime(a5);
    let a7 = xtime(a6);
    lemma_select_linear(a, b, c, 0);
    lemma_select_linear(a1, b, c, 1);
    lemma_select_linear(a2, b, c, 2);
    lemma_select_linear(a3, b, c, 3);
    lemma_select_linear(a4, b, c, 4);
    lemma_select_linear(a5, b, c, 5);
    lemma_select_linear(a6, b, c, 6);
    lemma_select_linear(a7, b, c, 7);
    lemma_xor_rows(
        select(a, b, 0), select(a1, b, 1), select(a2, b, 2), select(a3, b, 3),
        select(a4, b, 4), select(a5, b, 5), select(a6, b, 6), select(a7, b, 7),
        select(a, c, 0), select(a1, c, 1), select(a2, c, 2), select(a3, c, 3),
        select(a4, c, 4), select(a5, c, 5), select(a6, c, 6), select(a7, c, 7),
    );
}

/// Multiplication in GF(2^8) distributes over XOR, on the left.
pub proof fn lemma_gf_mul_distributes_left(a: u8, b: u8, c: u8)
    ensures
        gf_mul(a ^ b, c) == gf_mul(a, c) ^ gf_mul(b, c),
{
    reveal(gf_mul);
    let a1 = xtime(a);
    let a2 = xtime(a1);
    let a3 = xtime(a2);
    let a4 = xtime(a3);
    let a5 = xtime(a4);
    let a6 = xtime(a5);
    let a7 = xtime(a6);
    let b1 = xtime(b);
    let b2 = xtime(b1);
    let b3 = xtime(b2);
    let b4 = xtime(b3);
    let b5 = xtime(b4);
    let b6 = xtime(b5);
    let b7 = xtime(b6);
    lemma_xtime_linear(a, b);
    lemma_xtime_linear(a1, b1);
    lemma_xtime_linear(a2, b2);
    lemma_xtime_linear(a3, b3);
    lemma_xtime_linear(a4, b4);
    lemma_xtime_linear(a5, b5);
    lemma_xtime_linear(a6, b6);
    assert(0u8 ^ 0u8 == 0u8) by (bit_vector);
    lemma_xor_rows(
        select(a, c, 0), select(a1, c, 1), select(a2, c, 2), select(a3, c, 3),
        select(a4, c, 4), select(a5, c, 5), select(a6, c, 6), select(a7, c, 7),
        select(b, c, 0), select(b1, c, 1), select(b2, c, 2), select(b3, c, 3),
        select(b4, c, 4), select(b5, c, 5), select(b6, c, 6), select(b7, c, 7),
    );
}

/// A byte is the XOR of its bits, each at its place.
proof fn lemma_byte_is_xor_of_bits(a: u8)
    by (bit_vector)
    ensures
        a == select(0x01, a, 0) ^ select(0x02, a, 1) ^ select(0x04, a, 2) ^ select(0x08, a, 3)
            ^ select(0x10, a, 4) ^ select(0x20, a, 5) ^ select(0x40, a, 6) ^ select(0x80, a, 7),
{
}

/// The product of x^j and `b` is `b` doubled j times, and the product of zero
/// and `b` is zero.
proof fn lemma_gf_mul_by_power_of_x(b: u8)
    by (bit_vector)
    ensures
        gf_mul(0x00, b) == 0,
        gf_mul(0x01, b) == b,
        gf_mul(0x02, b) == xtime(b),
        gf_mul(0x04, b) == xtime(xtime(b)),
        gf_mul(0x08, b) == xtime(xtime(xtime(b))),
        gf_mul(0x10, b) == xtime(xtime(xtime(xtime(b)))),
        gf_mul(0x20, b) == xtime(xtime(xtime(xtime(xtime(b))))),
        gf_mul(0x40, b) == xtime(xtime(xtime(xtime(xtime(xtime(b)))))),
        gf_mul(0x80, b) == xtime(xtime(xtime(xtime(xtime(xtime(xtime(b))))))),
{
}

/// Multiplication in GF(2^8) is commutative.
pub proof fn lemma_gf_mul_commutative(a: u8, b: u8)
    ensures
        gf_mul(a, b) == gf_mul(b, a),
{
    let p0 = select(0x01, a, 0);
    let p1 = select(0x02, a, 1);
    let p2 = select(0x04, a, 2);
    let p3 = select(0x08, a, 3);
    let p4 = select(0x10, a, 4);
    let p5 = select(0x20, a, 5);
    let p6 = select(0x40, a, 6);
    let p7 = select(0x80, a, 7);
    lemma_byte_is_xor_of_bits(a);
    lemma_gf_mul_distributes_left(p0 ^ p1 ^ p2 ^ p3 ^ p4 ^ p5 ^ p6, p7, b);
    lemma_gf_mul_distributes_left(p0 ^ p1 ^ p2 ^ p3 ^ p4 ^ p5, p6, b);
    lemma_gf_mul_distributes_left(p0 ^ p1 ^ p2 ^ p3 ^ p4, p5, b);
    lemma_gf_mul_distributes_left(p0 ^ p1 ^ p2 ^ p3, p4, b);
    lemma_gf_mul_distributes_left(p0 ^ p1 ^ p2, p3, b);
    lemma_gf_mul_distributes_left(p0 ^ p1, p2, b);
    lemma_gf_mul_distributes_left(p0, p1, b);
    lemma_gf_mul_by_power_of_x(b);
    assert(gf_mul(b, a) == select(b, a, 0) ^ select(xtime(b), a, 1) ^ select(
        xtime(xtime(b)),
        a,
        2,
    ) ^ select(xtime(xtime(xtime(b))), a, 3) ^ select(xtime(xtime(xtime(xtime(b)))), a, 4)
        ^ select(xtime(xtime(xtime(xtime(xtime(b))))), a, 5) ^ select(
        xtime(xtime(xtime(xtime(xtime(xtime(b)))))),
        a,
        6,
    ) ^ select(xtime(xtime(xtime(xtime(xtime(xtime(xtime(b))))))), a, 7)) by {
        reveal(gf_mul);
    }
    assert(gf_mul(p0, b) == select(b, a, 0));
    assert(gf_mul(p1, b) == select(xtime(b), a, 1));
    assert(gf_mul(p2, b) == select(xtime(xtime(b)), a, 2));
    assert(gf_mul(p3, b) == select(xtime(xtime(xtime(b))), a, 3));
    assert(gf_mul(p4, b) == select(xtime(xtime(xtime(xtime(b)))), a, 4));
    assert(gf_mul(p5, b) == select(xtime(xtime(xtime(xtime(xtime(b))))), a, 5));
    assert(gf_mul(p6, b) == select(xtime(xtime(xtime(xtime(xtime(xtime(b)))))), a, 6));
    assert(gf_mul(p7, b) == select(xtime(xtime(xtime(xtime(xtime(xtime(xtime(b))))))), a, 7));
}

/// The matrix with the rows 0e 0b 0d 09, 09 0e 0b 0d, 0d 09 0e 0b and
/// 0b 0d 09 0e, times the matrix with the rows 02 03 01 01, 01 02 03 01,
/// 01 01 02 03 and 03 01 01 02, is the identity: entry by entry, applied to a
/// byte `x`, the product gives `x` on the diagonal and zero elsewhere.
pub proof fn lemma_matrix_product_is_identity(x: u8)
    by (bit_vector)
    ensures
        gf_mul(0x0e, gf_mul(0x02, x)) ^ gf_mul(0x0b, gf_mul(0x01, x))
            ^ gf_mul(0x0d, gf_mul(0x01, x)) ^ gf_mul(0x09, gf_mul(0x03, x)) == x,
        gf_mul(0x0e, gf_mul(0x03, x)) ^ gf_mul(0x0b, gf_mul(0x02, x))
            ^ gf_mul(0x0d, gf_mul(0x01, x)) ^ gf_mul(0x09, gf_mul(0x01, x)) == 0,
        gf_mul(0x0e, gf_mul(0x01, x)) ^ gf_mul(0x0b, gf_mul(0x03, x))
            ^ gf_mul(0x0d, gf_mul(0x02, x)) ^ gf_mul(0x09, gf_mul(0x01, x)) == 0,
        gf_mul(0x0e, gf_mul(0x01, x)) ^ gf_mul(0x0b, gf_mul(0x01, x))
            ^ gf_mul(0x0d, gf_mul(0x03, x)) ^ gf_mul(0x09, gf_mul(0x02, x)) == 0,
        gf_mul(0x09, gf_mul(0x02, x)) ^ gf_mul(0x0e, gf_mul(0x01, x))
            ^ gf_mul(0x0b, gf_mul(0x01, x)) ^ gf_mul(0x0d, gf_mul(0x03, x)) == 0,
        gf_mul(0x09, gf_mul(0x03, x)) ^ gf_mul(0x0e, gf_mul(0x02, x))
            ^ gf_mul(0x0b, gf_mul(0x01, x)) ^ gf_mul(0x0d, gf_mul(0x01, x)) == x,
        gf_mul(0x09, gf_mul(0x01, x)) ^ gf_mul(0x0e, gf_mul(0x03, x))
            ^ gf_mul(0x0b, gf_mul(0x02, x)) ^ gf_mul(0x0d, gf_mul(0x01, x)) == 0,
        gf_mul(0x09, gf_mul(0x01, x)) ^ gf_mul(0x0e, gf_mul(0x01, x))
            ^ gf_mul(0x0b, gf_mul(0x03, x)) ^ gf_mul(0x0d, gf_mul(0x02, x)) == 0,
        gf_mul(0x0d, gf_mul(0x02, x)) ^ gf_mul(0x09, gf_mul(0x01, x))
            ^ gf_mul(0x0e, gf_mul(0x01, x)) ^ gf_mul(0x0b, gf_mul(0x03, x)) == 0,
        gf_mul(0x0d, gf_mul(0x03, x)) ^ gf_mul(0x09, gf_mul(0x02, x))
            ^ gf_mul(0x0e, gf_mul(0x01, x)) ^ gf_mul(0x0b, gf_mul(0x01, x)) == 0,
        gf_mul(0x0d, gf_mul(0x01, x)) ^ gf_mul(0x09, gf_mul(0x03, x))
            ^ gf_mul(0x0e, gf_mul(0x02, x)) ^ gf_mul(0x0b, gf_mul(0x01, x)) == x,
        gf_mul(0x0d, gf_mul(0x01, x)) ^ gf_mul(0x09, gf_mul(0x01, x))
            ^ gf_mul(0x0e, gf_mul(0x03, x)) ^ gf_mul(0x0b, gf_mul(0x02, x)) == 0,
        gf_mul(0x0b, gf_mul(0x02, x)) ^ gf_mul(0x0d, gf_mul(0x01, x))
            ^ gf_mul(0x09, gf_mul(0x01, x)) ^ gf_mul(0x0e, gf_mul(0x03, x)) == 0,
        gf_mul(0x0b, gf_mul(0x03, x)) ^ gf_mul(0x0d, gf_mul(0x02, x))
            ^ gf_mul(0x09, gf_mul(0x01, x)) ^ gf_mul(0x0e, gf_mul(0x01, x)) == 0,
        gf_mul(0x0b, gf_mul(0x01, x)) ^ gf_mul(0x0d, gf_mul(0x03, x))
            ^ gf_mul(0x09, gf_mul(0x02, x)) ^ gf_mul(0x0e, gf_mul(0x01, x)) == 0,
        gf_mul(0x0b, gf_mul(0x01, x)) ^ gf_mul(0x0d, gf_mul(0x01, x))
            ^ gf_mul(0x09, gf_mul(0x03, x)) ^ gf_mul(0x0e, gf_mul(0x02, x)) == x,
{
}

} // verus!
