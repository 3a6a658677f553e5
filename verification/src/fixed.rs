use vstd::prelude::*;
use vstd::arithmetic::div_mod::lemma_fundamental_div_mod_converse;

verus! {

/// Number of sub-pixel units in one image pixel. Positions inside an image
/// are fixed-point numbers: an `i64` counting units of `1 / UNIT` pixel.
pub const UNIT: i64 = 65536;

/// Exact product of two 32-bit values.
pub fn mul32(a: u32, b: u32) -> (r: u64)
    ensures
        r == a * b,
{
    assert(a * b <= 0xffff_ffff * 0xffff_ffff) by (nonlinear_arith)
        requires
            a <= 0xffff_ffff,
            b <= 0xffff_ffff,
    ;
    (a as u64) * (b as u64)
}

/// Exact product of two 64-bit values.
pub fn mul64(a: u64, b: u64) -> (r: u128)
    ensures
        r == a * b,
{
    assert(a * b <= 0xffff_ffff_ffff_ffff * 0xffff_ffff_ffff_ffff) by (nonlinear_arith)
        requires
            a <= 0xffff_ffff_ffff_ffff,
            b <= 0xffff_ffff_ffff_ffff,
    ;
    (a as u128) * (b as u128)
}

/// Exact product of two signed values, one of at most 64 and one of at most
/// 65 bits.
pub fn mul_signed(a: i128, b: i128) -> (r: i128)
    requires
        -0x8000_0000_0000_0000 <= a <= 0x8000_0000_0000_0000,
        -0xffff_ffff_ffff_ffff <= b <= 0xffff_ffff_ffff_ffff,
    ensures
        r == a * b,
{
    assert(-0x8000_0000_0000_0000 * 0xffff_ffff_ffff_ffff <= a * b <= 0x8000_0000_0000_0000
        * 0xffff_ffff_ffff_ffff) by (nonlinear_arith)
        requires
            -0x8000_0000_0000_0000 <= a <= 0x8000_0000_0000_0000,
            -0xffff_ffff_ffff_ffff <= b <= 0xffff_ffff_ffff_ffff,
    ;
    a * b
}

/// Quotient rounded towards negative infinity.
pub fn floor_div(a: i128, b: u64) -> (q: i128)
    requires
        b > 0,
    ensures
        q == (a as int) / (b as int),
{
    if a >= 0 {
        a / (b as i128)
    } else {
        let m: u128 = (-(a + 1)) as u128;
        let t: u128 = m / (b as u128);
        let r: Ghost<int> = Ghost((m as int) % (b as int));
        let q: i128 = -(t as i128) - 1;
        proof {
            assert(m as int == (b as int) * (t as int) + r@) by (nonlinear_arith)
                requires
                    b > 0,
                    t as int == (m as int) / (b as int),
                    r@ == (m as int) % (b as int),
            ;
            assert(a as int == (q as int) * (b as int) + (b - r@ - 1)) by (nonlinear_arith)
                requires
                    a as int == -(m as int) - 1,
                    m as int == (b as int) * (t as int) + r@,
                    q as int == -(t as int) - 1,
            ;
            lemma_fundamental_div_mod_converse(a as int, b as int, q as int, b - r@ - 1);
        }
        q
    }
}

/// Quotient of a non-negative value rounded towards positive infinity.
pub fn ceil_div(a: u128, b: u64) -> (q: u128)
    requires
        b > 0,
        a + b <= u128::MAX,
    ensures
        q == ((a + b - 1) as int) / (b as int),
{
    (a + (b as u128) - 1) / (b as u128)
}

} // verus!
