//! Fixed-point helpers: exact products and floor division on wide integers.

use vstd::prelude::*;
use vstd::arithmetic::div_mod::lemma_fundamental_div_mod;
use vstd::arithmetic::div_mod::lemma_fundamental_div_mod_converse;
use vstd::arithmetic::div_mod::lemma_mod_pos_bound;

verus! {

/// Fixed-point steps per whole unit: a length of one point, a density of one
/// dot per inch and a factor of one are all written as `MICRO`.
pub const MICRO: i64 = 1_000_000;

/// Largest magnitude that the wide helpers accept: two to the power 126.
pub const WIDE: i128 = 0x4000_0000_0000_0000_0000_0000_0000_0000;

/// The product of two 64-bit integers never exceeds `WIDE` in magnitude.
pub proof fn lemma_product_is_wide(a: int, b: int)
    requires
        i64::MIN <= a <= i64::MAX,
        i64::MIN <= b <= i64::MAX,
    ensures
        -WIDE <= a * b <= WIDE,
{
    assert(-0x4000_0000_0000_0000_0000_0000_0000_0000 <= a * b
        <= 0x4000_0000_0000_0000_0000_0000_0000_0000) by (nonlinear_arith)
        requires
            -0x8000_0000_0000_0000 <= a <= 0x8000_0000_0000_0000,
            -0x8000_0000_0000_0000 <= b <= 0x8000_0000_0000_0000,
    ;
}

/// The exact product of two 64-bit integers.
pub fn wide_product(a: i64, b: i64) -> (p: i128)
    ensures
        p == a * b,
        -WIDE <= p <= WIDE,
{
    proof {
        lemma_product_is_wide(a as int, b as int);
    }
    (a as i128) * (b as i128)
}

/// The quotient `a / b` rounded toward negative infinity.
pub fn floor_div(a: i128, b: i128) -> (q: i128)
    requires
        0 < b <= WIDE,
        -WIDE <= a <= WIDE,
    ensures
        q == a / b,
{
    if a >= 0 {
        a / b
    } else {
        let n: i128 = -a;
        let up: i128 = (n + (b - 1)) / b;
        proof {
            let r = (n + b - 1) % (b as int);
            lemma_fundamental_div_mod(n + b - 1, b as int);
            lemma_mod_pos_bound(n + b - 1, b as int);
            assert(a == (-(up as int)) * b + (b - 1 - r)) by (nonlinear_arith)
                requires
                    n + b - 1 == b * (up as int) + r,
                    a == -n,
            ;
            lemma_fundamental_div_mod_converse(a as int, b as int, -(up as int), b - 1 - r);
        }
        -up
    }
}

} // verus!
