//! Fixed-point numbers: a value `v` stands for `v / FIXED_ONE`.
use vstd::prelude::*;

verus! {

/// The fixed-point representation of 1.0.
pub const FIXED_ONE: i32 = 10_000;

/// Rounds `n / d` to the nearest integer, halves away from zero.
pub open spec fn round_div(n: int, d: int) -> int
    recommends
        d > 0,
{
    if n >= 0 {
        (2 * n + d) / (2 * d)
    } else {
        -((d - 2 * n) / (2 * d))
    }
}

/// A bound on rounded quotients, for numerators of at most 2^65 in size
/// and denominators of at least 20000.
pub proof fn lemma_round_div_bound(n: int, d: int)
    requires
        -0x2_0000_0000_0000_0000 <= n <= 0x2_0000_0000_0000_0000,
        d >= 20000,
    ensures
        -0x10_0000_0000_0000 <= round_div(n, d) <= 0x10_0000_0000_0000,
{
    let m = if n >= 0 { n } else { -n };
    let x = 2 * m + d;
    let q = x / (2 * d);
    vstd::arithmetic::div_mod::lemma_fundamental_div_mod(x, 2 * d);
    assert(x % (2 * d) >= 0);
    assert(q >= 0);
    if q >= 1 {
        assert((2 * q - 1) * 20000 <= 2 * m) by (nonlinear_arith)
            requires
                x == 2 * d * q + x % (2 * d),
                x % (2 * d) >= 0,
                x == 2 * m + d,
                d >= 20000,
                q >= 1,
        ;
    }
}

/// Computes `round_div(n, d)`.
pub fn round_div_exec(n: i128, d: i128) -> (r: i128)
    requires
        -0x2_0000_0000_0000_0000 <= n <= 0x2_0000_0000_0000_0000,
        1 <= d <= 0x1_0000_0000_0000_0000,
    ensures
        r == round_div(n as int, d as int),
{
    if n >= 0 {
        (2 * n + d) / (2 * d)
    } else {
        -((d - 2 * n) / (2 * d))
    }
}

} // verus!
