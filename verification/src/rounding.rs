//! Division that rounds to the nearest integer, halves away from zero.

use vstd::prelude::*;

verus! {

/// The integer nearest to `n / d`; a quotient that lies exactly between two
/// integers goes to the one farther from zero.
pub open spec fn round_div(n: int, d: int) -> int
    recommends
        d > 0,
{
    if n >= 0 {
        (2 * n + d) / (2 * d)
    } else {
        -((2 * (-n) + d) / (2 * d))
    }
}

/// Computes `round_div(n, d)` without leaving `i128`.
pub fn div_round(n: i128, d: i128) -> (q: i128)
    requires
        d > 0,
        n > i128::MIN,
    ensures
        q == round_div(n as int, d as int),
{
    let m: i128 = if n >= 0 { n } else { -n };
    let whole: i128 = m / d;
    let rest: i128 = m % d;
    let up: bool = rest >= d - rest;
    proof {
        lemma_round_split(m as int, d as int);
    }
    let mag: i128 = if up { whole + 1 } else { whole };
    if n >= 0 { mag } else { -mag }
}

/// Rounding a non-negative quotient: the whole part, and one more when the
/// remainder is at least half the divisor.
pub proof fn lemma_round_split(m: int, d: int)
    requires
        m >= 0,
        d > 0,
    ensures
        (2 * m + d) / (2 * d) == m / d + (if 2 * (m % d) >= d { 1int } else { 0int }),
        m / d <= m,
        2 * (m % d) >= d ==> m / d < m,
{
    let q = m / d;
    let r = m % d;
    assert(m == d * q + r) by {
        vstd::arithmetic::div_mod::lemma_fundamental_div_mod(m, d);
    }
    assert(0 <= r < d);
    let k = if 2 * r >= d { 1int } else { 0int };
    let rem = 2 * r + d - 2 * d * k;
    assert(0 <= rem < 2 * d);
    assert(2 * m + d == (2 * d) * (q + k) + rem) by (nonlinear_arith)
        requires
            m == d * q + r,
            rem == 2 * r + d - 2 * d * k,
    ;
    vstd::arithmetic::div_mod::lemma_fundamental_div_mod_converse(2 * m + d, 2 * d, q + k, rem);
    assert(q >= 0 && q <= m && (r > 0 ==> q < m)) by (nonlinear_arith)
        requires
            m == d * q + r,
            0 <= r < d,
            d > 0,
            m >= 0,
    ;
}

/// A quotient of magnitude at most `b` rounds to an integer of magnitude at
/// most `b`.
pub proof fn lemma_round_div_bound(n: int, d: int, b: int)
    requires
        d > 0,
        b >= 0,
        -(b * d) <= n <= b * d,
    ensures
        -b <= round_div(n, d) <= b,
{
    let m = if n >= 0 { n } else { -n };
    let q = (2 * m + d) / (2 * d);
    assert(0 <= q <= b) by (nonlinear_arith)
        requires
            q == (2 * m + d) / (2 * d),
            d > 0,
            b >= 0,
            0 <= m <= b * d,
    ;
}

/// The rounded quotient is the nearest integer: it differs from `n / d` by at
/// most a half, and by exactly a half only on the side away from zero.
pub proof fn lemma_round_div_nearest(n: int, d: int)
    requires
        d > 0,
    ensures
        -d <= 2 * (n - round_div(n, d) * d) <= d,
        n >= 0 ==> 2 * (n - round_div(n, d) * d) < d,
        n <= 0 ==> -d < 2 * (n - round_div(n, d) * d),
        round_div(-n, d) == -round_div(n, d),
{
    let m = if n >= 0 { n } else { -n };
    let q = (2 * m + d) / (2 * d);
    let r = (2 * m + d) % (2 * d);
    vstd::arithmetic::div_mod::lemma_fundamental_div_mod(2 * m + d, 2 * d);
    assert(0 <= r < 2 * d);
    assert(2 * (m - q * d) == r - d) by (nonlinear_arith)
        requires
            2 * m + d == (2 * d) * q + r,
    ;
    assert(round_div(n, d) == if n >= 0 { q } else { -q });
    assert((-q) * d == -(q * d)) by (nonlinear_arith);
    if m == 0 {
        assert(q == 0) by (nonlinear_arith)
            requires
                d == (2 * d) * q + r,
                0 <= r < 2 * d,
                d > 0,
        ;
    }
}

} // verus!
