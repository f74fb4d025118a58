//! Division helpers on machine integers.
//!
//! Rust's `/` and `%` truncate toward zero while the mathematical `/` and `%`
//! of specifications follow Euclidean division, so the executable functions
//! here carry contracts phrased with the mathematical operators.

use vstd::prelude::*;

verus! {

/// Quotient and remainder are unique: any `q`, `r` with `n == d * q + r` and
/// `0 <= r < d` are the Euclidean quotient and remainder of `n` by `d`.
pub proof fn lemma_div_unique(n: int, d: int, q: int, r: int)
    requires
        d > 0,
        n == d * q + r,
        0 <= r < d,
    ensures
        q == n / d,
        r == n % d,
{
    vstd::arithmetic::div_mod::lemma_fundamental_div_mod(n, d);
    let q0 = n / d;
    let r0 = n % d;
    assert(q == q0 && r == r0) by (nonlinear_arith)
        requires
            d > 0,
            n == d * q + r,
            0 <= r < d,
            n == d * q0 + r0,
            0 <= r0 < d,
    ;
}

/// A truncating quotient and remainder of a negative dividend still satisfy
/// the division identity, with the remainder in `(-d, 0]`.
proof fn lemma_trunc_div_neg(n: int, d: int, t: int, m: int)
    requires
        d > 0,
        n < 0,
        t == 0 - ((0 - n) / d),
        m == 0 - ((0 - n) % d),
    ensures
        n == d * t + m,
        0 - d < m <= 0,
{
    let a = 0 - n;
    vstd::arithmetic::div_mod::lemma_fundamental_div_mod(a, d);
    assert(n == d * t + m && 0 - d < m <= 0) by (nonlinear_arith)
        requires
            d > 0,
            a == d * (a / d) + a % d,
            0 <= a % d < d,
            t == 0 - (a / d),
            m == 0 - (a % d),
            n == 0 - a,
    ;
}

/// Floor division on `i64`: rounds toward negative infinity, matching the
/// mathematical `/` for a positive divisor.
pub fn floor_div_i64(n: i64, d: i64) -> (q: i64)
    requires
        d > 0,
        n > i64::MIN,
    ensures
        q == n as int / d as int,
{
    let t: i64 = n / d;
    let m: i64 = n % d;
    proof {
        let ni = n as int;
        let di = d as int;
        if n < 0 {
            lemma_trunc_div_neg(ni, di, t as int, m as int);
            if m == 0 {
                lemma_div_unique(ni, di, t as int, 0);
            } else {
                assert(di * (t as int - 1) == di * (t as int) - di) by (nonlinear_arith);
                lemma_div_unique(ni, di, t as int - 1, m as int + di);
            }
        }
    }
    if m != 0 && n < 0 {
        t - 1
    } else {
        t
    }
}

/// Floor division on `i128`, used for chart-limit rounding.
pub fn floor_div_i128(n: i128, d: i128) -> (q: i128)
    requires
        d > 0,
        n > i128::MIN,
    ensures
        q == n as int / d as int,
{
    let t: i128 = n / d;
    let m: i128 = n % d;
    proof {
        let ni = n as int;
        let di = d as int;
        if n < 0 {
            lemma_trunc_div_neg(ni, di, t as int, m as int);
            if m == 0 {
                lemma_div_unique(ni, di, t as int, 0);
            } else {
                assert(di * (t as int - 1) == di * (t as int) - di) by (nonlinear_arith);
                lemma_div_unique(ni, di, t as int - 1, m as int + di);
            }
        }
    }
    if m != 0 && n < 0 {
        t - 1
    } else {
        t
    }
}

/// Ceiling division on `i128`: the least integer at or above the rational
/// quotient, i.e. the floor of `(n + d - 1) / d`.
pub fn ceil_div_i128(n: i128, d: i128) -> (q: i128)
    requires
        d > 0,
        i128::MIN + d <= n < i128::MAX,
    ensures
        q == ((n as int) + (d as int) - 1) / (d as int),
        (d as int) * (q as int) >= n as int,
        (d as int) * (q as int) < (n as int) + (d as int),
{
    let t: i128 = n / d;
    let m: i128 = n % d;
    proof {
        let ni = n as int;
        let di = d as int;
        let ti = t as int;
        let mi = m as int;
        if n < 0 {
            lemma_trunc_div_neg(ni, di, ti, mi);
            lemma_div_unique(ni + di - 1, di, ti, mi + di - 1);
            assert(di * ti >= ni && di * ti < ni + di) by (nonlinear_arith)
                requires
                    di > 0,
                    ni == di * ti + mi,
                    0 - di < mi <= 0,
            ;
        } else if m == 0 {
            vstd::arithmetic::div_mod::lemma_fundamental_div_mod(ni, di);
            lemma_div_unique(ni + di - 1, di, ti, di - 1);
            assert(di * ti == ni) by (nonlinear_arith)
                requires
                    ni == di * ti + 0,
            ;
        } else {
            vstd::arithmetic::div_mod::lemma_fundamental_div_mod(ni, di);
            assert(di * (ti + 1) == di * ti + di) by (nonlinear_arith);
            lemma_div_unique(ni + di - 1, di, ti + 1, mi - 1);
            assert(di * (ti + 1) >= ni && di * (ti + 1) < ni + di) by (nonlinear_arith)
                requires
                    di > 0,
                    ni == di * ti + mi,
                    0 < mi && mi < di,
            ;
        }
    }
    if m != 0 && n > 0 {
        t + 1
    } else {
        t
    }
}

/// Euclidean remainder on `i64`: the representative of `n` modulo `d` in
/// `[0, d)`, as the mathematical `%` gives for a positive divisor.
pub fn euclid_mod_i64(n: i64, d: i64) -> (r: i64)
    requires
        d > 0,
        n > i64::MIN,
    ensures
        r == (n as int) % (d as int),
        0 <= r < d,
{
    let t: i64 = n % d;
    let q: i64 = n / d;
    proof {
        let ni = n as int;
        let di = d as int;
        if n < 0 {
            lemma_trunc_div_neg(ni, di, q as int, t as int);
            if t == 0 {
                lemma_div_unique(ni, di, q as int, 0);
            } else {
                assert(di * (q as int - 1) == di * (q as int) - di) by (nonlinear_arith);
                lemma_div_unique(ni, di, q as int - 1, t as int + di);
            }
        }
    }
    if t < 0 {
        t + d
    } else {
        t
    }
}

} // verus!
