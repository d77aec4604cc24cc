//! Arithmetic on clock ticks.
use vstd::prelude::*;

verus! {

/// The product, or the largest number where it does not fit.
pub open spec fn sat_mul(a: int, b: int) -> int {
    if a * b <= u64::MAX {
        a * b
    } else {
        u64::MAX as int
    }
}

pub fn saturating_mul(a: u64, b: u64) -> (r: u64)
    ensures
        r == sat_mul(a as int, b as int),
{
    match a.checked_mul(b) {
        Some(r) => r,
        None => u64::MAX,
    }
}

/// The difference without its sign.
pub open spec fn distance(a: int, b: int) -> int {
    if a >= b {
        a - b
    } else {
        b - a
    }
}

pub fn abs_diff(a: u64, b: u64) -> (r: u64)
    ensures
        r == distance(a as int, b as int),
{
    if a >= b {
        a - b
    } else {
        b - a
    }
}

/// How far `at` lies behind the point of the grid before it, where the grid has a point at
/// `origin` and its points are `period` apart.
pub open spec fn phase_in(at: int, origin: int, period: int) -> int {
    (at - origin) % period
}

/// The phase of `at` in the grid. The origin may lie after `at`: any point of the grid stands
/// for all of them.
pub fn fold(at: u64, origin: u64, period: u64) -> (r: u64)
    requires
        period > 0,
    ensures
        r == phase_in(at as int, origin as int, period as int),
        r < period,
{
    let ghost p = period as int;
    if at >= origin {
        (at - origin) % period
    } else {
        let behind: u64 = (origin - at) % period;
        proof {
            let d = origin - at;
            let q = d / p;
            assert(d == q * p + behind) by {
                vstd::arithmetic::div_mod::lemma_fundamental_div_mod(d, p);
                vstd::arithmetic::mul::lemma_mul_is_commutative(q, p);
            }
            if behind == 0 {
                assert(at - origin == (-q) * p) by (nonlinear_arith)
                    requires
                        d == origin - at,
                        d == q * p,
                ;
                vstd::arithmetic::div_mod::lemma_mod_multiples_basic(-q, p);
            } else {
                assert(at - origin == (-q - 1) * p + (p - behind)) by (nonlinear_arith)
                    requires
                        d == origin - at,
                        d == q * p + behind,
                ;
                vstd::arithmetic::div_mod::lemma_fundamental_div_mod_converse(
                    at - origin,
                    p,
                    -q - 1,
                    p - behind,
                );
            }
        }
        if behind == 0 {
            0
        } else {
            period - behind
        }
    }
}

/// Ticks in microseconds; a clock without a rate counts as one tick a second.
pub open spec fn micros(ticks: int, freq: int) -> int {
    sat_mul(ticks, 1_000_000) / (if freq > 1 {
        freq
    } else {
        1
    })
}

pub fn ticks_to_micros(ticks: u64, freq: u64) -> (r: u64)
    ensures
        r == micros(ticks as int, freq as int),
{
    let rate: u64 = if freq > 1 {
        freq
    } else {
        1
    };
    saturating_mul(ticks, 1_000_000) / rate
}

} // verus!
