//! Frequency synthesis: finding the prescaler and the period that bring a timer, driven by
//! a fixed clock, nearest to a wanted frequency.
//!
//! A timer with prescaler `p` and period `n` runs at `clock / (p * n)`. The search tries
//! the ten prescalers around the square root of `clock / target`, gives each the largest
//! period that keeps the timer at least as fast as the target, and keeps the pair whose
//! frequency is nearest to the target. Since only whole divisors are tried, the result is
//! near the target, not always on it.
//!
//! Frequency errors are fractions and are compared exactly, by cross-multiplication.

use vstd::prelude::*;
use crate::arith::abs;
use crate::error::ControlError;

verus! {

/// How many prescalers the search tries.
pub const SEARCH_WINDOW: u32 = 10;

/// `s` is the square root of `clock / target`, rounded to the nearest whole number, halves
/// upward: `s - 1/2 <= sqrt(clock / target) < s + 1/2`.
pub open spec fn is_seed(clock: int, target: int, s: int) -> bool {
    &&& s >= 0
    &&& s > 0 ==> (2 * s - 1) * (2 * s - 1) * target <= 4 * clock
    &&& 4 * clock < (2 * s + 1) * (2 * s + 1) * target
}

/// The square root of `clock / target`, rounded to the nearest whole number.
pub open spec fn seed(clock: int, target: int) -> int {
    choose|s: int| is_seed(clock, target, s)
}

/// The prescalers that the search tries around `seed`: the ten from `seed - 5` on, as far
/// as they are at least 1.
pub open spec fn in_window(seed: int, p: int) -> bool {
    p >= 1 && seed - SEARCH_WINDOW / 2 <= p < seed + SEARCH_WINDOW / 2
}

/// The period that goes with the prescaler `p`.
pub open spec fn period_for(clock: int, target: int, p: int) -> int {
    clock / (target * p)
}

/// The number of clock ticks in one cycle of the timer with prescaler `p`.
pub open spec fn ticks(clock: int, target: int, p: int) -> int {
    p * period_for(clock, target, p)
}

/// `p` is a prescaler of the window whose period is at least 1.
pub open spec fn is_valid(clock: int, target: int, p: int) -> bool {
    in_window(seed(clock, target), p) && period_for(clock, target, p) >= 1
}

/// The frequency error of prescaler `p` is at most that of prescaler `q`:
/// `|target - clock / ticks(p)| <= |target - clock / ticks(q)|`, with both sides
/// multiplied by `ticks(p) * ticks(q)`.
pub open spec fn error_le(clock: int, target: int, p: int, q: int) -> bool {
    abs(target * ticks(clock, target, p) - clock) * ticks(clock, target, q) <= abs(
        target * ticks(clock, target, q) - clock,
    ) * ticks(clock, target, p)
}

/// `p` is the prescaler that the search keeps: valid, with an error no larger than that
/// of any valid prescaler, and smaller than that of every valid prescaler below it.
pub open spec fn is_best(clock: int, target: int, p: int) -> bool {
    &&& is_valid(clock, target, p)
    &&& forall|q: int| #[trigger]
        is_valid(clock, target, q) ==> error_le(clock, target, p, q)
    &&& forall|q: int| #[trigger]
        is_valid(clock, target, q) && q < p ==> !error_le(clock, target, q, p)
}

/// The prescaler and the period for `target` on a timer driven at `clock`, or `None` where
/// no pair exists: if either is zero, or if the target is faster than the clock.
pub open spec fn spec_synthesize(clock: int, target: int) -> Option<(int, int)> {
    if 1 <= target <= clock {
        let p = choose|p: int| is_best(clock, target, p);
        Some((p, period_for(clock, target, p)))
    } else {
        None
    }
}

/// There is only one nearest whole number.
pub proof fn lemma_seed_is_unique(clock: int, target: int, s1: int, s2: int)
    requires
        target > 0,
        is_seed(clock, target, s1),
        is_seed(clock, target, s2),
    ensures
        s1 == s2,
{
    if s1 < s2 {
        lemma_square_le(2 * s1 + 1, 2 * s2 - 1, target);
    } else if s2 < s1 {
        lemma_square_le(2 * s2 + 1, 2 * s1 - 1, target);
    }
}

/// Every ratio has a nearest whole number to its square root.
pub proof fn lemma_seed_exists(clock: int, target: int)
    requires
        clock >= 0,
        target >= 1,
    ensures
        is_seed(clock, target, seed(clock, target)),
{
    assert(4 * clock < (2 * (2 * clock) + 1) * (2 * (2 * clock) + 1) * target) by (nonlinear_arith)
        requires
            clock >= 0,
            target >= 1,
    ;
    lemma_seed_at_most(clock, target, 2 * clock);
}

/// A nearest whole number exists at or below any `k` whose upper bound `k + 1/2` lies
/// above the square root.
proof fn lemma_seed_at_most(clock: int, target: int, k: int)
    requires
        k >= 0,
        4 * clock < (2 * k + 1) * (2 * k + 1) * target,
    ensures
        exists|s: int| is_seed(clock, target, s),
    decreases k,
{
    if k == 0 || (2 * k - 1) * (2 * k - 1) * target <= 4 * clock {
        assert(is_seed(clock, target, k));
    } else {
        assert((2 * (k - 1) + 1) * (2 * (k - 1) + 1) == (2 * k - 1) * (2 * k - 1))
            by (nonlinear_arith);
        lemma_seed_at_most(clock, target, k - 1);
    }
}

/// On a clock of up to 2^30 hertz, every prescaler that the search may return, and its
/// period, fit a 16-bit register.
pub proof fn lemma_divisors_fit_registers(clock: int, target: int, p: int)
    requires
        1 <= target <= clock <= 0x4000_0000,
        is_valid(clock, target, p),
    ensures
        1 <= p <= 0xFFFF,
        1 <= period_for(clock, target, p) <= 0xFFFF,
{
    let s = seed(clock, target);
    lemma_seed_exists(clock, target);
    assert(s <= 0x8000) by (nonlinear_arith)
        requires
            s > 0 ==> (2 * s - 1) * (2 * s - 1) * target <= 4 * clock,
            clock <= 0x4000_0000,
            target >= 1,
    ;
    assert((2 * s + 1) * (2 * s + 1) <= 0x4_0000 * p) by (nonlinear_arith)
        requires
            0 <= s <= 0x8000,
            p >= 1,
            p >= s - 5,
    ;
    let tp = target * p;
    assert(clock < 0x1_0000 * tp) by (nonlinear_arith)
        requires
            4 * clock < (2 * s + 1) * (2 * s + 1) * target,
            (2 * s + 1) * (2 * s + 1) <= 0x4_0000 * p,
            tp == target * p,
            target >= 1,
    ;
    assert(clock / tp < 0x1_0000) by (nonlinear_arith)
        requires
            0 <= clock < 0x1_0000 * tp,
            tp >= 1,
    ;
}

proof fn lemma_square_le(a: int, b: int, t: int)
    by (nonlinear_arith)
    requires
        0 <= a <= b,
        t >= 0,
    ensures
        a * a * t <= b * b * t,
{
}

/// The largest `r` with `r * r <= n`.
fn isqrt(n: u64) -> (r: u64)
    ensures
        r * r <= n < (r + 1) * (r + 1),
        r <= 0xFFFF_FFFF,
{
    let mut lo: u64 = 0;
    let mut hi: u64 = 0x1_0000_0000;
    assert(0x1_0000_0000 * 0x1_0000_0000 > u64::MAX) by (nonlinear_arith);
    while hi - lo > 1
        invariant
            lo < hi <= 0x1_0000_0000,
            lo * lo <= n < hi * hi,
        decreases hi - lo,
    {
        let mid: u64 = lo + (hi - lo) / 2;
        assert(mid * mid <= 0xFFFF_FFFF * 0xFFFF_FFFF) by (nonlinear_arith)
            requires
                mid <= 0xFFFF_FFFF,
        ;
        if mid * mid <= n {
            lo = mid;
        } else {
            hi = mid;
        }
    }
    lo
}

/// The square root of `clock / target`, rounded to the nearest whole number.
fn rounded_sqrt_of_ratio(clock: u32, target: u32) -> (s: u32)
    requires
        target >= 1,
    ensures
        is_seed(clock as int, target as int, s as int),
        s == seed(clock as int, target as int),
        s <= 0x1_0000,
        clock >= target ==> s >= 1,
{
    let scaled: u64 = 4 * (clock as u64);
    let n: u64 = scaled / (target as u64);
    let x: u64 = isqrt(n);
    let s: u64 = (x + 1) / 2;
    proof {
        let c = clock as int;
        let t = target as int;
        assert(n * t <= 4 * c < (n + 1) * t) by (nonlinear_arith)
            requires
                n == (4 * c) / t,
                t > 0,
        ;
        assert(x <= 0x2_0000) by (nonlinear_arith)
            requires
                x * x <= n,
                n <= 0x4_0000_0000,
        ;
        if s > 0 {
            assert((2 * s - 1) * (2 * s - 1) * t <= 4 * c) by (nonlinear_arith)
                requires
                    0 <= 2 * s - 1 <= x,
                    x * x <= n,
                    n * t <= 4 * c,
                    t > 0,
            ;
        }
        assert(4 * c < (2 * s + 1) * (2 * s + 1) * t) by (nonlinear_arith)
            requires
                0 <= x + 1 <= 2 * s + 1,
                n < (x + 1) * (x + 1),
                4 * c < (n + 1) * t,
                t > 0,
        ;
        assert(is_seed(c, t, s as int));
        lemma_seed_is_unique(c, t, s as int, seed(c, t));
        if s == 0 {
            assert(4 * c < t) by (nonlinear_arith)
                requires
                    4 * c < (2 * s + 1) * (2 * s + 1) * t,
                    s == 0,
            ;
        }
    }
    s as u32
}

/// With the largest period that fits, a timer is never faster than the target: its
/// ticks, times the target, do not exceed the clock.
pub proof fn lemma_ticks_bound(clock: int, target: int, p: int)
    requires
        clock >= 0,
        target >= 1,
        p >= 1,
    ensures
        0 <= target * ticks(clock, target, p) <= clock,
        0 <= ticks(clock, target, p) <= clock,
        period_for(clock, target, p) >= 0,
        period_for(clock, target, p) >= 1 <==> target * p <= clock,
        period_for(clock, target, p) >= 1 ==> ticks(clock, target, p) >= 1,
{
    let tp = target * p;
    let per = clock / tp;
    assert(tp >= 1) by (nonlinear_arith)
        requires
            tp == target * p,
            target >= 1,
            p >= 1,
    ;
    assert(0 <= tp * per <= clock && (per >= 1 <==> tp <= clock)) by (nonlinear_arith)
        requires
            per == clock / tp,
            tp >= 1,
            clock >= 0,
    ;
    assert(target * (p * per) == tp * per && (per >= 1 ==> p * per >= 1) && 0 <= p * per <= tp
        * per) by (nonlinear_arith)
        requires
            tp == target * p,
            target >= 1,
            p >= 1,
            per >= 0,
    ;
}

/// Of two prescalers with a period of at least 1, the one with more ticks has the
/// smaller error: the kept pair is the one whose ticks come nearest to
/// `clock / target` from below.
pub proof fn lemma_error_order(clock: int, target: int, p: int, q: int)
    requires
        clock >= 1,
        target >= 1,
        p >= 1,
        q >= 1,
        period_for(clock, target, p) >= 1,
        period_for(clock, target, q) >= 1,
    ensures
        error_le(clock, target, p, q) <==> ticks(clock, target, q) <= ticks(clock, target, p),
{
    lemma_ticks_bound(clock, target, p);
    lemma_ticks_bound(clock, target, q);
    let dp = ticks(clock, target, p);
    let dq = ticks(clock, target, q);
    assert(((clock - target * dp) * dq <= (clock - target * dq) * dp) <==> dq <= dp)
        by (nonlinear_arith)
        requires
            clock >= 1,
            dp >= 1,
            dq >= 1,
    ;
}

/// No two prescalers are both the one that the search keeps.
pub proof fn lemma_best_is_unique(clock: int, target: int, p1: int, p2: int)
    requires
        is_best(clock, target, p1),
        is_best(clock, target, p2),
    ensures
        p1 == p2,
{
}

/// `p` is the prescaler that the search keeps among those from `lo` up to, but without,
/// `bound`.
spec fn best_upto(clock: int, target: int, lo: int, bound: int, p: int) -> bool {
    &&& lo <= p < bound
    &&& period_for(clock, target, p) >= 1
    &&& forall|q: int|
        lo <= q < bound && #[trigger] period_for(clock, target, q) >= 1 ==> error_le(
            clock,
            target,
            p,
            q,
        )
    &&& forall|q: int|
        lo <= q < p && #[trigger] period_for(clock, target, q) >= 1 ==> !error_le(
            clock,
            target,
            q,
            p,
        )
}

/// The first prescaler of the window has a period of at least 1 whenever the target is
/// no faster than the clock.
proof fn lemma_first_candidate_is_valid(clock: int, target: int, s: int, lo: int)
    requires
        1 <= target <= clock,
        is_seed(clock, target, s),
        s >= 1,
        lo == if s > 6 { s - 5 } else { 1 },
    ensures
        period_for(clock, target, lo) >= 1,
{
    if s > 6 {
        assert(target * (s - 5) <= clock) by (nonlinear_arith)
            requires
                (2 * s - 1) * (2 * s - 1) * target <= 4 * clock,
                s > 6,
                target >= 1,
        ;
    } else {
        assert(target * 1 == target);
    }
    lemma_ticks_bound(clock, target, lo);
}

/// Among the prescalers from `lo` up to `bound`, one is the one that the search keeps.
proof fn lemma_best_upto_exists(clock: int, target: int, lo: int, bound: int)
    requires
        1 <= target <= clock,
        1 <= lo < bound,
        period_for(clock, target, lo) >= 1,
    ensures
        exists|p: int| best_upto(clock, target, lo, bound, p),
    decreases bound - lo,
{
    let last = bound - 1;
    if last == lo {
        lemma_error_order(clock, target, lo, lo);
        assert(best_upto(clock, target, lo, bound, lo));
    } else {
        lemma_best_upto_exists(clock, target, lo, last);
        let k = choose|k: int| best_upto(clock, target, lo, last, k);
        if period_for(clock, target, last) >= 1 && !error_le(clock, target, k, last) {
            lemma_error_order(clock, target, k, last);
            assert forall|q: int|
                lo <= q < bound && #[trigger] period_for(clock, target, q) >= 1 implies error_le(
                clock,
                target,
                last,
                q,
            ) && (q < last ==> !error_le(clock, target, q, last)) by {
                lemma_error_order(clock, target, last, q);
                lemma_error_order(clock, target, q, last);
                if q < last {
                    lemma_error_order(clock, target, k, q);
                }
            }
            assert(best_upto(clock, target, lo, bound, last));
        } else {
            assert(best_upto(clock, target, lo, bound, k));
        }
    }
}

/// Whenever the target is no faster than the clock, the search keeps a pair: the one
/// that [`spec_synthesize`] names.
pub proof fn lemma_best_exists(clock: int, target: int)
    requires
        1 <= target <= clock,
    ensures
        spec_synthesize(clock, target) matches Some((p, per)) && is_best(clock, target, p) && per
            == period_for(clock, target, p) && p >= 1 && per >= 1,
{
    let s = seed(clock, target);
    lemma_seed_exists(clock, target);
    if s == 0 {
        assert(4 * clock < target) by (nonlinear_arith)
            requires
                4 * clock < (2 * s + 1) * (2 * s + 1) * target,
                s == 0,
        ;
    }
    let lo = if s > 6 { s - 5 } else { 1 };
    lemma_first_candidate_is_valid(clock, target, s, lo);
    let hi = s + 5;
    lemma_best_upto_exists(clock, target, lo, hi);
    let p = choose|p: int| best_upto(clock, target, lo, hi, p);
    assert(is_best(clock, target, p)) by {
        assert forall|q: int| #[trigger] is_valid(clock, target, q) implies error_le(
            clock,
            target,
            p,
            q,
        ) && (q < p ==> !error_le(clock, target, q, p)) by {
            assert(lo <= q < hi);
        }
    }
}

/// Finds the prescaler and the period that bring a timer driven at `clock` hertz nearest
/// to `target_freq` hertz.
///
/// The prescalers tried are those of the window around the rounded square root of
/// `clock / target_freq`; each gets the period `clock / (target_freq * prescaler)`,
/// rounded down, and counts only if that is at least 1. The pair with the smallest
/// frequency error `|target_freq - clock / (prescaler * period)|` is returned, the one
/// with the lowest prescaler if several share it.
///
/// Fails with `InvalidParameter` exactly if `target_freq` is zero or above `clock`, which
/// covers a zero `clock`.
pub fn synthesize_frequency(clock: u32, target_freq: u32) -> (r: Result<(u32, u32), ControlError>)
    ensures
        r is Ok <==> 1 <= target_freq <= clock,
        r matches Ok((p, per)) ==> {
            &&& p >= 1
            &&& per >= 1
            &&& per == period_for(clock as int, target_freq as int, p as int)
            &&& is_best(clock as int, target_freq as int, p as int)
            &&& spec_synthesize(clock as int, target_freq as int) == Some((p as int, per as int))
        },
        r matches Err(e) ==> e == ControlError::InvalidParameter && spec_synthesize(
            clock as int,
            target_freq as int,
        ) is None,
{
    if target_freq == 0 || clock < target_freq {
        return Err(ControlError::InvalidParameter);
    }
    let ghost c = clock as int;
    let ghost t = target_freq as int;
    let s: u32 = rounded_sqrt_of_ratio(clock, target_freq);
    let half: u32 = SEARCH_WINDOW / 2;
    let lo: u32 = if s > half + 1 {
        s - half
    } else {
        1
    };
    let hi: u32 = s + half;
    let mut best_p: u32 = 0;
    let mut best_per: u32 = 0;
    let mut best_ticks: u64 = 0;
    let mut best_error: u64 = 0;
    let mut found: bool = false;
    proof {
        lemma_first_candidate_is_valid(c, t, s as int, lo as int);
    }
    let mut p: u32 = lo;
    while p < hi
        invariant
            1 <= lo <= p <= hi,
            hi <= 0x1_0005,
            c == clock as int,
            t == target_freq as int,
            1 <= t <= c,
            period_for(c, t, lo as int) >= 1,
            p > lo ==> found,
            !found ==> p == lo,
            found ==> {
                &&& best_upto(c, t, lo as int, p as int, best_p as int)
                &&& best_per == period_for(c, t, best_p as int)
                &&& best_ticks == ticks(c, t, best_p as int)
                &&& best_error == c - t * best_ticks
            },
        decreases hi - p,
    {
        proof {
            lemma_ticks_bound(c, t, p as int);
            if found {
                lemma_ticks_bound(c, t, best_p as int);
            }
        }
        assert(1 <= t * p <= 0xFFFF_FFFF * 0x1_0005) by (nonlinear_arith)
            requires
                1 <= t <= 0xFFFF_FFFF,
                1 <= p <= 0x1_0005,
        ;
        let scaled: u64 = (target_freq as u64) * (p as u64);
        let per: u64 = (clock as u64) / scaled;
        if per >= 1 {
            assert(p * per <= c) by (nonlinear_arith)
                requires
                    t * (p * per) <= c,
                    t >= 1,
                    p >= 1,
                    per >= 1,
            ;
            let d: u64 = (p as u64) * per;
            let e: u64 = (clock as u64) - (target_freq as u64) * d;
            let better: bool = if found {
                assert(e * best_ticks <= 0xFFFF_FFFF * 0xFFFF_FFFF && best_error * d <= 0xFFFF_FFFF
                    * 0xFFFF_FFFF) by (nonlinear_arith)
                    requires
                        0 <= e <= 0xFFFF_FFFF,
                        0 <= best_ticks <= 0xFFFF_FFFF,
                        0 <= best_error <= 0xFFFF_FFFF,
                        0 <= d <= 0xFFFF_FFFF,
                ;
                e * best_ticks < best_error * d
            } else {
                true
            };
            if better {
                proof {
                    if found {
                        assert(!error_le(c, t, best_p as int, p as int));
                        lemma_error_order(c, t, best_p as int, p as int);
                        assert forall|q: int|
                            lo <= q < p + 1 && #[trigger] period_for(c, t, q) >= 1 implies error_le(
                            c,
                            t,
                            p as int,
                            q,
                        ) && (q < p ==> !error_le(c, t, q, p as int)) by {
                            lemma_error_order(c, t, p as int, q);
                            lemma_error_order(c, t, q, p as int);
                            if q < p {
                                lemma_error_order(c, t, best_p as int, q);
                            }
                        }
                    } else {
                        lemma_error_order(c, t, p as int, p as int);
                    }
                }
                best_p = p;
                best_per = per as u32;
                best_ticks = d;
                best_error = e;
                found = true;
            } else {
                proof {
                    assert(error_le(c, t, best_p as int, p as int));
                }
            }
        }
        p += 1;
    }
    proof {
        assert(is_best(c, t, best_p as int)) by {
            assert forall|q: int| #[trigger] is_valid(c, t, q) implies error_le(
                c,
                t,
                best_p as int,
                q,
            ) && (q < best_p ==> !error_le(c, t, q, best_p as int)) by {
                assert(lo <= q < hi);
            }
        }
        let chosen = choose|q: int| is_best(c, t, q);
        lemma_best_is_unique(c, t, best_p as int, chosen);
    }
    Ok((best_p, best_per))
}

} // verus!
