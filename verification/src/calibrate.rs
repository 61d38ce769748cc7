//! Adaptive workload calibration.
//!
//! Every worker executes `N` units of work per quantum and measures the
//! elapsed wall-clock time `d`.  The calibration engine picks the unit count
//! for the next quantum so that its duration converges to a fixed target
//! interval: when `d` rounds to under a millisecond the measurement is too
//! short to trust and `N` is grown by a fixed factor; otherwise the next
//! count is `N * T / d`, rounded to the nearest integer.

use vstd::prelude::*;
use vstd::arithmetic::div_mod::{lemma_fundamental_div_mod, lemma_mod_division_less_than_divisor};

verus! {

/// Target duration of one measurement quantum, in milliseconds.
pub const TARGET_INTERVAL_MS: u64 = 1000;

/// Growth factor applied when a quantum finished too fast to measure.
pub const GROWTH_FACTOR: u64 = 10;

/// Seed unit count for the first, uncalibrated quantum.
pub const INITIAL_WORK_COUNT: u64 = 1000000;

/// Quotient of `a / b` rounded to the nearest integer, for `b > 0`.
pub open spec fn rounded_quotient(a: int, b: int) -> int {
    (a + b / 2) / b
}

/// The ideal next unit count for a quantum that ran `n` units in `d_ms`
/// milliseconds, aiming at `t_ms` milliseconds.
pub open spec fn calibrated_count(n: int, d_ms: int, t_ms: int) -> int {
    if d_ms < 1 {
        n * GROWTH_FACTOR
    } else {
        rounded_quotient(n * t_ms, d_ms)
    }
}

/// Clamp an unbounded integer into the range of `u64`.
pub open spec fn clamp_u64(v: int) -> int {
    if v > u64::MAX {
        u64::MAX as int
    } else {
        v
    }
}

/// Pick the unit count for the next quantum from the last measurement.
///
/// `n` is the unit count just executed, `d_ms` the measured duration in
/// milliseconds (zero means the quantum rounded to under a millisecond),
/// and `t_ms` the target interval.  The result saturates at `u64::MAX`.
pub fn calibrate(n: u64, d_ms: u64, t_ms: u64) -> (n_next: u64)
    requires
        1 <= t_ms,
    ensures
        n_next == clamp_u64(calibrated_count(n as int, d_ms as int, t_ms as int)),
{
    if d_ms == 0 {
        if n > u64::MAX / GROWTH_FACTOR {
            u64::MAX
        } else {
            n * GROWTH_FACTOR
        }
    } else {
        assert((n as int) * (t_ms as int) <= (u64::MAX as int) * (u64::MAX as int))
            by (nonlinear_arith)
            requires
                0 <= n <= u64::MAX,
                0 <= t_ms <= u64::MAX,
        ;
        let prod: u128 = (n as u128) * (t_ms as u128) + (d_ms as u128) / 2;
        let q: u128 = prod / (d_ms as u128);
        if q > u64::MAX as u128 {
            u64::MAX
        } else {
            q as u64
        }
    }
}

/// The calibrated count tracks the ideal ratio `n * t / d` within rounding
/// tolerance, and moves in the right direction: a quantum that overshot the
/// target shrinks the count, one that undershot grows it, and a quantum that
/// hit the target exactly keeps it.
pub proof fn lemma_calibration_direction(n: u64, d_ms: u64, t_ms: u64)
    requires
        1 <= d_ms,
        1 <= t_ms,
    ensures
        ({
            let c = calibrated_count(n as int, d_ms as int, t_ms as int);
            &&& d_ms * c <= n * t_ms + d_ms / 2 < d_ms * (c + 1)
            &&& d_ms > t_ms ==> c <= n
            &&& d_ms < t_ms ==> c >= n
            &&& d_ms == t_ms ==> c == n
        }),
{
    let nn = n as int;
    let d = d_ms as int;
    let t = t_ms as int;
    let a = nn * t + d / 2;
    let c = a / d;
    let r = a % d;
    assert(0 <= nn * t) by (nonlinear_arith)
        requires
            0 <= nn,
            0 <= t,
    ;
    lemma_fundamental_div_mod(a, d);
    lemma_mod_division_less_than_divisor(a, d);
    assert(a == d * c + r);
    assert(0 <= r < d);
    assert(d * c <= a && a < d * (c + 1)) by (nonlinear_arith)
        requires
            a == d * c + r,
            0 <= r < d,
    ;
    if d > t {
        assert(nn * t <= nn * d - nn) by (nonlinear_arith)
            requires
                0 <= nn,
                t <= d - 1,
        ;
        assert(d * c <= nn * d - nn + d / 2);
        assert(c <= nn) by (nonlinear_arith)
            requires
                d * c <= nn * d - nn + d / 2,
                0 <= nn,
                1 <= d,
        ;
    }
    if d < t {
        assert(nn * d + nn <= nn * t) by (nonlinear_arith)
            requires
                0 <= nn,
                d + 1 <= t,
        ;
        assert(d * c + r == nn * t + d / 2);
        assert(c >= nn) by (nonlinear_arith)
            requires
                d * c + r == nn * t + d / 2,
                nn * d + nn <= nn * t,
                0 <= r < d,
                0 <= nn,
                1 <= d,
        ;
    }
    if d == t {
        assert(d * c + r == nn * d + d / 2);
        assert(c == nn) by (nonlinear_arith)
            requires
                d * c + r == nn * d + d / 2,
                0 <= r < d,
                0 <= d / 2 < d,
                1 <= d,
        ;
    }
}

/// Throughput of `work` items processed in `elapsed_ms` milliseconds,
/// expressed in items per second.
pub open spec fn rate_of(work: int, elapsed_ms: int) -> int {
    (work * 1000) / elapsed_ms
}

/// Report throughput over the actually measured duration, in units per
/// second, saturating at `u64::MAX`.
pub fn rate_per_second(work: u64, elapsed_ms: u64) -> (r: u64)
    requires
        1 <= elapsed_ms,
    ensures
        r == clamp_u64(rate_of(work as int, elapsed_ms as int)),
{
    let scaled: u128 = (work as u128) * 1000;
    let q: u128 = scaled / (elapsed_ms as u128);
    if q > u64::MAX as u128 {
        u64::MAX
    } else {
        q as u64
    }
}

/// Multiply two work counters, saturating at `u64::MAX`.
pub fn saturating_mul(a: u64, b: u64) -> (r: u64)
    ensures
        r == clamp_u64((a as int) * (b as int)),
{
    assert((a as int) * (b as int) <= (u64::MAX as int) * (u64::MAX as int))
        by (nonlinear_arith)
        requires
            0 <= a <= u64::MAX,
            0 <= b <= u64::MAX,
    ;
    let wide: u128 = (a as u128) * (b as u128);
    if wide > u64::MAX as u128 {
        u64::MAX
    } else {
        wide as u64
    }
}

/// Add bytes into a running counter, saturating at `u64::MAX`.
pub fn saturating_add(a: u64, b: u64) -> (r: u64)
    ensures
        r == clamp_u64(a as int + b as int),
{
    if a > u64::MAX - b {
        u64::MAX
    } else {
        a + b
    }
}

} // verus!
