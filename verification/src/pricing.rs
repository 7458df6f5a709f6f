//! The auction pricer: a deterministic, monotonically non-increasing
//! linear price decay. Every independent executor must agree bit-for-bit
//! on the value, so the computation is pure integer arithmetic over the
//! order's bounds and the supplied timestamp.

use vstd::prelude::*;
use vstd::arithmetic::div_mod::{lemma_div_is_ordered, lemma_div_multiples_vanish};

verus! {

/// How long an auction runs from its start time, in seconds.
pub const AUCTION_DURATION: u64 = 600;

/// Delay between order placement and the auction opening for bids, in
/// seconds; it gives the relayer time to broadcast the order.
pub const AUCTION_START_BUFFER: u64 = 120;

/// Clamp an instant into a closed interval.
pub open spec fn clamped(now: int, lo: int, hi: int) -> int {
    if now < lo {
        lo
    } else if now > hi {
        hi
    } else {
        now
    }
}

/// The clearing price at instant `t`, for `t` already clamped into
/// `[start, end]` and `start < end`: a linear interpolation from `max`
/// down to `min`, with floor division.
pub open spec fn interpolated(min: int, max: int, start: int, end: int, t: int) -> int {
    (max * (end - t) + min * (t - start)) / (end - start)
}

/// The clearing price of an auction with bounds `[min, max]` running from
/// `start` to `end`, quoted at instant `now`. Instants outside the window
/// are clamped, so the price is `max` before the start and `min` after
/// the end; a zero-duration auction clears at `max`.
pub open spec fn price_at(min: int, max: int, start: int, end: int, now: int) -> int {
    if end <= start {
        max
    } else {
        interpolated(min, max, start, end, clamped(now, start, end))
    }
}

/// The price decays linearly from `max` at the start to `min` at the end
/// and never leaves `[min, max]`; the two bounds are met exactly at the
/// boundaries.
pub proof fn lemma_price_bounds(min: int, max: int, start: int, end: int, now: int)
    requires
        0 <= min <= max,
    ensures
        min <= price_at(min, max, start, end, now) <= max,
        now <= start ==> price_at(min, max, start, end, now) == max,
        start < end && now >= end ==> price_at(min, max, start, end, now) == min,
{
    if end <= start {
    } else {
        let d = end - start;
        let t = clamped(now, start, end);
        let num = max * (end - t) + min * (t - start);
        assert(min * d <= num <= max * d) by (nonlinear_arith)
            requires
                min <= max,
                start <= t <= end,
                d == end - start,
                num == max * (end - t) + min * (t - start),
        ;
        lemma_div_multiples_vanish(min, d);
        lemma_div_multiples_vanish(max, d);
        lemma_div_is_ordered(min * d, num, d);
        lemma_div_is_ordered(num, max * d, d);
        if now <= start {
            assert(num == max * d) by (nonlinear_arith)
                requires
                    t == start,
                    d == end - start,
                    num == max * (end - t) + min * (t - start),
            ;
        }
        if now >= end {
            assert(num == min * d) by (nonlinear_arith)
                requires
                    t == end,
                    d == end - start,
                    num == max * (end - t) + min * (t - start),
            ;
        }
    }
}

/// The price is monotonically non-increasing in time: quoting later never
/// yields a higher price.
pub proof fn lemma_price_monotone(min: int, max: int, start: int, end: int, t1: int, t2: int)
    requires
        0 <= min <= max,
        t1 <= t2,
    ensures
        price_at(min, max, start, end, t2) <= price_at(min, max, start, end, t1),
{
    if end <= start {
    } else {
        let d = end - start;
        let c1 = clamped(t1, start, end);
        let c2 = clamped(t2, start, end);
        let n1 = max * (end - c1) + min * (c1 - start);
        let n2 = max * (end - c2) + min * (c2 - start);
        assert(n2 <= n1) by (nonlinear_arith)
            requires
                min <= max,
                c1 <= c2,
                n1 == max * (end - c1) + min * (c1 - start),
                n2 == max * (end - c2) + min * (c2 - start),
        ;
        lemma_div_is_ordered(n2, n1, d);
    }
}

/// Quoting at the same offset from the same start always yields the same
/// price: the pricer reads nothing but its arguments, which is what lets
/// independent executors on both chains agree on the cleared amount.
pub proof fn lemma_price_deterministic(
    min: int,
    max: int,
    start1: int,
    end1: int,
    now1: int,
    start2: int,
    end2: int,
    now2: int,
)
    requires
        now1 - start1 == now2 - start2,
        end1 - start1 == end2 - start2,
    ensures
        price_at(min, max, start1, end1, now1) == price_at(min, max, start2, end2, now2),
{
    if end1 <= start1 {
    } else {
        let c1 = clamped(now1, start1, end1);
        let c2 = clamped(now2, start2, end2);
        assert(c1 - start1 == c2 - start2);
        assert(max * (end1 - c1) == max * (end2 - c2)) by (nonlinear_arith)
            requires
                end1 - c1 == end2 - c2,
        ;
        assert(min * (c1 - start1) == min * (c2 - start2)) by (nonlinear_arith)
            requires
                c1 - start1 == c2 - start2,
        ;
    }
}

/// Compute the clearing price of an auction with bounds `[min, max]`
/// running from `start_time` to `end_time`, quoted at `now`.
pub fn linear_price(min: u128, max: u128, start_time: u64, end_time: u64, now: u64) -> (r: u128)
    requires
        min <= max,
        start_time <= end_time,
        max * (end_time - start_time) <= u128::MAX,
    ensures
        r == price_at(min as int, max as int, start_time as int, end_time as int, now as int),
{
    if end_time == start_time {
        return max;
    }
    let t: u64 = if now < start_time {
        start_time
    } else if now > end_time {
        end_time
    } else {
        now
    };
    let rising: u128 = (t - start_time) as u128;
    let falling: u128 = (end_time - t) as u128;
    let span: u128 = (end_time - start_time) as u128;
    proof {
        assert(max * falling + min * rising <= max * span) by (nonlinear_arith)
            requires
                min <= max,
                falling >= 0,
                rising >= 0,
                span == falling + rising,
        ;
    }
    (max * falling + min * rising) / span
}

} // verus!
