//! What the countdown of the guess phase shows over time.
//!
//! The guess phase draws `max(0, ceil(G - t))`, where `G` is the guess
//! duration in seconds and `t` the time since the phase began. Time is
//! counted here in ticks of which `rate` make one second, so that a frame
//! number at the frame rate, or a count of milliseconds at rate 1000, is a time.

use vstd::arithmetic::div_mod::{
    lemma_div_is_ordered, lemma_div_multiples_vanish_fancy, lemma_fundamental_div_mod,
    lemma_mod_bound,
};
use vstd::prelude::*;

verus! {

/// `a / d` rounded up to a whole number, for `a` above zero and `d` above zero.
pub open spec fn ceil_div(a: int, d: int) -> int
    recommends
        a > 0,
        d > 0,
{
    (a + d - 1) / d
}

/// The number that the countdown shows once `elapsed` ticks of a guess phase
/// of `guess_ms` milliseconds have passed, `rate` ticks making one second: the
/// seconds still left, rounded up, and zero from the end of the phase on.
pub open spec fn countdown_shown(guess_ms: nat, elapsed: nat, rate: nat) -> nat
    recommends
        rate > 0,
{
    let left = guess_ms * rate - 1000 * elapsed;
    if left <= 0 {
        0
    } else {
        ceil_div(left, (1000 * rate) as int) as nat
    }
}

/// The rounded-up quotient is the least whole number of `d`s that covers `a`.
pub proof fn lemma_ceil_div_is_least_cover(a: int, d: int)
    requires
        a > 0,
        d > 0,
    ensures
        ceil_div(a, d) >= 1,
        (ceil_div(a, d) - 1) * d < a <= ceil_div(a, d) * d,
{
    let x = a + d - 1;
    let c = x / d;
    lemma_fundamental_div_mod(x, d);
    lemma_mod_bound(x, d);
    assert((c - 1) * d == c * d - d) by (nonlinear_arith);
    if c < 1 {
        assert(c * d <= 0) by (nonlinear_arith)
            requires
                c < 1,
                d > 0,
        ;
    }
}

/// While the phase lasts the countdown shows the time left in seconds,
/// rounded up: the least whole number of seconds that is not below it.
pub proof fn lemma_countdown_is_ceiling(guess_ms: nat, elapsed: nat, rate: nat)
    requires
        rate > 0,
        1000 * elapsed < guess_ms * rate,
    ensures
        countdown_shown(guess_ms, elapsed, rate) >= 1,
        (countdown_shown(guess_ms, elapsed, rate) - 1) * (1000 * rate) < guess_ms * rate - 1000
            * elapsed <= countdown_shown(guess_ms, elapsed, rate) * (1000 * rate),
{
    lemma_ceil_div_is_least_cover(guess_ms * rate - 1000 * elapsed, (1000 * rate) as int);
}

/// The countdown never rises: at a later time it shows at most what it
/// showed before.
pub proof fn lemma_countdown_never_rises(guess_ms: nat, earlier: nat, later: nat, rate: nat)
    requires
        rate > 0,
        earlier <= later,
    ensures
        countdown_shown(guess_ms, later, rate) <= countdown_shown(guess_ms, earlier, rate),
{
    let d = 1000 * rate;
    let before = guess_ms * rate - 1000 * earlier;
    let after = guess_ms * rate - 1000 * later;
    if after > 0 {
        lemma_div_is_ordered(after + d - 1, before + d - 1, d as int);
        lemma_ceil_div_is_least_cover(after, d as int);
    }
}

/// The countdown shows zero exactly from the end of the guess phase on: never
/// before the guess duration has passed, always after.
pub proof fn lemma_countdown_zero_exactly_when_over(guess_ms: nat, elapsed: nat, rate: nat)
    requires
        rate > 0,
    ensures
        countdown_shown(guess_ms, elapsed, rate) == 0 <==> 1000 * elapsed >= guess_ms * rate,
{
    if 1000 * elapsed < guess_ms * rate {
        lemma_ceil_div_is_least_cover(guess_ms * rate - 1000 * elapsed, (1000 * rate) as int);
    }
}

/// A whole number of `d`s that covers `a`, while one less does not, is the
/// rounded-up quotient.
pub proof fn lemma_least_cover_is_ceil_div(a: int, d: int, c: int)
    requires
        d > 0,
        (c - 1) * d < a <= c * d,
    ensures
        ceil_div(a, d) == c,
{
    let r = a + d - 1 - c * d;
    assert(0 <= r < d && a + d - 1 == d * c + r) by (nonlinear_arith)
        requires
            (c - 1) * d < a <= c * d,
            r == a + d - 1 - c * d,
    ;
    lemma_div_multiples_vanish_fancy(c, r, d);
}

/// The countdown opens with the guess duration in seconds, rounded up.
pub proof fn lemma_countdown_opens_with_duration(guess_ms: nat, rate: nat)
    requires
        rate > 0,
        guess_ms > 0,
    ensures
        countdown_shown(guess_ms, 0, rate) == ceil_div(guess_ms as int, 1000),
{
    let c = ceil_div(guess_ms as int, 1000);
    lemma_ceil_div_is_least_cover(guess_ms as int, 1000);
    assert((c - 1) * (1000 * rate) < guess_ms * rate <= c * (1000 * rate)) by (nonlinear_arith)
        requires
            (c - 1) * 1000 < guess_ms <= c * 1000,
            rate > 0,
    ;
    lemma_least_cover_is_ceil_div((guess_ms * rate) as int, (1000 * rate) as int, c);
}

/// The number that the countdown shows `elapsed_ms` milliseconds into a
/// guess phase of `guess_ms` milliseconds.
pub fn countdown_at(guess_ms: u64, elapsed_ms: u64) -> (shown: u64)
    ensures
        shown == countdown_shown(guess_ms as nat, elapsed_ms as nat, 1000),
{
    if elapsed_ms >= guess_ms {
        0
    } else {
        let left = guess_ms - elapsed_ms;
        proof {
            let c = (left - 1) / 1000 + 1;
            lemma_least_cover_is_ceil_div(1000 * left, 1_000_000, c);
        }
        (left - 1) / 1000 + 1
    }
}

} // verus!
