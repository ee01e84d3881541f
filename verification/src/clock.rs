//! The sample clock: a count of the samples played so far, kept bounded by
//! wrapping it at the sample rate.

use vstd::arithmetic::div_mod::{
    lemma_add_mod_noop,
    lemma_fundamental_div_mod,
    lemma_mod_bound,
    lemma_mod_multiples_vanish,
    lemma_small_mod,
};
use vstd::prelude::*;

verus! {

/// The clock reading `samples` samples after it read `clock`, at a rate of
/// `sample_rate` samples per second.
pub open spec fn clock_after(clock: int, samples: int, sample_rate: int) -> int {
    (clock + samples) % sample_rate
}

/// Moves the sample clock on by `samples` samples and wraps it at the sample
/// rate, which is not zero.
pub fn advance_clock(clock: u32, samples: usize, sample_rate: u32) -> (next: u32)
    requires
        sample_rate > 0,
    ensures
        next == clock_after(clock as int, samples as int, sample_rate as int),
        next < sample_rate,
{
    let rate: u64 = sample_rate as u64;
    let within: u64 = (clock as u64) % rate;
    let carried: u64 = (samples as u64) % rate;
    proof {
        lemma_add_mod_noop(clock as int, samples as int, sample_rate as int);
    }
    ((within + carried) % rate) as u32
}

/// A clock reading is never negative and stays below the sample rate, however
/// long the stream has run.
pub proof fn lemma_clock_bounded(clock: int, samples: int, sample_rate: int)
    requires
        sample_rate > 0,
    ensures
        0 <= clock_after(clock, samples, sample_rate) < sample_rate,
{
    lemma_mod_bound(clock + samples, sample_rate);
}

/// Wrapping loses nothing but whole seconds: advancing block by block reads
/// the same as advancing once by the total, so the clock of a stream that
/// started at zero is the number of samples played, modulo the sample rate.
pub proof fn lemma_clock_composes(clock: int, first: int, second: int, sample_rate: int)
    requires
        sample_rate > 0,
    ensures
        clock_after(clock_after(clock, first, sample_rate), second, sample_rate) == clock_after(
            clock,
            first + second,
            sample_rate,
        ),
{
    lemma_add_mod_noop(clock + first, second, sample_rate);
    lemma_add_mod_noop((clock + first) % sample_rate, second, sample_rate);
    lemma_mod_bound(clock + first, sample_rate);
    lemma_small_mod(((clock + first) % sample_rate) as nat, sample_rate as nat);
}

/// The clock of a stream that started at zero lags behind the number of
/// samples played by whole seconds and nothing else.
pub proof fn lemma_clock_lags_by_whole_seconds(played: int, sample_rate: int)
    requires
        sample_rate > 0,
        played >= 0,
    ensures
        played - clock_after(0, played, sample_rate) == sample_rate * (played / sample_rate),
        played < sample_rate ==> clock_after(0, played, sample_rate) == played,
{
    lemma_fundamental_div_mod(played, sample_rate);
    if played < sample_rate {
        lemma_small_mod(played as nat, sample_rate as nat);
    }
}

/// The clock comes back to the same reading after every whole second of
/// samples.
pub proof fn lemma_clock_period(clock: int, seconds: int, sample_rate: int)
    requires
        sample_rate > 0,
        0 <= clock < sample_rate,
    ensures
        clock_after(clock, seconds * sample_rate, sample_rate) == clock,
{
    lemma_mod_multiples_vanish(seconds, clock, sample_rate);
    lemma_small_mod(clock as nat, sample_rate as nat);
    assert(clock + seconds * sample_rate == sample_rate * seconds + clock) by (nonlinear_arith);
}

} // verus!
