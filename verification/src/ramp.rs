//! The ramp that moves a running value toward a requested one by a bounded
//! step per sample, so that a change of pitch or level is never heard as a
//! click. Values live on an integer grid whose resolution the caller picks.

use vstd::prelude::*;

verus! {

/// How many times per second a ramp would cover its whole distance: a value
/// reaches its target within a tenth of a second of samples.
pub const RAMP_RATE: u32 = 10;

/// The step per sample for a block that starts at `current` and aims at
/// `target`: the distance times the ramp rate over the sample rate, rounded
/// away from zero. It is zero only when there is no distance to cover.
pub open spec fn ramp_step_size(current: int, target: int, sample_rate: int) -> int {
    if target >= current {
        ((target - current) * RAMP_RATE + sample_rate - 1) / sample_rate
    } else {
        -(((current - target) * RAMP_RATE + sample_rate - 1) / sample_rate)
    }
}

/// The value that a ramp holds `n` samples after it held `current`, moving by
/// `step` per sample and stopping at `target`. A step that points away from
/// the target moves nothing.
pub open spec fn ramp_after(current: int, target: int, step: int, n: nat) -> int {
    if step > 0 && current < target {
        if current + n * step < target {
            current + n * step
        } else {
            target
        }
    } else if step < 0 && current > target {
        if current + n * step > target {
            current + n * step
        } else {
            target
        }
    } else {
        current
    }
}

/// The value `n` samples into a block that starts at `current` and aims at
/// `target`, at the step that the block fixes at its start.
pub open spec fn block_value(current: int, target: int, sample_rate: int, n: nat) -> int {
    ramp_after(current, target, ramp_step_size(current, target, sample_rate), n)
}

/// How far `value` is from `target`.
pub open spec fn distance(value: int, target: int) -> int {
    if value <= target {
        target - value
    } else {
        value - target
    }
}

/// Step per sample for a block from `current` toward `target`, at a sample
/// rate that is not zero.
pub fn ramp_step(current: i64, target: i64, sample_rate: u32) -> (step: i128)
    requires
        sample_rate > 0,
    ensures
        step == ramp_step_size(current as int, target as int, sample_rate as int),
{
    let rate: i128 = sample_rate as i128;
    let gap: i128 = target as i128 - current as i128;
    let span: i128 = if gap >= 0 {
        gap
    } else {
        -gap
    };
    assert(span * RAMP_RATE == span * 10);
    let size: i128 = (span * (RAMP_RATE as i128) + rate - 1) / rate;
    if gap >= 0 {
        size
    } else {
        -size
    }
}

/// Moves `current` one sample toward `target`: by `step` if that stays short
/// of the target, else onto the target itself.
pub fn ramp_advance(current: i64, target: i64, step: i128) -> (next: i64)
    ensures
        next == ramp_after(current as int, target as int, step as int, 1),
{
    let gap: i128 = target as i128 - current as i128;
    if step > 0 && gap > 0 {
        if step < gap {
            (current as i128 + step) as i64
        } else {
            target
        }
    } else if step < 0 && gap < 0 {
        if step > gap {
            (current as i128 + step) as i64
        } else {
            target
        }
    } else {
        current
    }
}

/// The step of a block points at the target and is zero only on it.
pub proof fn lemma_step_points_at_target(current: int, target: int, sample_rate: int)
    requires
        sample_rate > 0,
    ensures
        current < target ==> ramp_step_size(current, target, sample_rate) > 0,
        current > target ==> ramp_step_size(current, target, sample_rate) < 0,
        current == target ==> ramp_step_size(current, target, sample_rate) == 0,
{
    let gap = distance(current, target);
    let q = (gap * RAMP_RATE + sample_rate - 1) / sample_rate;
    assert(gap > 0 ==> q > 0) by (nonlinear_arith)
        requires
            sample_rate > 0,
            gap >= 0,
            q == (gap * 10 + sample_rate - 1) / sample_rate,
    ;
    assert(gap == 0 ==> q == 0) by (nonlinear_arith)
        requires
            sample_rate > 0,
            gap >= 0,
            q == (gap * 10 + sample_rate - 1) / sample_rate,
    ;
}

/// A ramp never leaves the stretch between where it started and its target:
/// no sample overshoots.
pub proof fn lemma_ramp_never_overshoots(current: int, target: int, step: int, n: nat)
    ensures
        current <= target ==> current <= ramp_after(current, target, step, n) <= target,
        current >= target ==> target <= ramp_after(current, target, step, n) <= current,
{
    assert(step > 0 ==> n * step >= 0) by (nonlinear_arith);
    assert(step < 0 ==> n * step <= 0) by (nonlinear_arith);
}

/// A ramp only ever comes closer to its target: of two samples the later one
/// is at least as near, and lies on the same side.
pub proof fn lemma_ramp_monotone(current: int, target: int, step: int, m: nat, n: nat)
    requires
        m <= n,
    ensures
        distance(ramp_after(current, target, step, n), target) <= distance(
            ramp_after(current, target, step, m),
            target,
        ),
        current <= target ==> ramp_after(current, target, step, m) <= ramp_after(
            current,
            target,
            step,
            n,
        ),
        current >= target ==> ramp_after(current, target, step, m) >= ramp_after(
            current,
            target,
            step,
            n,
        ),
{
    assert(step > 0 ==> m * step <= n * step) by (nonlinear_arith)
        requires
            m <= n,
    ;
    assert(step < 0 ==> m * step >= n * step) by (nonlinear_arith)
        requires
            m <= n,
    ;
    assert(step > 0 ==> m * step >= 0) by (nonlinear_arith);
    assert(step < 0 ==> m * step <= 0) by (nonlinear_arith);
}

/// Running a ramp for `m` samples and then for `n` more is running it for
/// `m + n` samples.
pub proof fn lemma_ramp_composes(current: int, target: int, step: int, m: nat, n: nat)
    ensures
        ramp_after(ramp_after(current, target, step, m), target, step, n) == ramp_after(
            current,
            target,
            step,
            m + n,
        ),
{
    assert((m + n) * step == m * step + n * step) by (nonlinear_arith);
    assert(step > 0 ==> m * step >= 0 && n * step >= 0) by (nonlinear_arith);
    assert(step < 0 ==> m * step <= 0 && n * step <= 0) by (nonlinear_arith);
}

/// A ramp that has reached its target stays on it, whatever the step.
pub proof fn lemma_ramp_settled(target: int, step: int, n: nat)
    ensures
        ramp_after(target, target, step, n) == target,
{
}

/// Within one block the ramp arrives: once the block has run for a tenth of
/// a second of samples, the value is exactly the target.
pub proof fn lemma_block_converges(current: int, target: int, sample_rate: int, n: nat)
    requires
        sample_rate > 0,
        n * RAMP_RATE >= sample_rate,
    ensures
        block_value(current, target, sample_rate, n) == target,
{
    let gap = distance(current, target);
    let q = (gap * RAMP_RATE + sample_rate - 1) / sample_rate;
    assert(n * q >= gap) by (nonlinear_arith)
        requires
            sample_rate > 0,
            gap >= 0,
            n * 10 >= sample_rate,
            q == (gap * 10 + sample_rate - 1) / sample_rate,
    ;
    assert(n * (-q) == -(n * q)) by (nonlinear_arith);
    lemma_step_points_at_target(current, target, sample_rate);
}

/// Every block with at least one sample makes headway: the distance to the
/// target shrinks by at least the number of samples, or is gone. However
/// short the blocks are, a target that is held is reached after finitely many
/// samples.
pub proof fn lemma_block_makes_headway(current: int, target: int, sample_rate: int, n: nat)
    requires
        sample_rate > 0,
    ensures
        distance(block_value(current, target, sample_rate, n), target) <= distance(
            current,
            target,
        ) - n || block_value(current, target, sample_rate, n) == target,
{
    let step = ramp_step_size(current, target, sample_rate);
    lemma_step_points_at_target(current, target, sample_rate);
    assert(step > 0 ==> n * step >= n) by (nonlinear_arith);
    assert(step < 0 ==> n * step <= -n) by (nonlinear_arith);
}

/// The value after a run of blocks, each of as many samples as `blocks`
/// says, that all aim at `target`: every block fixes its step anew from where
/// the block before it ended.
pub open spec fn value_after_blocks(
    current: int,
    target: int,
    sample_rate: int,
    blocks: Seq<nat>,
) -> int
    decreases blocks.len(),
{
    if blocks.len() == 0 {
        current
    } else {
        value_after_blocks(
            block_value(current, target, sample_rate, blocks[0]),
            target,
            sample_rate,
            blocks.drop_first(),
        )
    }
}

/// The number of samples in a run of blocks.
pub open spec fn samples_in(blocks: Seq<nat>) -> nat
    decreases blocks.len(),
{
    if blocks.len() == 0 {
        0
    } else {
        blocks[0] + samples_in(blocks.drop_first())
    }
}

/// Over any run of blocks that aim at one target the value stays between
/// where it started and the target, and it is on the target once the blocks
/// hold as many samples as there were grid steps to cover.
pub proof fn lemma_blocks_converge(current: int, target: int, sample_rate: int, blocks: Seq<nat>)
    requires
        sample_rate > 0,
    ensures
        current <= target ==> current <= value_after_blocks(current, target, sample_rate, blocks)
            <= target,
        current >= target ==> target <= value_after_blocks(current, target, sample_rate, blocks)
            <= current,
        distance(value_after_blocks(current, target, sample_rate, blocks), target) <= distance(
            current,
            target,
        ) - samples_in(blocks) || value_after_blocks(current, target, sample_rate, blocks)
            == target,
    decreases blocks.len(),
{
    if blocks.len() > 0 {
        let next = block_value(current, target, sample_rate, blocks[0]);
        lemma_ramp_never_overshoots(
            current,
            target,
            ramp_step_size(current, target, sample_rate),
            blocks[0],
        );
        lemma_block_makes_headway(current, target, sample_rate, blocks[0]);
        lemma_blocks_converge(next, target, sample_rate, blocks.drop_first());
        if next == target {
            lemma_blocks_settled(target, sample_rate, blocks.drop_first());
        }
    }
}

/// A value that is on its target stays there through any run of blocks that
/// aim at it.
pub proof fn lemma_blocks_settled(target: int, sample_rate: int, blocks: Seq<nat>)
    ensures
        value_after_blocks(target, target, sample_rate, blocks) == target,
    decreases blocks.len(),
{
    if blocks.len() > 0 {
        lemma_blocks_settled(target, sample_rate, blocks.drop_first());
    }
}

} // verus!
