//! The mathematical model of the decay curve.
//!
//! Checkpoints are viewed as unbounded integer triples, catch-up is a fold
//! of single-epoch steps, and voting power is a clamped linear form.  The
//! executable engine's contracts are stated over these functions.

use crate::state::{Point, VestingSchedule};
use vstd::prelude::*;

verus! {

/// Seconds in one epoch, the time granularity of the curve.
pub const SECONDS_IN_EPOCH: u64 = 604800;

/// Epochs stored together in one calendar page / dslope table pair.
pub const EPOCHS_IN_ERA: u16 = 26;

/// Seconds between the unix zero time and the protocol's zero epoch.
pub const ZERO_EPOCH_TS: u64 = 1641427200;

/// The ceiling lock duration in seconds; a schedule's decay slope is its
/// amount divided by this constant.
pub const MAX_LOCK_TIME: u64 = 31557600 * 4;

/// Largest slope magnitude the engine accepts in a stored checkpoint.
/// Real slopes stay far below this: one schedule contributes at most
/// `u64::MAX / MAX_LOCK_TIME`, which is under `1 << 38`.
pub const MAX_POINT_SLOPE: i128 = 0x40000000000000000000000;

/// Largest bias the engine accepts in a stored checkpoint.  One schedule
/// contributes at most `(1 << 38) * (1 << 64)`.
pub const MAX_POINT_BIAS: i128 = 0x1000000000000000000000000000000;

/// Largest magnitude the engine accepts in a scheduled-decay table slot.
pub const MAX_DSLOPE_DELTA: i128 = 0x100000000000000000000;

/// A checkpoint viewed mathematically: slope, bias and epoch as unbounded
/// integers.
pub struct CurvePoint {
    pub slope: int,
    pub bias: int,
    pub epoch: int,
}

impl View for Point {
    type V = CurvePoint;

    open spec fn view(&self) -> CurvePoint {
        CurvePoint { slope: self.slope as int, bias: self.bias as int, epoch: self.epoch as int }
    }
}

/// Negative intermediate results are clamped to zero: fully vested tokens
/// contribute nothing, never a debt.
pub open spec fn clamp0(x: int) -> int {
    if x < 0 {
        0
    } else {
        x
    }
}

/// The timestamp at which `epoch` begins.
pub open spec fn spec_epoch_ts(epoch: int) -> int {
    epoch * SECONDS_IN_EPOCH as int + ZERO_EPOCH_TS as int
}

/// The epoch containing timestamp `ts` (which must not precede the zero
/// epoch).
pub open spec fn spec_epoch_of_ts(ts: int) -> int {
    (ts - ZERO_EPOCH_TS as int) / SECONDS_IN_EPOCH as int
}

/// One catch-up step: the bias decays for one epoch at the previous slope,
/// then the scheduled delta takes effect on the slope; both are clamped at
/// zero.
pub open spec fn step_point(p: CurvePoint, delta: int) -> CurvePoint {
    CurvePoint {
        slope: clamp0(p.slope + delta),
        bias: clamp0(p.bias - p.slope * SECONDS_IN_EPOCH as int),
        epoch: p.epoch + 1,
    }
}

/// The checkpoint after `k` single-epoch steps from `p`, where `deltas[i]`
/// is the scheduled decay delta taking effect at epoch `p.epoch + 1 + i`.
pub open spec fn advance_point(p: CurvePoint, deltas: Seq<i128>, k: nat) -> CurvePoint
    decreases k,
{
    if k == 0 {
        p
    } else {
        step_point(advance_point(p, deltas, (k - 1) as nat), deltas[k - 1] as int)
    }
}

/// Advancing by `j + k` single-epoch steps is the same as advancing by `j`
/// steps and then, from the resulting checkpoint, by `k` more: the catch-up
/// loop may be split anywhere without changing the final point.
pub proof fn lemma_advance_point_split(p: CurvePoint, deltas: Seq<i128>, j: nat, k: nat)
    requires
        j + k <= deltas.len(),
    ensures
        advance_point(p, deltas, j + k) == advance_point(
            advance_point(p, deltas, j),
            deltas.skip(j as int),
            k,
        ),
    decreases k,
{
    if k == 0 {
    } else {
        lemma_advance_point_split(p, deltas, j, (k - 1) as nat);
        assert(deltas.skip(j as int)[k - 1] == deltas[j + k - 1]);
    }
}

/// Bounds preserved by catch-up: the slope stays non-negative and grows at
/// most by the sum of the applied deltas' cap; the bias never increases and
/// stays non-negative.
pub proof fn lemma_advance_point_bounds(p: CurvePoint, deltas: Seq<i128>, k: nat)
    requires
        k <= deltas.len(),
        0 <= p.slope,
        0 <= p.bias,
        forall|i: int|
            0 <= i < deltas.len() ==> -MAX_DSLOPE_DELTA <= #[trigger] deltas[i]
                <= MAX_DSLOPE_DELTA,
    ensures
        0 <= advance_point(p, deltas, k).slope <= p.slope + k * MAX_DSLOPE_DELTA,
        0 <= advance_point(p, deltas, k).bias <= p.bias,
        advance_point(p, deltas, k).epoch == p.epoch + k,
    decreases k,
{
    if k == 0 {
    } else {
        lemma_advance_point_bounds(p, deltas, (k - 1) as nat);
        let q = advance_point(p, deltas, (k - 1) as nat);
        assert(-MAX_DSLOPE_DELTA <= deltas[k - 1] <= MAX_DSLOPE_DELTA);
        assert(q.slope * SECONDS_IN_EPOCH as int >= 0) by (nonlinear_arith)
            requires
                q.slope >= 0,
        ;
        assert((k - 1) * MAX_DSLOPE_DELTA + MAX_DSLOPE_DELTA == k * MAX_DSLOPE_DELTA) by (nonlinear_arith);
    }
}

/// The decay slope of one schedule.
pub open spec fn spec_schedule_slope(s: VestingSchedule) -> int {
    s.amount as int / MAX_LOCK_TIME as int
}

/// The bias one schedule contributes when evaluated at `now_ts`: its slope
/// times the seconds left until release.
pub open spec fn spec_schedule_bias(s: VestingSchedule, now_ts: int) -> int {
    spec_schedule_slope(s) * (s.release_time as int - now_ts)
}

/// One schedule's voting power at `now_ts`: the bias fixed at creation
/// minus the decay accrued since, clamped at zero.
pub open spec fn spec_schedule_power(s: VestingSchedule, now_ts: int) -> int {
    let slope = spec_schedule_slope(s);
    let creation_ts = spec_epoch_ts(s.creation_epoch as int);
    clamp0(slope * (s.release_time as int - creation_ts) - slope * (now_ts - creation_ts))
}

/// A depositor's voting power: the sum over all their schedules.
pub open spec fn spec_total_power(ss: Seq<VestingSchedule>, now_ts: int) -> int
    decreases ss.len(),
{
    if ss.len() == 0 {
        0
    } else {
        spec_total_power(ss.drop_last(), now_ts) + spec_schedule_power(ss.last(), now_ts)
    }
}

/// The protocol's voting power read off a checkpoint: the checkpoint's bias
/// minus its slope times the seconds since the checkpoint, clamped at zero.
pub open spec fn spec_point_power(p: CurvePoint, now_ts: int) -> int {
    clamp0(p.bias - p.slope * (now_ts - spec_epoch_ts(p.epoch)))
}

/// Voting power is never negative, at any evaluation time.
pub proof fn lemma_schedule_power_nonnegative(s: VestingSchedule, now_ts: int)
    ensures
        spec_schedule_power(s, now_ts) >= 0,
{
}

/// Evaluated exactly at its release timestamp, a schedule's voting power is
/// zero: the decay accrued since creation equals the bias fixed at
/// creation.
pub proof fn lemma_schedule_power_zero_at_release(s: VestingSchedule)
    ensures
        spec_schedule_power(s, s.release_time as int) == 0,
{
}

/// A sum of clamped terms is never negative.
pub proof fn lemma_total_power_nonnegative(ss: Seq<VestingSchedule>, now_ts: int)
    ensures
        spec_total_power(ss, now_ts) >= 0,
    decreases ss.len(),
{
    if ss.len() == 0 {
    } else {
        lemma_total_power_nonnegative(ss.drop_last(), now_ts);
    }
}

/// The merged checkpoint after replacing `old_s` by `new_s` at `now_ts`:
/// the old schedule's contribution leaves, the new one's enters, and both
/// components are clamped at zero.
pub open spec fn spec_merge_point(
    p: CurvePoint,
    old_s: VestingSchedule,
    new_s: VestingSchedule,
    now_ts: int,
    current_epoch: int,
) -> CurvePoint {
    CurvePoint {
        slope: clamp0(p.slope + spec_schedule_slope(new_s) - spec_schedule_slope(old_s)),
        bias: clamp0(p.bias + spec_schedule_bias(new_s, now_ts) - spec_schedule_bias(old_s, now_ts)),
        epoch: current_epoch,
    }
}

/// Merging a schedule and then merging its exact inverse (the schedule as
/// old, an empty schedule as new) returns the checkpoint's slope and bias
/// to their pre-merge values, provided the first merge did not clamp at
/// zero.
pub proof fn lemma_merge_then_inverse_restores(
    p: CurvePoint,
    s: VestingSchedule,
    empty: VestingSchedule,
    now_ts: int,
)
    requires
        empty.amount == 0,
        0 <= p.slope,
        0 <= p.bias,
        p.bias + spec_schedule_bias(s, now_ts) >= 0,
    ensures
        spec_merge_point(
            spec_merge_point(p, empty, s, now_ts, p.epoch),
            s,
            empty,
            now_ts,
            p.epoch,
        ) == p,
{
    assert(spec_schedule_slope(empty) == 0);
    assert(spec_schedule_bias(empty, now_ts) == 0);
}

/// The total token amount across a set of schedules.
pub open spec fn spec_total_amount(ss: Seq<VestingSchedule>) -> int
    decreases ss.len(),
{
    if ss.len() == 0 {
        0
    } else {
        spec_total_amount(ss.drop_last()) + ss.last().amount
    }
}

/// The token amount held by schedules already releasable at `now_ts`.
pub open spec fn spec_matured_amount(ss: Seq<VestingSchedule>, now_ts: int) -> int
    decreases ss.len(),
{
    if ss.len() == 0 {
        0
    } else {
        spec_matured_amount(ss.drop_last(), now_ts) + (if ss.last().release_time <= now_ts {
            ss.last().amount as int
        } else {
            0
        })
    }
}

/// A prefix of a schedule set never holds more tokens than the whole set.
pub proof fn lemma_total_amount_prefix_le(ss: Seq<VestingSchedule>, k: int)
    requires
        0 <= k <= ss.len(),
    ensures
        spec_total_amount(ss.subrange(0, k)) <= spec_total_amount(ss),
    decreases ss.len() - k,
{
    if k == ss.len() {
        assert(ss.subrange(0, k) =~= ss);
    } else {
        lemma_total_amount_prefix_le(ss, k + 1);
        assert(ss.subrange(0, k + 1).drop_last() =~= ss.subrange(0, k));
        assert(ss.subrange(0, k + 1).last() == ss[k]);
    }
}

/// What has matured is part of the total, and never negative.
pub proof fn lemma_matured_le_total(ss: Seq<VestingSchedule>, now_ts: int)
    ensures
        0 <= spec_matured_amount(ss, now_ts) <= spec_total_amount(ss),
    decreases ss.len(),
{
    if ss.len() == 0 {
    } else {
        lemma_matured_le_total(ss.drop_last(), now_ts);
    }
}

/// One schedule's voting power, evaluated at any epoch timestamp, is the
/// slope times the seconds left until release, clamped at zero, and stays
/// far below the overflow-safe cap.
pub proof fn lemma_schedule_power_bound(s: VestingSchedule, now_ts: int)
    requires
        0 <= now_ts,
    ensures
        spec_schedule_power(s, now_ts) == clamp0(
            spec_schedule_slope(s) * (s.release_time as int - now_ts),
        ),
        0 <= spec_schedule_power(s, now_ts) <= 0x23000000000000000000000000,
{
    let slope = spec_schedule_slope(s);
    let creation_ts = spec_epoch_ts(s.creation_epoch as int);
    vstd::arithmetic::div_mod::lemma_div_is_ordered(
        s.amount as int,
        u64::MAX as int,
        MAX_LOCK_TIME as int,
    );
    vstd::arithmetic::div_mod::lemma_div_pos_is_pos(s.amount as int, MAX_LOCK_TIME as int);
    assert(0 <= slope <= 0x2300000000);
    assert(slope * (s.release_time as int - creation_ts) - slope * (now_ts - creation_ts)
        == slope * (s.release_time as int - now_ts)) by (nonlinear_arith);
    assert(slope * (s.release_time as int - now_ts) <= 0x23000000000000000000000000)
        by (nonlinear_arith)
        requires
            0 <= slope <= 0x2300000000,
            s.release_time as int - now_ts <= 0x10000000000000000,
    ;
}

/// A depositor's total voting power is bounded by the per-schedule cap
/// times the number of schedules.
pub proof fn lemma_total_power_bound(ss: Seq<VestingSchedule>, now_ts: int)
    requires
        0 <= now_ts,
    ensures
        0 <= spec_total_power(ss, now_ts) <= ss.len() * 0x23000000000000000000000000,
    decreases ss.len(),
{
    if ss.len() == 0 {
    } else {
        lemma_total_power_bound(ss.drop_last(), now_ts);
        lemma_schedule_power_bound(ss.last(), now_ts);
    }
}

} // verus!
