//! The checkpoint curve engine.
//!
//! A calendar page holds one era's checkpoints and a cursor; a
//! scheduled-decay table holds one signed delta per epoch of the era.  The
//! engine advances a page incrementally to the present, merges one
//! depositor's schedule change into the freshly advanced checkpoint, and
//! evaluates voting power, all against the model in [`crate::model`].

use crate::error::VestingError;
use crate::model::{
    advance_point, lemma_advance_point_bounds, lemma_matured_le_total,
    lemma_schedule_power_bound, lemma_total_amount_prefix_le, spec_matured_amount,
    spec_total_amount, spec_epoch_of_ts, spec_epoch_ts, spec_merge_point, spec_point_power,
    spec_schedule_bias, spec_schedule_power, spec_schedule_slope, spec_total_power, step_point,
    CurvePoint,
    EPOCHS_IN_ERA, MAX_DSLOPE_DELTA, MAX_LOCK_TIME, MAX_POINT_BIAS, MAX_POINT_SLOPE,
    SECONDS_IN_EPOCH, ZERO_EPOCH_TS,
};
use crate::state::{
    pack_schedules_at, CalendarAccountHeader, Point, PointerAccountHeader,
    VestingSchedule, DATA_HEADER_LEN, SCHEDULE_LEN,
};
use vstd::prelude::*;

verus! {

/// One era's checkpoints: the cursor header and one point slot per epoch
/// of the era.
pub struct CalendarPage {
    pub header: CalendarAccountHeader,
    pub points: Vec<Point>,
}

/// One era's scheduled decay deltas: `deltas[i]` is the net slope change
/// taking effect at epoch `first_epoch + i`.
pub struct DslopeTable {
    pub deltas: Vec<i128>,
}

/// A stored checkpoint the engine accepts: components non-negative and far
/// below the overflow-safe caps.
pub open spec fn point_in_range(p: Point) -> bool {
    &&& 0 <= p.slope <= MAX_POINT_SLOPE
    &&& 0 <= p.bias <= MAX_POINT_BIAS
}

/// A checkpoint the merger accepts: as `point_in_range`, with headroom for
/// the slope growth that one catch-up pass over two eras can add.
pub open spec fn point_mergeable(p: Point) -> bool {
    &&& 0 <= p.slope
    &&& p.slope <= MAX_POINT_SLOPE as int + 2 * EPOCHS_IN_ERA as int * MAX_DSLOPE_DELTA as int
    &&& 0 <= p.bias <= MAX_POINT_BIAS
}

/// A scheduled-decay table the engine accepts: one slot per epoch of the
/// era, each below the overflow-safe cap in magnitude.
pub open spec fn table_in_range(t: DslopeTable) -> bool {
    &&& t.deltas@.len() == EPOCHS_IN_ERA
    &&& forall|i: int|
        0 <= i < t.deltas@.len() ==> -MAX_DSLOPE_DELTA <= #[trigger] t.deltas@[i]
            <= MAX_DSLOPE_DELTA
}

/// A calendar page shaped for the era starting at `first_epoch`: one slot
/// per epoch, the cursor inside the era and not before its first epoch.
pub open spec fn page_shaped(page: CalendarPage, first_epoch: int) -> bool {
    &&& page.points@.len() == EPOCHS_IN_ERA
    &&& first_epoch <= page.header.last_filed_epoch
    &&& page.header.last_filed_epoch < first_epoch + EPOCHS_IN_ERA
}

/// The point slot the page's cursor designates.
pub open spec fn spec_last_filed_point(page: CalendarPage, first_epoch: int) -> Point {
    page.points@[page.header.last_filed_epoch - first_epoch]
}

/// The deltas of `t` for epochs `from_epoch ..= to_epoch` in the era
/// starting at `first_epoch`.
pub open spec fn spec_window_deltas(
    t: DslopeTable,
    first_epoch: int,
    from_epoch: int,
    to_epoch: int,
) -> Seq<i128> {
    t.deltas@.subrange(from_epoch - first_epoch, to_epoch + 1 - first_epoch)
}

/// The number of checkpoints the advancer writes when told to fill from
/// `starting` up to `current`, bounded by the era's `ending` epoch.
pub open spec fn spec_fill_steps(starting: int, ending: int, current: int) -> nat {
    let stop = if current <= ending {
        current
    } else {
        ending
    };
    if starting <= stop {
        (stop - starting + 1) as nat
    } else {
        0
    }
}

/// The epoch the advancer's cursor reaches: `current` or the era's
/// `ending` epoch, whichever comes first.
pub open spec fn spec_fill_stop(ending: int, current: int) -> int {
    if current <= ending {
        current
    } else {
        ending
    }
}

/// The decay deltas the advancer applies when filling from `starting`.
pub open spec fn spec_fill_deltas(
    t: DslopeTable,
    first_epoch: int,
    starting: int,
    ending: int,
    current: int,
) -> Seq<i128> {
    spec_window_deltas(t, first_epoch, starting, spec_fill_stop(ending, current))
}

pub struct Processor {}

impl Processor {
    /// The timestamp at which `epoch` begins.
    pub fn get_ts_from_epoch(epoch: u16) -> (r: Result<u64, VestingError>)
        ensures
            r matches Ok(ts) && ts == spec_epoch_ts(epoch as int),
    {
        Ok(epoch as u64 * SECONDS_IN_EPOCH + ZERO_EPOCH_TS)
    }

    /// The epoch containing timestamp `ts`.  The zero epoch has epoch 0,
    /// the next epoch 1, and so on.
    pub fn get_epoch(ts: u64) -> (r: u16)
        requires
            ts >= ZERO_EPOCH_TS,
            spec_epoch_of_ts(ts as int) <= u16::MAX,
        ensures
            r == spec_epoch_of_ts(ts as int),
    {
        ((ts - ZERO_EPOCH_TS) / SECONDS_IN_EPOCH) as u16
    }

    /// The sentinel empty schedule: no amount, no release time.
    pub fn get_empty_schedule() -> (r: Result<VestingSchedule, VestingError>)
        ensures
            r matches Ok(s) && s == (VestingSchedule {
                release_time: 0,
                amount: 0,
                creation_epoch: 0,
            }),
    {
        Ok(VestingSchedule { release_time: 0, amount: 0, creation_epoch: 0 })
    }

    /// The first epoch of the era a pointer record describes.
    pub fn get_first_epoch_in_era(pointer: &PointerAccountHeader) -> (r: Result<
        u16,
        VestingError,
    >)
        ensures
            r matches Ok(e) && e == pointer.first_epoch,
    {
        Ok(pointer.first_epoch)
    }

    /// The last epoch of the era a pointer record describes.
    pub fn get_last_epoch_in_era(pointer: &PointerAccountHeader) -> (r: Result<u16, VestingError>)
        requires
            pointer.first_epoch + EPOCHS_IN_ERA - 1 <= u16::MAX,
        ensures
            r matches Ok(e) && e == pointer.first_epoch + EPOCHS_IN_ERA - 1,
    {
        Ok(pointer.first_epoch + (EPOCHS_IN_ERA - 1))
    }

    /// The slot index of `epoch` within the era starting at
    /// `first_epoch_in_era`.
    pub fn get_dslope_index_from_epoch(epoch: u16, first_epoch_in_era: u16) -> (r: Result<
        usize,
        VestingError,
    >)
        requires
            first_epoch_in_era <= epoch,
        ensures
            r matches Ok(i) && i == epoch - first_epoch_in_era,
    {
        Ok((epoch - first_epoch_in_era) as usize)
    }

    /// The first epoch of the era containing `current_ts`; timestamps
    /// before the zero epoch are rejected.
    pub fn get_first_epoch_in_new_era(current_ts: u64) -> (r: Result<u16, VestingError>)
        requires
            current_ts >= ZERO_EPOCH_TS ==> spec_epoch_of_ts(current_ts as int) <= u16::MAX,
        ensures
            current_ts < ZERO_EPOCH_TS ==> r == Err::<u16, VestingError>(
                VestingError::NegativeTime,
            ),
            current_ts >= ZERO_EPOCH_TS ==> (r matches Ok(e) && e == (spec_epoch_of_ts(
                current_ts as int,
            ) / EPOCHS_IN_ERA as int) * EPOCHS_IN_ERA as int),
    {
        if current_ts < ZERO_EPOCH_TS {
            return Err(VestingError::NegativeTime);
        }
        let epoch = Self::get_epoch(current_ts);
        let first_epoch = (epoch / EPOCHS_IN_ERA) * EPOCHS_IN_ERA;
        Ok(first_epoch)
    }

    /// The page's cursor: the highest epoch whose checkpoint is filed.
    pub fn get_last_filed_epoch(cal_account: &CalendarPage) -> (r: Result<u16, VestingError>)
        ensures
            r matches Ok(e) && e == cal_account.header.last_filed_epoch,
    {
        Ok(cal_account.header.last_filed_epoch)
    }

    /// The slot index of the page's last filed checkpoint.
    pub fn get_last_filed_point_index(
        pointer_account: &PointerAccountHeader,
        cal_account: &CalendarPage,
    ) -> (r: Result<usize, VestingError>)
        requires
            pointer_account.first_epoch <= cal_account.header.last_filed_epoch,
        ensures
            r matches Ok(i) && i == cal_account.header.last_filed_epoch
                - pointer_account.first_epoch,
    {
        Ok((cal_account.header.last_filed_epoch - pointer_account.first_epoch) as usize)
    }

    /// The page's last filed checkpoint.  The checkpoint's recorded epoch
    /// must match the page's cursor; a mismatch means corrupted data or a
    /// page that does not belong to the pointer, and is rejected before
    /// anything is read further.
    pub fn get_last_filed_point(
        pointer_account: &PointerAccountHeader,
        cal_account: &CalendarPage,
    ) -> (r: Result<Point, VestingError>)
        requires
            page_shaped(*cal_account, pointer_account.first_epoch as int),
        ensures
            spec_last_filed_point(*cal_account, pointer_account.first_epoch as int).epoch
                == cal_account.header.last_filed_epoch ==> r == Ok::<Point, VestingError>(
                spec_last_filed_point(*cal_account, pointer_account.first_epoch as int),
            ),
            spec_last_filed_point(*cal_account, pointer_account.first_epoch as int).epoch
                != cal_account.header.last_filed_epoch ==> r == Err::<Point, VestingError>(
                VestingError::PointCalendarDesyncronization,
            ),
    {
        let index = (cal_account.header.last_filed_epoch - pointer_account.first_epoch) as usize;
        let point = cal_account.points[index];
        if point.epoch != cal_account.header.last_filed_epoch {
            return Err(VestingError::PointCalendarDesyncronization);
        }
        Ok(point)
    }

    /// The scheduled decay delta at the epoch containing `ts`.  A `ts` of
    /// zero stands for "no previous schedule" and reads as zero without
    /// touching the table.
    pub fn get_dslope(
        pointer_account: &PointerAccountHeader,
        dslope_account: &DslopeTable,
        ts: u64,
    ) -> (r: Result<i128, VestingError>)
        requires
            ts != 0 ==> ts >= ZERO_EPOCH_TS,
            ts != 0 ==> spec_epoch_of_ts(ts as int) <= u16::MAX,
            ts != 0 ==> dslope_account.deltas@.len() == EPOCHS_IN_ERA,
            ts != 0 ==> pointer_account.first_epoch <= spec_epoch_of_ts(ts as int)
                < pointer_account.first_epoch + EPOCHS_IN_ERA,
        ensures
            ts == 0 ==> r == Ok::<i128, VestingError>(0),
            ts != 0 ==> r == Ok::<i128, VestingError>(
                dslope_account.deltas@[spec_epoch_of_ts(ts as int)
                    - pointer_account.first_epoch],
            ),
    {
        if ts == 0 {
            return Ok(0);
        }
        let era_starting_epoch = pointer_account.first_epoch;
        let unlock_epoch = Self::get_epoch(ts);
        let dslope_index = (unlock_epoch - era_starting_epoch) as usize;
        Ok(dslope_account.deltas[dslope_index])
    }

    /// Adds `dslope_delta` to the table slot of the epoch containing the
    /// schedule's release time, leaving every other slot unchanged.
    pub fn save_dslope(
        pointer_account: &PointerAccountHeader,
        dslope_account: &mut DslopeTable,
        dslope_delta: i128,
        schedule: VestingSchedule,
    ) -> (r: Result<(), VestingError>)
        requires
            schedule.release_time >= ZERO_EPOCH_TS,
            spec_epoch_of_ts(schedule.release_time as int) <= u16::MAX,
            old(dslope_account).deltas@.len() == EPOCHS_IN_ERA,
            pointer_account.first_epoch <= spec_epoch_of_ts(schedule.release_time as int)
                < pointer_account.first_epoch + EPOCHS_IN_ERA,
            i128::MIN <= old(dslope_account).deltas@[spec_epoch_of_ts(
                schedule.release_time as int,
            ) - pointer_account.first_epoch] + dslope_delta <= i128::MAX,
        ensures
            r matches Ok(u) && u == (),
            final(dslope_account).deltas@ == old(dslope_account).deltas@.update(
                spec_epoch_of_ts(schedule.release_time as int)
                    - pointer_account.first_epoch as int,
                (old(dslope_account).deltas@[spec_epoch_of_ts(schedule.release_time as int)
                    - pointer_account.first_epoch] + dslope_delta) as i128,
            ),
    {
        let era_starting_epoch = pointer_account.first_epoch;
        let unlock_epoch = Self::get_epoch(schedule.release_time);
        let dslope_index = (unlock_epoch - era_starting_epoch) as usize;
        let existing_dslope_value = dslope_account.deltas[dslope_index];
        let new_dslope_value = existing_dslope_value + dslope_delta;
        dslope_account.deltas.set(dslope_index, new_dslope_value);
        Ok(())
    }

    /// The catch-up loop over one era.  Writes one checkpoint per epoch
    /// from `starting_epoch` up to `current_epoch` or `ending_epoch`,
    /// whichever comes first, continuing the curve from
    /// `last_filed_point`, and moves the page's cursor to the last epoch
    /// written.  Each step decays the bias at the previous slope and
    /// applies the scheduled decay delta of the epoch being filed, both
    /// clamped at zero.  When there is nothing to fill, the page is left
    /// untouched and the starting checkpoint is handed back.
    pub fn fill_in_window(
        window_pointer: &PointerAccountHeader,
        window_cal: &mut CalendarPage,
        window_dslope: &DslopeTable,
        current_epoch: u16,
        last_filed_point: Point,
        starting_epoch: u16,
        ending_epoch: u16,
    ) -> (r: Result<Point, VestingError>)
        requires
            old(window_cal).points@.len() == EPOCHS_IN_ERA,
            table_in_range(*window_dslope),
            starting_epoch == last_filed_point.epoch + 1,
            starting_epoch <= current_epoch,
            window_pointer.first_epoch <= starting_epoch,
            ending_epoch < window_pointer.first_epoch + EPOCHS_IN_ERA,
            ending_epoch < u16::MAX,
            0 <= last_filed_point.slope,
            last_filed_point.slope <= MAX_POINT_SLOPE as int + EPOCHS_IN_ERA as int
                * MAX_DSLOPE_DELTA as int,
            0 <= last_filed_point.bias <= MAX_POINT_BIAS,
        ensures
            ({
                let first = window_pointer.first_epoch as int;
                let steps = spec_fill_steps(
                    starting_epoch as int,
                    ending_epoch as int,
                    current_epoch as int,
                );
                let stop = spec_fill_stop(ending_epoch as int, current_epoch as int);
                let dwin = spec_fill_deltas(
                    *window_dslope,
                    first,
                    starting_epoch as int,
                    ending_epoch as int,
                    current_epoch as int,
                );
                &&& (r matches Ok(p) && p@ == advance_point(last_filed_point@, dwin, steps))
                &&& final(window_cal).points@.len() == EPOCHS_IN_ERA
                &&& forall|j: int|
                    starting_epoch - first <= j < starting_epoch - first + steps
                        ==> (#[trigger] final(window_cal).points@[j])@ == advance_point(
                        last_filed_point@,
                        dwin,
                        (j - (starting_epoch - first) + 1) as nat,
                    )
                &&& forall|j: int|
                    0 <= j < EPOCHS_IN_ERA && !(starting_epoch - first <= j < starting_epoch
                        - first + steps) ==> final(window_cal).points@[j] == old(
                        window_cal,
                    ).points@[j]
                &&& steps > 0 ==> final(window_cal).header == (CalendarAccountHeader {
                    last_filed_epoch: stop as u16,
                    is_initialized: true,
                })
                &&& steps == 0 ==> *final(window_cal) == *old(window_cal)
            }),
    {
        let first_epoch = window_pointer.first_epoch;
        if starting_epoch > ending_epoch {
            return Ok(last_filed_point);
        }
        let stop: u16 = if current_epoch <= ending_epoch {
            current_epoch
        } else {
            ending_epoch
        };
        let ghost first = first_epoch as int;
        let ghost dwin = spec_fill_deltas(
            *window_dslope,
            first,
            starting_epoch as int,
            ending_epoch as int,
            current_epoch as int,
        );
        let ghost steps_total = spec_fill_steps(
            starting_epoch as int,
            ending_epoch as int,
            current_epoch as int,
        );
        proof {
            assert(steps_total == stop - starting_epoch + 1);
            assert(dwin.len() == steps_total);
        }
        let mut last_point = last_filed_point;
        let mut epoch_counter = starting_epoch;
        while epoch_counter <= stop
            invariant
                starting_epoch <= epoch_counter <= stop + 1,
                stop == spec_fill_stop(ending_epoch as int, current_epoch as int),
                starting_epoch <= stop,
                steps_total == stop - starting_epoch + 1,
                dwin == spec_fill_deltas(
                    *window_dslope,
                    first,
                    starting_epoch as int,
                    ending_epoch as int,
                    current_epoch as int,
                ),
                dwin.len() == steps_total,
                first == window_pointer.first_epoch as int,
                first_epoch == window_pointer.first_epoch,
                first <= starting_epoch,
                ending_epoch < first + EPOCHS_IN_ERA,
                ending_epoch < u16::MAX,
                table_in_range(*window_dslope),
                window_cal.points@.len() == EPOCHS_IN_ERA,
                window_cal.header == old(window_cal).header,
                starting_epoch == last_filed_point.epoch + 1,
                0 <= last_filed_point.slope,
                last_filed_point.slope <= MAX_POINT_SLOPE as int + EPOCHS_IN_ERA as int
                    * MAX_DSLOPE_DELTA as int,
                0 <= last_filed_point.bias <= MAX_POINT_BIAS,
                last_point@ == advance_point(
                    last_filed_point@,
                    dwin,
                    (epoch_counter - starting_epoch) as nat,
                ),
                last_point.epoch == epoch_counter - 1,
                0 <= last_point.slope,
                last_point.slope <= last_filed_point.slope + (epoch_counter - starting_epoch)
                    * MAX_DSLOPE_DELTA,
                0 <= last_point.bias <= last_filed_point.bias,
                forall|j: int|
                    starting_epoch - first <= j < epoch_counter - first
                        ==> (#[trigger] window_cal.points@[j])@ == advance_point(
                        last_filed_point@,
                        dwin,
                        (j - (starting_epoch - first) + 1) as nat,
                    ),
                forall|j: int|
                    0 <= j < EPOCHS_IN_ERA && !(starting_epoch - first <= j < epoch_counter
                        - first) ==> window_cal.points@[j] == old(window_cal).points@[j],
            decreases stop + 1 - epoch_counter,
        {
            let idx = (epoch_counter - first_epoch) as usize;
            let epoch_counter_ts = Self::get_ts_from_epoch(epoch_counter)?;
            proof {
                vstd::arithmetic::div_mod::lemma_div_multiples_vanish(
                    epoch_counter as int,
                    SECONDS_IN_EPOCH as int,
                );
                assert(spec_epoch_of_ts(epoch_counter_ts as int) == epoch_counter);
            }
            let dslope = Self::get_dslope(window_pointer, window_dslope, epoch_counter_ts)?;
            proof {
                assert(dslope == window_dslope.deltas@[epoch_counter - first]);
                assert(-MAX_DSLOPE_DELTA <= window_dslope.deltas@[epoch_counter - first]
                    <= MAX_DSLOPE_DELTA);
                assert(last_point.slope <= MAX_POINT_SLOPE as int + 2 * EPOCHS_IN_ERA as int
                    * MAX_DSLOPE_DELTA as int);
                assert(last_point.slope * (SECONDS_IN_EPOCH as int) <= i128::MAX as int);
            }
            let decay = last_point.slope * (SECONDS_IN_EPOCH as i128);
            let mut new_point_bias = last_point.bias - decay;
            let mut new_point_slope = last_point.slope + dslope;
            if new_point_bias < 0 {
                new_point_bias = 0;
            }
            if new_point_slope < 0 {
                new_point_slope = 0;
            }
            let new_point = Point {
                slope: new_point_slope,
                bias: new_point_bias,
                epoch: epoch_counter,
            };
            window_cal.points.set(idx, new_point);
            proof {
                let k = epoch_counter - starting_epoch;
                assert(dwin[k] == window_dslope.deltas@[epoch_counter - first]);
                assert(new_point@ == step_point(last_point@, dslope as int));
                assert(advance_point(last_filed_point@, dwin, (k + 1) as nat) == step_point(
                    advance_point(last_filed_point@, dwin, k as nat),
                    dwin[k] as int,
                ));
            }
            last_point = new_point;
            epoch_counter = epoch_counter + 1;
        }
        window_cal.header = CalendarAccountHeader { last_filed_epoch: stop, is_initialized: true };
        Ok(last_point)
    }

    /// Brings the protocol curve up to date.  Reads the start page's last
    /// filed checkpoint, fills the start era up to `current_epoch` or the
    /// era's end, and, when `current_epoch` lies beyond the start era,
    /// continues from the boundary checkpoint into the end era.  Returns
    /// whether advancement finished inside the start window.  When the
    /// curve is already up to date nothing is touched and the second call
    /// with the same `current_epoch` performs zero iterations.
    pub fn update_protocol_curve(
        window_start_pointer: &PointerAccountHeader,
        window_start_cal: &mut CalendarPage,
        window_start_dslope: &DslopeTable,
        window_end_pointer: &PointerAccountHeader,
        window_end_cal: &mut CalendarPage,
        window_end_dslope: &DslopeTable,
        current_epoch: u16,
    ) -> (r: Result<bool, VestingError>)
        requires
            page_shaped(*old(window_start_cal), window_start_pointer.first_epoch as int),
            table_in_range(*window_start_dslope),
            table_in_range(*window_end_dslope),
            old(window_end_cal).points@.len() == EPOCHS_IN_ERA,
            point_in_range(
                spec_last_filed_point(
                    *old(window_start_cal),
                    window_start_pointer.first_epoch as int,
                ),
            ),
            old(window_start_cal).header.last_filed_epoch <= current_epoch,
            window_end_pointer.first_epoch == window_start_pointer.first_epoch
                + EPOCHS_IN_ERA,
            current_epoch < window_end_pointer.first_epoch + EPOCHS_IN_ERA,
            window_end_pointer.first_epoch + (EPOCHS_IN_ERA - 1) < u16::MAX,
        ensures
            ({
                let f1 = window_start_pointer.first_epoch as int;
                let lf = old(window_start_cal).header.last_filed_epoch as int;
                let p0 = spec_last_filed_point(*old(window_start_cal), f1);
                &&& p0.epoch != lf ==> r == Err::<bool, VestingError>(
                    VestingError::PointCalendarDesyncronization,
                ) && *final(window_start_cal) == *old(window_start_cal)
                    && *final(window_end_cal) == *old(window_end_cal)
                &&& p0.epoch == lf ==> ({
                    let f2 = window_end_pointer.first_epoch as int;
                    let s_last = f1 + EPOCHS_IN_ERA - 1;
                    let d1 = spec_fill_deltas(
                        *window_start_dslope,
                        f1,
                        lf + 1,
                        s_last,
                        current_epoch as int,
                    );
                    let k1 = spec_fill_steps(lf + 1, s_last, current_epoch as int);
                    &&& r == Ok::<bool, VestingError>(current_epoch as int <= s_last)
                    &&& final(window_start_cal).points@.len() == EPOCHS_IN_ERA
                    &&& forall|j: int|
                        lf + 1 - f1 <= j < lf + 1 - f1 + k1
                            ==> (#[trigger] final(window_start_cal).points@[j])@
                            == advance_point(p0@, d1, (j - (lf + 1 - f1) + 1) as nat)
                    &&& forall|j: int|
                        0 <= j < EPOCHS_IN_ERA && !(lf + 1 - f1 <= j < lf + 1 - f1 + k1)
                            ==> final(window_start_cal).points@[j] == old(
                            window_start_cal,
                        ).points@[j]
                    &&& k1 > 0 ==> final(window_start_cal).header == (CalendarAccountHeader {
                        last_filed_epoch: spec_fill_stop(s_last, current_epoch as int) as u16,
                        is_initialized: true,
                    })
                    &&& k1 == 0 ==> *final(window_start_cal) == *old(window_start_cal)
                    &&& current_epoch as int <= s_last ==> *final(window_end_cal) == *old(
                        window_end_cal,
                    )
                    &&& current_epoch as int > s_last ==> ({
                        let b = advance_point(p0@, d1, k1);
                        let d2 = spec_window_deltas(*window_end_dslope, f2, f2,
                            current_epoch as int);
                        let k2 = current_epoch - f2 + 1;
                        &&& final(window_end_cal).points@.len() == EPOCHS_IN_ERA
                        &&& forall|j: int|
                            0 <= j < k2 ==> (#[trigger] final(window_end_cal).points@[j])@
                                == advance_point(b, d2, (j + 1) as nat)
                        &&& forall|j: int|
                            k2 <= j < EPOCHS_IN_ERA ==> final(window_end_cal).points@[j]
                                == old(window_end_cal).points@[j]
                        &&& final(window_end_cal).header == (CalendarAccountHeader {
                            last_filed_epoch: current_epoch,
                            is_initialized: true,
                        })
                    })
                })
            }),
    {
        let last_filed_point = match Self::get_last_filed_point(
            window_start_pointer,
            window_start_cal,
        ) {
            Ok(p) => p,
            Err(e) => {
                return Err(e);
            },
        };
        let last_filed_epoch = match Self::get_last_filed_epoch(window_start_cal) {
            Ok(e) => e,
            Err(e) => {
                return Err(e);
            },
        };
        let final_epoch_in_window_start = match Self::get_last_epoch_in_era(
            window_start_pointer,
        ) {
            Ok(e) => e,
            Err(e) => {
                return Err(e);
            },
        };
        let ghost f1 = window_start_pointer.first_epoch as int;
        let ghost p0 = last_filed_point;
        let ghost d1 = spec_fill_deltas(
            *window_start_dslope,
            f1,
            last_filed_epoch + 1,
            f1 + EPOCHS_IN_ERA - 1,
            current_epoch as int,
        );
        let ghost k1 = spec_fill_steps(
            last_filed_epoch + 1,
            f1 + EPOCHS_IN_ERA - 1,
            current_epoch as int,
        );
        let mut finished_at_window_start = true;
        if last_filed_point.epoch == current_epoch {
            proof {
                assert(k1 == 0);
            }
        } else {
            let last_point = match Self::fill_in_window(
                window_start_pointer,
                window_start_cal,
                window_start_dslope,
                current_epoch,
                last_filed_point,
                last_filed_epoch + 1,
                final_epoch_in_window_start,
            ) {
                Ok(p) => p,
                Err(e) => {
                    return Err(e);
                },
            };
            proof {
                assert forall|i: int| 0 <= i < d1.len() implies -MAX_DSLOPE_DELTA
                    <= #[trigger] d1[i] <= MAX_DSLOPE_DELTA by {
                    assert(d1[i] == window_start_dslope.deltas@[last_filed_epoch + 1 - f1 + i]);
                }
                lemma_advance_point_bounds(p0@, d1, k1);
            }
            if current_epoch != last_point.epoch {
                finished_at_window_start = false;
                let first_epoch_in_window_end = match Self::get_first_epoch_in_era(
                    window_end_pointer,
                ) {
                    Ok(e) => e,
                    Err(e) => {
                        return Err(e);
                    },
                };
                let _ = match Self::fill_in_window(
                    window_end_pointer,
                    window_end_cal,
                    window_end_dslope,
                    current_epoch,
                    last_point,
                    first_epoch_in_window_end,
                    current_epoch,
                ) {
                    Ok(p) => p,
                    Err(e) => {
                        return Err(e);
                    },
                };
            }
        }
        Ok(finished_at_window_start)
    }

    /// The position merger.  Checks the page's last filed checkpoint (it
    /// must be the one for `current_epoch`), removes the old schedule's
    /// scheduled decay and schedules the new one's in the affected tables,
    /// and folds the schedule replacement into the checkpoint, clamping at
    /// zero.  When old and new schedules release at the same epoch the two
    /// contributions are netted in one slot and the new table is left
    /// untouched.
    pub fn save_user_info_to_protocol(
        pointer_account: &PointerAccountHeader,
        cal_account: &mut CalendarPage,
        new_unlock_pointer: &PointerAccountHeader,
        new_unlock_dslope: &mut DslopeTable,
        old_unlock_pointer: &PointerAccountHeader,
        old_unlock_dslope: &mut DslopeTable,
        old_schedule: VestingSchedule,
        new_schedule: VestingSchedule,
        current_epoch: u16,
    ) -> (r: Result<(), VestingError>)
        requires
            page_shaped(*old(cal_account), pointer_account.first_epoch as int),
            old(cal_account).header.last_filed_epoch == current_epoch,
            point_mergeable(
                spec_last_filed_point(*old(cal_account), pointer_account.first_epoch as int),
            ),
            old_schedule.release_time > spec_epoch_ts(current_epoch as int) ==> ({
                &&& spec_epoch_of_ts(old_schedule.release_time as int) <= u16::MAX
                &&& old_unlock_pointer.first_epoch <= spec_epoch_of_ts(
                    old_schedule.release_time as int,
                ) < old_unlock_pointer.first_epoch + EPOCHS_IN_ERA
                &&& table_in_range(*old(old_unlock_dslope))
            }),
            (new_schedule.release_time > spec_epoch_ts(current_epoch as int)
                && new_schedule.release_time != old_schedule.release_time) ==> ({
                &&& spec_epoch_of_ts(new_schedule.release_time as int) <= u16::MAX
                &&& new_unlock_pointer.first_epoch <= spec_epoch_of_ts(
                    new_schedule.release_time as int,
                ) < new_unlock_pointer.first_epoch + EPOCHS_IN_ERA
                &&& table_in_range(*old(new_unlock_dslope))
            }),
        ensures
            ({
                let f = pointer_account.first_epoch as int;
                let lf = old(cal_account).header.last_filed_epoch as int;
                let p0 = spec_last_filed_point(*old(cal_account), f);
                let now_ts = spec_epoch_ts(current_epoch as int);
                let u_old = spec_schedule_slope(old_schedule);
                let u_new = spec_schedule_slope(new_schedule);
                let old_writes = old_schedule.release_time > now_ts;
                let new_writes = new_schedule.release_time > now_ts
                    && new_schedule.release_time != old_schedule.release_time;
                let same_release = new_schedule.release_time == old_schedule.release_time;
                &&& p0.epoch != lf ==> r == Err::<(), VestingError>(
                    VestingError::PointCalendarDesyncronization,
                ) && *final(cal_account) == *old(cal_account)
                    && *final(old_unlock_dslope) == *old(old_unlock_dslope)
                    && *final(new_unlock_dslope) == *old(new_unlock_dslope)
                &&& p0.epoch == lf ==> ({
                    &&& r matches Ok(u) && u == ()
                    &&& old_writes ==> final(old_unlock_dslope).deltas@ == old(
                        old_unlock_dslope,
                    ).deltas@.update(
                        spec_epoch_of_ts(old_schedule.release_time as int)
                            - old_unlock_pointer.first_epoch,
                        (old(old_unlock_dslope).deltas@[spec_epoch_of_ts(
                            old_schedule.release_time as int,
                        ) - old_unlock_pointer.first_epoch] + u_old - (if same_release {
                            u_new
                        } else {
                            0
                        })) as i128,
                    )
                    &&& !old_writes ==> *final(old_unlock_dslope) == *old(old_unlock_dslope)
                    &&& new_writes ==> final(new_unlock_dslope).deltas@ == old(
                        new_unlock_dslope,
                    ).deltas@.update(
                        spec_epoch_of_ts(new_schedule.release_time as int)
                            - new_unlock_pointer.first_epoch,
                        (old(new_unlock_dslope).deltas@[spec_epoch_of_ts(
                            new_schedule.release_time as int,
                        ) - new_unlock_pointer.first_epoch] - u_new) as i128,
                    )
                    &&& !new_writes ==> *final(new_unlock_dslope) == *old(new_unlock_dslope)
                    &&& final(cal_account).points@.len() == EPOCHS_IN_ERA
                    &&& (final(cal_account).points@[lf - f])@ == spec_merge_point(
                        p0@,
                        old_schedule,
                        new_schedule,
                        now_ts,
                        current_epoch as int,
                    )
                    &&& forall|j: int|
                        0 <= j < EPOCHS_IN_ERA && j != lf - f
                            ==> final(cal_account).points@[j] == old(cal_account).points@[j]
                    &&& final(cal_account).header == old(cal_account).header
                })
            }),
    {
        let new_point = match Self::get_last_filed_point(pointer_account, cal_account) {
            Ok(p) => p,
            Err(e) => {
                return Err(e);
            },
        };
        let u_old_slope = old_schedule.amount / MAX_LOCK_TIME;
        let u_new_slope = new_schedule.amount / MAX_LOCK_TIME;
        let current_epoch_ts = match Self::get_ts_from_epoch(current_epoch) {
            Ok(ts) => ts,
            Err(e) => {
                return Err(e);
            },
        };
        proof {
            vstd::arithmetic::div_mod::lemma_div_is_ordered(
                old_schedule.amount as int,
                u64::MAX as int,
                MAX_LOCK_TIME as int,
            );
            vstd::arithmetic::div_mod::lemma_div_is_ordered(
                new_schedule.amount as int,
                u64::MAX as int,
                MAX_LOCK_TIME as int,
            );
            assert(0 <= u_old_slope <= 0x2300000000 && 0 <= u_new_slope <= 0x2300000000);
        }
        let old_diff: i128 = old_schedule.release_time as i128 - current_epoch_ts as i128;
        let new_diff: i128 = new_schedule.release_time as i128 - current_epoch_ts as i128;
        proof {
            assert((u_old_slope as int) * (old_diff as int)
                <= 0x2300000000 * 0x10000000000000000 && (u_old_slope as int) * (old_diff as int)
                >= -(0x2300000000 * 0x10000000000000000)) by (nonlinear_arith)
                requires
                    0 <= u_old_slope <= 0x2300000000,
                    -0x10000000000000000 <= old_diff <= 0x10000000000000000,
            ;
            assert((u_new_slope as int) * (new_diff as int)
                <= 0x2300000000 * 0x10000000000000000 && (u_new_slope as int) * (new_diff as int)
                >= -(0x2300000000 * 0x10000000000000000)) by (nonlinear_arith)
                requires
                    0 <= u_new_slope <= 0x2300000000,
                    -0x10000000000000000 <= new_diff <= 0x10000000000000000,
            ;
        }
        let u_old_bias: i128 = (u_old_slope as i128) * old_diff;
        let u_new_bias: i128 = (u_new_slope as i128) * new_diff;
        if old_schedule.release_time > current_epoch_ts {
            let mut old_delta: i128 = u_old_slope as i128;
            if new_schedule.release_time == old_schedule.release_time {
                old_delta = old_delta - u_new_slope as i128;
            }
            match Self::save_dslope(
                old_unlock_pointer,
                old_unlock_dslope,
                old_delta,
                old_schedule,
            ) {
                Ok(u) => u,
                Err(e) => {
                    return Err(e);
                },
            };
        }
        if new_schedule.release_time > current_epoch_ts && new_schedule.release_time
            != old_schedule.release_time {
            match Self::save_dslope(
                new_unlock_pointer,
                new_unlock_dslope,
                -(u_new_slope as i128),
                new_schedule,
            ) {
                Ok(u) => u,
                Err(e) => {
                    return Err(e);
                },
            };
        }
        let mut merged_slope: i128 = new_point.slope + (u_new_slope as i128 - u_old_slope
            as i128);
        let mut merged_bias: i128 = new_point.bias + (u_new_bias - u_old_bias);
        if merged_slope < 0 {
            merged_slope = 0;
        }
        if merged_bias < 0 {
            merged_bias = 0;
        }
        let merged_point = Point {
            slope: merged_slope,
            bias: merged_bias,
            epoch: current_epoch,
        };
        let index = (cal_account.header.last_filed_epoch - pointer_account.first_epoch) as usize;
        cal_account.points.set(index, merged_point);
        Ok(())
    }

    /// One atomic curve operation, the engine's outward interface: brings
    /// the window up to date and merges one depositor's schedule change
    /// into the resulting current checkpoint.  Either every checkpoint and
    /// table slot touched by the call is updated consistently, or the call
    /// reports a failure and nothing changes.
    pub fn advance_and_merge(
        window_start_pointer: &PointerAccountHeader,
        window_start_cal: &mut CalendarPage,
        window_start_dslope: &DslopeTable,
        window_end_pointer: &PointerAccountHeader,
        window_end_cal: &mut CalendarPage,
        window_end_dslope: &DslopeTable,
        new_unlock_pointer: &PointerAccountHeader,
        new_unlock_dslope: &mut DslopeTable,
        old_unlock_pointer: &PointerAccountHeader,
        old_unlock_dslope: &mut DslopeTable,
        old_schedule: VestingSchedule,
        new_schedule: VestingSchedule,
        current_epoch: u16,
    ) -> (r: Result<bool, VestingError>)
        requires
            page_shaped(*old(window_start_cal), window_start_pointer.first_epoch as int),
            table_in_range(*window_start_dslope),
            table_in_range(*window_end_dslope),
            old(window_end_cal).points@.len() == EPOCHS_IN_ERA,
            point_in_range(
                spec_last_filed_point(
                    *old(window_start_cal),
                    window_start_pointer.first_epoch as int,
                ),
            ),
            old(window_start_cal).header.last_filed_epoch <= current_epoch,
            window_end_pointer.first_epoch == window_start_pointer.first_epoch
                + EPOCHS_IN_ERA,
            current_epoch < window_end_pointer.first_epoch + EPOCHS_IN_ERA,
            window_end_pointer.first_epoch + (EPOCHS_IN_ERA - 1) < u16::MAX,
            old_schedule.release_time > spec_epoch_ts(current_epoch as int) ==> ({
                &&& spec_epoch_of_ts(old_schedule.release_time as int) <= u16::MAX
                &&& old_unlock_pointer.first_epoch <= spec_epoch_of_ts(
                    old_schedule.release_time as int,
                ) < old_unlock_pointer.first_epoch + EPOCHS_IN_ERA
                &&& table_in_range(*old(old_unlock_dslope))
            }),
            (new_schedule.release_time > spec_epoch_ts(current_epoch as int)
                && new_schedule.release_time != old_schedule.release_time) ==> ({
                &&& spec_epoch_of_ts(new_schedule.release_time as int) <= u16::MAX
                &&& new_unlock_pointer.first_epoch <= spec_epoch_of_ts(
                    new_schedule.release_time as int,
                ) < new_unlock_pointer.first_epoch + EPOCHS_IN_ERA
                &&& table_in_range(*old(new_unlock_dslope))
            }),
        ensures
            ({
                let f1 = window_start_pointer.first_epoch as int;
                let lf = old(window_start_cal).header.last_filed_epoch as int;
                let p0 = spec_last_filed_point(*old(window_start_cal), f1);
                &&& p0.epoch != lf ==> r == Err::<bool, VestingError>(
                    VestingError::PointCalendarDesyncronization,
                ) && *final(window_start_cal) == *old(window_start_cal)
                    && *final(window_end_cal) == *old(window_end_cal)
                    && *final(old_unlock_dslope) == *old(old_unlock_dslope)
                    && *final(new_unlock_dslope) == *old(new_unlock_dslope)
                &&& p0.epoch == lf ==> ({
                    let f2 = window_end_pointer.first_epoch as int;
                    let s_last = f1 + EPOCHS_IN_ERA - 1;
                    let d1 = spec_fill_deltas(
                        *window_start_dslope,
                        f1,
                        lf + 1,
                        s_last,
                        current_epoch as int,
                    );
                    let k1 = spec_fill_steps(lf + 1, s_last, current_epoch as int);
                    let d2 = spec_window_deltas(*window_end_dslope, f2, f2,
                        current_epoch as int);
                    let k2 = (current_epoch - f2 + 1) as nat;
                    let merged_base = if current_epoch as int <= s_last {
                        advance_point(p0@, d1, k1)
                    } else {
                        advance_point(advance_point(p0@, d1, k1), d2, k2)
                    };
                    let now_ts = spec_epoch_ts(current_epoch as int);
                    let u_old = spec_schedule_slope(old_schedule);
                    let u_new = spec_schedule_slope(new_schedule);
                    let old_writes = old_schedule.release_time > now_ts;
                    let new_writes = new_schedule.release_time > now_ts
                        && new_schedule.release_time != old_schedule.release_time;
                    let same_release = new_schedule.release_time == old_schedule.release_time;
                    &&& r == Ok::<bool, VestingError>(current_epoch as int <= s_last)
                    &&& old_writes ==> final(old_unlock_dslope).deltas@ == old(
                        old_unlock_dslope,
                    ).deltas@.update(
                        spec_epoch_of_ts(old_schedule.release_time as int)
                            - old_unlock_pointer.first_epoch,
                        (old(old_unlock_dslope).deltas@[spec_epoch_of_ts(
                            old_schedule.release_time as int,
                        ) - old_unlock_pointer.first_epoch] + u_old - (if same_release {
                            u_new
                        } else {
                            0
                        })) as i128,
                    )
                    &&& !old_writes ==> *final(old_unlock_dslope) == *old(old_unlock_dslope)
                    &&& new_writes ==> final(new_unlock_dslope).deltas@ == old(
                        new_unlock_dslope,
                    ).deltas@.update(
                        spec_epoch_of_ts(new_schedule.release_time as int)
                            - new_unlock_pointer.first_epoch,
                        (old(new_unlock_dslope).deltas@[spec_epoch_of_ts(
                            new_schedule.release_time as int,
                        ) - new_unlock_pointer.first_epoch] - u_new) as i128,
                    )
                    &&& !new_writes ==> *final(new_unlock_dslope) == *old(new_unlock_dslope)
                    &&& final(window_start_cal).points@.len() == EPOCHS_IN_ERA
                    &&& final(window_end_cal).points@.len() == EPOCHS_IN_ERA
                    &&& current_epoch as int <= s_last ==> ({
                        &&& (final(window_start_cal).points@[current_epoch - f1])@
                            == spec_merge_point(
                            merged_base,
                            old_schedule,
                            new_schedule,
                            now_ts,
                            current_epoch as int,
                        )
                        &&& forall|j: int|
                            lf + 1 - f1 <= j < current_epoch - f1
                                ==> (#[trigger] final(window_start_cal).points@[j])@
                                == advance_point(p0@, d1, (j - (lf + 1 - f1) + 1) as nat)
                        &&& forall|j: int|
                            0 <= j < EPOCHS_IN_ERA && !(lf + 1 - f1 <= j <= current_epoch
                                - f1) && j != current_epoch - f1
                                ==> final(window_start_cal).points@[j]
                                == old(window_start_cal).points@[j]
                        &&& k1 > 0 ==> final(window_start_cal).header
                            == (CalendarAccountHeader {
                            last_filed_epoch: current_epoch,
                            is_initialized: true,
                        })
                        &&& k1 == 0 ==> final(window_start_cal).header == old(
                            window_start_cal,
                        ).header
                        &&& *final(window_end_cal) == *old(window_end_cal)
                    })
                    &&& current_epoch as int > s_last ==> ({
                        let b = advance_point(p0@, d1, k1);
                        &&& forall|j: int|
                            lf + 1 - f1 <= j < lf + 1 - f1 + k1
                                ==> (#[trigger] final(window_start_cal).points@[j])@
                                == advance_point(p0@, d1, (j - (lf + 1 - f1) + 1) as nat)
                        &&& forall|j: int|
                            0 <= j < EPOCHS_IN_ERA && !(lf + 1 - f1 <= j < lf + 1 - f1 + k1)
                                ==> final(window_start_cal).points@[j]
                                == old(window_start_cal).points@[j]
                        &&& k1 > 0 ==> final(window_start_cal).header
                            == (CalendarAccountHeader {
                            last_filed_epoch: s_last as u16,
                            is_initialized: true,
                        })
                        &&& k1 == 0 ==> *final(window_start_cal) == *old(window_start_cal)
                        &&& (final(window_end_cal).points@[current_epoch - f2])@
                            == spec_merge_point(
                            merged_base,
                            old_schedule,
                            new_schedule,
                            now_ts,
                            current_epoch as int,
                        )
                        &&& forall|j: int|
                            0 <= j < current_epoch - f2
                                ==> (#[trigger] final(window_end_cal).points@[j])@
                                == advance_point(b, d2, (j + 1) as nat)
                        &&& forall|j: int|
                            current_epoch - f2 < j < EPOCHS_IN_ERA
                                ==> final(window_end_cal).points@[j]
                                == old(window_end_cal).points@[j]
                        &&& final(window_end_cal).header == (CalendarAccountHeader {
                            last_filed_epoch: current_epoch,
                            is_initialized: true,
                        })
                    })
                })
            }),
    {
        let ghost f1 = window_start_pointer.first_epoch as int;
        let ghost f2 = window_end_pointer.first_epoch as int;
        let ghost lf = old(window_start_cal).header.last_filed_epoch as int;
        let ghost p0 = spec_last_filed_point(*old(window_start_cal), f1);
        let ghost s_last = f1 + EPOCHS_IN_ERA - 1;
        let ghost d1 = spec_fill_deltas(
            *window_start_dslope,
            f1,
            lf + 1,
            s_last,
            current_epoch as int,
        );
        let ghost k1 = spec_fill_steps(lf + 1, s_last, current_epoch as int);
        let ghost d2 = spec_window_deltas(*window_end_dslope, f2, f2, current_epoch as int);
        let ghost k2 = (current_epoch - f2 + 1) as nat;
        let finished_at_window_start = match Self::update_protocol_curve(
            window_start_pointer,
            window_start_cal,
            window_start_dslope,
            window_end_pointer,
            window_end_cal,
            window_end_dslope,
            current_epoch,
        ) {
            Ok(b) => b,
            Err(e) => {
                return Err(e);
            },
        };
        proof {
            assert forall|i: int| 0 <= i < d1.len() implies -MAX_DSLOPE_DELTA
                <= #[trigger] d1[i] <= MAX_DSLOPE_DELTA by {
                assert(d1[i] == window_start_dslope.deltas@[lf + 1 - f1 + i]);
            }
            lemma_advance_point_bounds(p0@, d1, k1);
            if current_epoch as int > s_last {
                assert forall|i: int| 0 <= i < d2.len() implies -MAX_DSLOPE_DELTA
                    <= #[trigger] d2[i] <= MAX_DSLOPE_DELTA by {
                    assert(d2[i] == window_end_dslope.deltas@[f2 + i - f2]);
                }
                lemma_advance_point_bounds(advance_point(p0@, d1, k1), d2, k2);
            }
        }
        if finished_at_window_start {
            match Self::save_user_info_to_protocol(
                window_start_pointer,
                window_start_cal,
                new_unlock_pointer,
                new_unlock_dslope,
                old_unlock_pointer,
                old_unlock_dslope,
                old_schedule,
                new_schedule,
                current_epoch,
            ) {
                Ok(u) => u,
                Err(e) => {
                    return Err(e);
                },
            };
        } else {
            match Self::save_user_info_to_protocol(
                window_end_pointer,
                window_end_cal,
                new_unlock_pointer,
                new_unlock_dslope,
                old_unlock_pointer,
                old_unlock_dslope,
                old_schedule,
                new_schedule,
                current_epoch,
            ) {
                Ok(u) => u,
                Err(e) => {
                    return Err(e);
                },
            };
        }
        Ok(finished_at_window_start)
    }

    /// A depositor's voting power at `current_epoch`: the sum over their
    /// schedules of the remaining locked value, each term clamped at zero.
    pub fn get_user_voting_power(
        schedules: &Vec<VestingSchedule>,
        current_epoch: u16,
    ) -> (r: Result<i128, VestingError>)
        requires
            schedules@.len() <= 0x100000,
        ensures
            r matches Ok(p) && p == spec_total_power(
                schedules@,
                spec_epoch_ts(current_epoch as int),
            ),
            r matches Ok(p) && p >= 0,
    {
        let current_epoch_ts = match Self::get_ts_from_epoch(current_epoch) {
            Ok(ts) => ts,
            Err(e) => {
                return Err(e);
            },
        };
        let ghost now_ts = spec_epoch_ts(current_epoch as int);
        let count = schedules.len();
        let mut sum: i128 = 0;
        let mut i: usize = 0;
        while i < count
            invariant
                i <= count,
                count == schedules@.len(),
                count <= 0x100000,
                now_ts == spec_epoch_ts(current_epoch as int),
                current_epoch_ts == now_ts,
                sum == spec_total_power(schedules@.subrange(0, i as int), now_ts),
                0 <= sum <= i * 0x23000000000000000000000000,
            decreases count - i,
        {
            let s = schedules[i];
            let slope = s.amount / MAX_LOCK_TIME;
            let creation_ts = match Self::get_ts_from_epoch(s.creation_epoch) {
                Ok(ts) => ts,
                Err(e) => {
                    return Err(e);
                },
            };
            proof {
                vstd::arithmetic::div_mod::lemma_div_is_ordered(
                    s.amount as int,
                    u64::MAX as int,
                    MAX_LOCK_TIME as int,
                );
                assert(0 <= slope <= 0x2300000000);
            }
            let release_diff: i128 = s.release_time as i128 - creation_ts as i128;
            let elapsed_diff: i128 = current_epoch_ts as i128 - creation_ts as i128;
            proof {
                assert((slope as int) * (release_diff as int) <= 0x2300000000
                    * 0x10000000000000000 && (slope as int) * (release_diff as int)
                    >= -(0x2300000000 * 0x10000000000000000)) by (nonlinear_arith)
                    requires
                        0 <= slope <= 0x2300000000,
                        -0x10000000000000000 <= release_diff <= 0x10000000000000000,
                ;
                assert((slope as int) * (elapsed_diff as int) <= 0x2300000000
                    * 0x10000000000000000 && (slope as int) * (elapsed_diff as int)
                    >= -(0x2300000000 * 0x10000000000000000)) by (nonlinear_arith)
                    requires
                        0 <= slope <= 0x2300000000,
                        -0x10000000000000000 <= elapsed_diff <= 0x10000000000000000,
                ;
            }
            let bias: i128 = slope as i128 * release_diff;
            let mut voting_power: i128 = bias - slope as i128 * elapsed_diff;
            if voting_power < 0 {
                voting_power = 0;
            }
            proof {
                lemma_schedule_power_bound(s, now_ts);
                assert(voting_power == spec_schedule_power(s, now_ts));
                assert(schedules@.subrange(0, i + 1).drop_last() =~= schedules@.subrange(
                    0,
                    i as int,
                ));
                assert(schedules@.subrange(0, i + 1).last() == schedules@[i as int]);
            }
            sum = sum + voting_power;
            i = i + 1;
        }
        proof {
            assert(schedules@.subrange(0, count as int) =~= schedules@);
        }
        Ok(sum)
    }

    /// The protocol's aggregate voting power: the latest filed checkpoint's
    /// bias minus its decay since that checkpoint, clamped at zero.
    pub fn get_current_protocol_voting_power(
        pointer_account: &PointerAccountHeader,
        cal_account: &CalendarPage,
        current_epoch: u16,
    ) -> (r: Result<i128, VestingError>)
        requires
            page_shaped(*cal_account, pointer_account.first_epoch as int),
            point_in_range(
                spec_last_filed_point(*cal_account, pointer_account.first_epoch as int),
            ),
        ensures
            ({
                let p = spec_last_filed_point(*cal_account, pointer_account.first_epoch as int);
                let lf = cal_account.header.last_filed_epoch as int;
                &&& p.epoch != lf ==> r == Err::<i128, VestingError>(
                    VestingError::PointCalendarDesyncronization,
                )
                &&& p.epoch == lf ==> (r matches Ok(v) && v == spec_point_power(
                    p@,
                    spec_epoch_ts(current_epoch as int),
                ) && v >= 0)
            }),
    {
        let last_filed_point = match Self::get_last_filed_point(pointer_account, cal_account) {
            Ok(p) => p,
            Err(e) => {
                return Err(e);
            },
        };
        let current_epoch_ts = match Self::get_ts_from_epoch(current_epoch) {
            Ok(ts) => ts,
            Err(e) => {
                return Err(e);
            },
        };
        let point_ts = match Self::get_ts_from_epoch(last_filed_point.epoch) {
            Ok(ts) => ts,
            Err(e) => {
                return Err(e);
            },
        };
        let elapsed: i128 = current_epoch_ts as i128 - point_ts as i128;
        proof {
            assert(last_filed_point.slope * (elapsed as int) <= MAX_POINT_SLOPE
                * 0x1000000000 && last_filed_point.slope * (elapsed as int) >= -(MAX_POINT_SLOPE
                * 0x1000000000)) by (nonlinear_arith)
                requires
                    0 <= last_filed_point.slope <= MAX_POINT_SLOPE,
                    -0x1000000000 <= elapsed <= 0x1000000000,
            ;
        }
        let mut voting_power: i128 = last_filed_point.bias - last_filed_point.slope * elapsed;
        if voting_power < 0 {
            voting_power = 0;
        }
        Ok(voting_power)
    }

    /// Sums the token amounts of a schedule set, rejecting a set whose
    /// total does not fit the transferable range.
    pub fn get_and_validate_tokens_in_schedule(schedules: &Vec<VestingSchedule>) -> (r: Result<
        u64,
        VestingError,
    >)
        ensures
            spec_total_amount(schedules@) <= u64::MAX ==> r == Ok::<u64, VestingError>(
                spec_total_amount(schedules@) as u64,
            ),
            spec_total_amount(schedules@) > u64::MAX ==> r == Err::<u64, VestingError>(
                VestingError::AmountOverflow,
            ),
    {
        let count = schedules.len();
        let mut total: u64 = 0;
        let mut i: usize = 0;
        while i < count
            invariant
                i <= count,
                count == schedules@.len(),
                total == spec_total_amount(schedules@.subrange(0, i as int)),
            decreases count - i,
        {
            let s = schedules[i];
            proof {
                assert(schedules@.subrange(0, i + 1).drop_last() =~= schedules@.subrange(
                    0,
                    i as int,
                ));
                assert(schedules@.subrange(0, i + 1).last() == schedules@[i as int]);
            }
            if s.amount > u64::MAX - total {
                proof {
                    lemma_total_amount_prefix_le(schedules@, i + 1);
                }
                return Err(VestingError::AmountOverflow);
            }
            total = total + s.amount;
            i = i + 1;
        }
        proof {
            assert(schedules@.subrange(0, count as int) =~= schedules@);
        }
        Ok(total)
    }

    /// The unlock step of the release flow: zeroes the amount of every
    /// schedule whose release time has passed and returns the total amount
    /// released.  Schedules still locked are left as they are.
    pub fn unlock_matured_schedules(
        schedules: &mut Vec<VestingSchedule>,
        current_ts: u64,
    ) -> (total: u64)
        requires
            spec_total_amount(old(schedules)@) <= u64::MAX,
        ensures
            final(schedules)@.len() == old(schedules)@.len(),
            forall|i: int|
                0 <= i < old(schedules)@.len() ==> (#[trigger] final(schedules)@[i])
                    == (VestingSchedule {
                    release_time: old(schedules)@[i].release_time,
                    amount: if old(schedules)@[i].release_time <= current_ts {
                        0u64
                    } else {
                        old(schedules)@[i].amount
                    },
                    creation_epoch: old(schedules)@[i].creation_epoch,
                }),
            total == spec_matured_amount(old(schedules)@, current_ts as int),
    {
        let count = schedules.len();
        let mut total: u64 = 0;
        let mut i: usize = 0;
        while i < count
            invariant
                i <= count,
                count == old(schedules)@.len(),
                schedules@.len() == old(schedules)@.len(),
                spec_total_amount(old(schedules)@) <= u64::MAX,
                total == spec_matured_amount(old(schedules)@.subrange(0, i as int),
                    current_ts as int),
                0 <= total,
                forall|j: int| i <= j < count ==> schedules@[j] == old(schedules)@[j],
                forall|j: int|
                    0 <= j < i ==> (#[trigger] schedules@[j]) == (VestingSchedule {
                        release_time: old(schedules)@[j].release_time,
                        amount: if old(schedules)@[j].release_time <= current_ts {
                            0u64
                        } else {
                            old(schedules)@[j].amount
                        },
                        creation_epoch: old(schedules)@[j].creation_epoch,
                    }),
            decreases count - i,
        {
            let s = schedules[i];
            proof {
                assert(old(schedules)@.subrange(0, i + 1).drop_last() =~= old(
                    schedules,
                )@.subrange(0, i as int));
                assert(old(schedules)@.subrange(0, i + 1).last() == old(schedules)@[i as int]);
                lemma_matured_le_total(old(schedules)@.subrange(0, i + 1), current_ts as int);
                lemma_total_amount_prefix_le(old(schedules)@, i + 1);
            }
            if s.release_time <= current_ts {
                total = total + s.amount;
                schedules.set(
                    i,
                    VestingSchedule {
                        release_time: s.release_time,
                        amount: 0,
                        creation_epoch: s.creation_epoch,
                    },
                );
            }
            i = i + 1;
        }
        proof {
            assert(old(schedules)@.subrange(0, count as int) =~= old(schedules)@);
        }
        total
    }

    /// Writes a depositor's schedules into their data record, after the
    /// 33-byte data header.
    pub fn pack_schedule_vector(
        schedules: Vec<VestingSchedule>,
        account_data: &mut Vec<u8>,
    ) -> (r: Result<(), VestingError>)
        requires
            DATA_HEADER_LEN + schedules@.len() * SCHEDULE_LEN <= old(account_data)@.len(),
        ensures
            r matches Ok(u) && u == (),
            final(account_data)@.len() == old(account_data)@.len(),
            forall|i: int|
                0 <= i < schedules@.len() ==> final(account_data)@.subrange(
                    DATA_HEADER_LEN + i * SCHEDULE_LEN,
                    DATA_HEADER_LEN + i * SCHEDULE_LEN + SCHEDULE_LEN,
                ) == crate::state::spec_schedule_to_bytes(schedules@[i]),
            forall|j: int|
                0 <= j < DATA_HEADER_LEN ==> final(account_data)@[j] == old(account_data)@[j],
            forall|j: int|
                DATA_HEADER_LEN + schedules@.len() * SCHEDULE_LEN <= j < final(account_data)@.len()
                    ==> final(account_data)@[j] == old(account_data)@[j],
    {
        pack_schedules_at(&schedules, account_data, DATA_HEADER_LEN);
        Ok(())
    }
}

} // verus!
