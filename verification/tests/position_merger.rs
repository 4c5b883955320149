use timelock::curve::{CalendarPage, DslopeTable, Processor};
use timelock::state::{CalendarAccountHeader, Point, PointerAccountHeader, VestingSchedule};

fn pointer(first_epoch: u16) -> PointerAccountHeader {
    PointerAccountHeader {
        first_epoch,
        calendar_account: [1u8; 32],
        dslope_account: [2u8; 32],
        is_initialized: true,
    }
}

fn page_at(first_epoch: u16, current_epoch: u16, point: Point) -> CalendarPage {
    let mut points = vec![
        Point {
            slope: 0,
            bias: 0,
            epoch: 0
        };
        26
    ];
    points[(current_epoch - first_epoch) as usize] = point;
    CalendarPage {
        header: CalendarAccountHeader {
            last_filed_epoch: current_epoch,
            is_initialized: true,
        },
        points,
    }
}

fn empty_table() -> DslopeTable {
    DslopeTable {
        deltas: vec![0i128; 26],
    }
}

fn empty_schedule() -> VestingSchedule {
    Processor::get_empty_schedule().unwrap()
}

const EPOCH_TS_10: u64 = 1641427200 + 10 * 604800;
const EPOCH_TS_30: u64 = 1641427200 + 30 * 604800;
const EPOCH_TS_60: u64 = 1641427200 + 60 * 604800;

#[test]
fn merge_then_inverse_restores_checkpoint_and_table() {
    let cal_ptr = pointer(0);
    let base_point = Point {
        slope: 100,
        bias: 1000000000,
        epoch: 10,
    };
    let mut page = page_at(0, 10, base_point);
    // The schedule releases at epoch 30, which lives in the next era.
    let unlock_ptr = pointer(26);
    let mut unlock_table = empty_table();
    let mut dummy_ptr = pointer(52);
    let mut dummy_table = empty_table();
    let schedule = VestingSchedule {
        release_time: EPOCH_TS_30,
        amount: 2000000000,
        creation_epoch: 10,
    };
    // u_slope = 2e9 / 126230400 = 15; u_bias = 15 * 20 epochs of seconds.
    let u_slope = 15i128;
    let u_bias = 15i128 * (EPOCH_TS_30 as i128 - EPOCH_TS_10 as i128);

    Processor::save_user_info_to_protocol(
        &cal_ptr,
        &mut page,
        &unlock_ptr,
        &mut unlock_table,
        &dummy_ptr,
        &mut dummy_table,
        empty_schedule(),
        schedule,
        10,
    )
    .unwrap();
    let merged = Processor::get_last_filed_point(&cal_ptr, &page).unwrap();
    assert_eq!(merged.slope, 100 + u_slope);
    assert_eq!(merged.bias, 1000000000 + u_bias);
    assert_eq!(merged.epoch, 10);
    assert_eq!(unlock_table.deltas[4], -u_slope);

    dummy_ptr = pointer(52);
    Processor::save_user_info_to_protocol(
        &cal_ptr,
        &mut page,
        &dummy_ptr,
        &mut dummy_table,
        &unlock_ptr,
        &mut unlock_table,
        schedule,
        empty_schedule(),
        10,
    )
    .unwrap();
    let restored = Processor::get_last_filed_point(&cal_ptr, &page).unwrap();
    assert_eq!(restored, base_point);
    assert_eq!(unlock_table.deltas, vec![0i128; 26]);
    assert_eq!(dummy_table.deltas, vec![0i128; 26]);
}

#[test]
fn two_deposits_leave_no_residual_table_entry() {
    let cal_ptr = pointer(0);
    let base_point = Point {
        slope: 100,
        bias: 1000000000,
        epoch: 10,
    };
    let mut page = page_at(0, 10, base_point);
    let ptr_b = pointer(26);
    let mut table_b = empty_table();
    let ptr_c = pointer(52);
    let mut table_c = empty_table();
    let mut dummy_table = empty_table();
    let first_deposit = VestingSchedule {
        release_time: EPOCH_TS_30,
        amount: 2000000000,
        creation_epoch: 10,
    };
    let second_deposit = VestingSchedule {
        release_time: EPOCH_TS_60,
        amount: 3000000000,
        creation_epoch: 10,
    };
    // u1 = 2e9 / 126230400 = 15; u2 = 3e9 / 126230400 = 23.

    Processor::save_user_info_to_protocol(
        &cal_ptr,
        &mut page,
        &ptr_b,
        &mut table_b,
        &ptr_c,
        &mut dummy_table,
        empty_schedule(),
        first_deposit,
        10,
    )
    .unwrap();
    assert_eq!(table_b.deltas[4], -15);

    // The second deposit replays the first as its "old" schedule.
    Processor::save_user_info_to_protocol(
        &cal_ptr,
        &mut page,
        &ptr_c,
        &mut table_c,
        &ptr_b,
        &mut table_b,
        first_deposit,
        second_deposit,
        10,
    )
    .unwrap();

    // No residual entry at the first deposit's slot; exactly one at the
    // second deposit's slot.
    assert_eq!(table_b.deltas, vec![0i128; 26]);
    assert_eq!(table_c.deltas[8], -23);
    for (i, delta) in table_c.deltas.iter().enumerate() {
        if i != 8 {
            assert_eq!(*delta, 0);
        }
    }
    let merged = Processor::get_last_filed_point(&cal_ptr, &page).unwrap();
    assert_eq!(merged.slope, 100 + 23);
    let u1_bias = 15i128 * (EPOCH_TS_30 as i128 - EPOCH_TS_10 as i128);
    let u2_bias = 23i128 * (EPOCH_TS_60 as i128 - EPOCH_TS_10 as i128);
    assert_eq!(merged.bias, 1000000000 + u2_bias);
    assert_eq!(
        merged.bias,
        1000000000 + u1_bias + (u2_bias - u1_bias),
    );
}

#[test]
fn same_release_epoch_nets_in_one_slot() {
    let cal_ptr = pointer(0);
    let mut page = page_at(
        0,
        10,
        Point {
            slope: 100,
            bias: 1000000000,
            epoch: 10,
        },
    );
    let unlock_ptr = pointer(26);
    let mut unlock_table = empty_table();
    let mut dummy_table = empty_table();
    let old_schedule = VestingSchedule {
        release_time: EPOCH_TS_30,
        amount: 2000000000,
        creation_epoch: 10,
    };
    // Same release time, larger amount: only the old slot is adjusted.
    let new_schedule = VestingSchedule {
        release_time: EPOCH_TS_30,
        amount: 3000000000,
        creation_epoch: 10,
    };
    Processor::save_user_info_to_protocol(
        &cal_ptr,
        &mut page,
        &pointer(52),
        &mut dummy_table,
        &unlock_ptr,
        &mut unlock_table,
        old_schedule,
        new_schedule,
        10,
    )
    .unwrap();
    // Netted: +u_old - u_new = 15 - 23 = -8 in the shared slot.
    assert_eq!(unlock_table.deltas[4], -8);
    assert_eq!(dummy_table.deltas, vec![0i128; 26]);
    let merged = Processor::get_last_filed_point(&cal_ptr, &page).unwrap();
    assert_eq!(merged.slope, 100 + (23 - 15));
}

#[test]
fn merge_clamps_checkpoint_at_zero() {
    let cal_ptr = pointer(0);
    let mut page = page_at(
        0,
        10,
        Point {
            slope: 3,
            bias: 5,
            epoch: 10,
        },
    );
    let unlock_ptr = pointer(26);
    let mut unlock_table = DslopeTable {
        deltas: vec![-15i128; 26],
    };
    let mut dummy_table = empty_table();
    let old_schedule = VestingSchedule {
        release_time: EPOCH_TS_30,
        amount: 2000000000,
        creation_epoch: 10,
    };
    // Removing a schedule whose contribution exceeds the stored checkpoint
    // clamps slope and bias at zero, never below.
    Processor::save_user_info_to_protocol(
        &cal_ptr,
        &mut page,
        &pointer(52),
        &mut dummy_table,
        &unlock_ptr,
        &mut unlock_table,
        old_schedule,
        empty_schedule(),
        10,
    )
    .unwrap();
    let merged = Processor::get_last_filed_point(&cal_ptr, &page).unwrap();
    assert_eq!(merged.slope, 0);
    assert_eq!(merged.bias, 0);
    assert_eq!(unlock_table.deltas[4], -15 + 15);
}

#[test]
fn advance_and_merge_is_one_atomic_operation() {
    // A deposit arriving one epoch into a fresh era: the curve is advanced
    // across the boundary and the schedule is merged into the new era's
    // checkpoint, all in one call.
    let start_ptr = pointer(0);
    let end_ptr = pointer(26);
    let mut start_page = page_at(
        0,
        25,
        Point {
            slope: 4,
            bias: 1000000000,
            epoch: 25,
        },
    );
    let mut end_page = page_at(
        26,
        26,
        Point {
            slope: 0,
            bias: 0,
            epoch: 0,
        },
    );
    let start_table = empty_table();
    let end_table = empty_table();
    let unlock_ptr = pointer(26);
    let mut unlock_table = empty_table();
    let mut dummy_table = empty_table();
    // Releases at epoch 30: u_slope = 15, inside the end era.
    let deposit = VestingSchedule {
        release_time: EPOCH_TS_30,
        amount: 2000000000,
        creation_epoch: 26,
    };

    let finished_at_start = Processor::advance_and_merge(
        &start_ptr,
        &mut start_page,
        &start_table,
        &end_ptr,
        &mut end_page,
        &end_table,
        &unlock_ptr,
        &mut unlock_table,
        &pointer(52),
        &mut dummy_table,
        empty_schedule(),
        deposit,
        26,
    )
    .unwrap();
    assert!(!finished_at_start);

    // The boundary checkpoint decayed once, then took the deposit.
    let decayed_bias = 1000000000 - 4 * 604800;
    let now_ts = 1641427200u64 + 26 * 604800;
    let u_bias = 15i128 * (EPOCH_TS_30 as i128 - now_ts as i128);
    let merged = Processor::get_last_filed_point(&end_ptr, &end_page).unwrap();
    assert_eq!(
        merged,
        Point {
            slope: 4 + 15,
            bias: decayed_bias + u_bias,
            epoch: 26,
        }
    );
    // The start era is untouched, the decay table carries the release.
    assert_eq!(start_page.header.last_filed_epoch, 25);
    assert_eq!(unlock_table.deltas[4], -15);
    assert_eq!(end_page.header.last_filed_epoch, 26);
}
