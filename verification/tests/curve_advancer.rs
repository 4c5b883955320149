use timelock::curve::{CalendarPage, DslopeTable, Processor};
use timelock::error::VestingError;
use timelock::state::{CalendarAccountHeader, Point, PointerAccountHeader};

fn pointer(first_epoch: u16) -> PointerAccountHeader {
    PointerAccountHeader {
        first_epoch,
        calendar_account: [1u8; 32],
        dslope_account: [2u8; 32],
        is_initialized: true,
    }
}

fn empty_page(last_filed_epoch: u16) -> CalendarPage {
    CalendarPage {
        header: CalendarAccountHeader {
            last_filed_epoch,
            is_initialized: true,
        },
        points: vec![
            Point {
                slope: 0,
                bias: 0,
                epoch: 0
            };
            26
        ],
    }
}

fn empty_table() -> DslopeTable {
    DslopeTable {
        deltas: vec![0i128; 26],
    }
}

#[test]
fn advance_in_one_call_has_exact_values() {
    let ptr = pointer(0);
    let mut page = empty_page(0);
    page.points[0] = Point {
        slope: 10,
        bias: 100000000,
        epoch: 0,
    };
    let mut table = empty_table();
    table.deltas[1] = -3;
    table.deltas[3] = -4;
    table.deltas[5] = 2;
    let last = Processor::get_last_filed_point(&ptr, &page).unwrap();
    let result = Processor::fill_in_window(&ptr, &mut page, &table, 5, last, 1, 25).unwrap();
    assert_eq!(
        result,
        Point {
            slope: 5,
            bias: 81856000,
            epoch: 5
        }
    );
    assert_eq!(page.header.last_filed_epoch, 5);
    assert!(page.header.is_initialized);
    assert_eq!(page.points[5], result);
    assert_eq!(
        page.points[1],
        Point {
            slope: 7,
            bias: 93952000,
            epoch: 1
        }
    );
}

#[test]
fn advancing_stepwise_matches_one_call() {
    let ptr = pointer(0);
    let start_point = Point {
        slope: 10,
        bias: 100000000,
        epoch: 0,
    };
    let mut deltas = vec![0i128; 26];
    deltas[1] = -3;
    deltas[3] = -4;
    deltas[5] = 2;

    let mut one_call = empty_page(0);
    one_call.points[0] = start_point;
    let table = DslopeTable {
        deltas: deltas.clone(),
    };
    let last = Processor::get_last_filed_point(&ptr, &one_call).unwrap();
    let direct = Processor::fill_in_window(&ptr, &mut one_call, &table, 5, last, 1, 25).unwrap();

    let mut stepped = empty_page(0);
    stepped.points[0] = start_point;
    let mut final_point = start_point;
    for now in 1u16..=5 {
        let last = Processor::get_last_filed_point(&ptr, &stepped).unwrap();
        final_point =
            Processor::fill_in_window(&ptr, &mut stepped, &table, now, last, last.epoch + 1, 25)
                .unwrap();
    }
    assert_eq!(direct, final_point);
    assert_eq!(one_call.points, stepped.points);
    assert_eq!(one_call.header, stepped.header);
}

#[test]
fn second_update_with_same_now_changes_nothing() {
    let start_ptr = pointer(0);
    let end_ptr = pointer(26);
    let mut start_page = empty_page(0);
    start_page.points[0] = Point {
        slope: 10,
        bias: 100000000,
        epoch: 0,
    };
    let mut end_page = empty_page(26);
    let start_table = empty_table();
    let end_table = empty_table();

    let first = Processor::update_protocol_curve(
        &start_ptr,
        &mut start_page,
        &start_table,
        &end_ptr,
        &mut end_page,
        &end_table,
        5,
    )
    .unwrap();
    assert!(first);
    assert_eq!(start_page.header.last_filed_epoch, 5);
    let point_after_first = Processor::get_last_filed_point(&start_ptr, &start_page).unwrap();

    let points_snapshot = start_page.points.clone();
    let header_snapshot = start_page.header;
    let second = Processor::update_protocol_curve(
        &start_ptr,
        &mut start_page,
        &start_table,
        &end_ptr,
        &mut end_page,
        &end_table,
        5,
    )
    .unwrap();
    assert!(second);
    assert_eq!(start_page.points, points_snapshot);
    assert_eq!(start_page.header, header_snapshot);
    let point_after_second = Processor::get_last_filed_point(&start_ptr, &start_page).unwrap();
    assert_eq!(point_after_first, point_after_second);
}

#[test]
fn window_spanning_era_boundary_writes_one_point_in_end_era() {
    let start_ptr = pointer(0);
    let end_ptr = pointer(26);
    let mut start_page = empty_page(25);
    start_page.points[25] = Point {
        slope: 4,
        bias: 10000000,
        epoch: 25,
    };
    let start_points_snapshot = start_page.points.clone();
    let mut end_page = empty_page(26);
    let start_table = empty_table();
    let mut end_table = empty_table();
    end_table.deltas[0] = -1;

    let finished_at_start = Processor::update_protocol_curve(
        &start_ptr,
        &mut start_page,
        &start_table,
        &end_ptr,
        &mut end_page,
        &end_table,
        26,
    )
    .unwrap();
    assert!(!finished_at_start);

    // The start era's cursor is left untouched at its maximum.
    assert_eq!(start_page.header.last_filed_epoch, 25);
    assert_eq!(start_page.points, start_points_snapshot);

    // Exactly one point is written in the end era, continuing the curve.
    assert_eq!(
        end_page.points[0],
        Point {
            slope: 3,
            bias: 10000000 - 4 * 604800,
            epoch: 26
        }
    );
    for i in 1..26 {
        assert_eq!(
            end_page.points[i],
            Point {
                slope: 0,
                bias: 0,
                epoch: 0
            }
        );
    }
    assert_eq!(end_page.header.last_filed_epoch, 26);
    assert!(end_page.header.is_initialized);
}

#[test]
fn desynchronized_cursor_is_rejected_before_any_mutation() {
    let start_ptr = pointer(0);
    let end_ptr = pointer(26);
    let mut start_page = empty_page(3);
    // Slot 3 still carries epoch 0: the cursor and the checkpoint disagree.
    let mut end_page = empty_page(26);
    let start_table = empty_table();
    let end_table = empty_table();
    let result = Processor::update_protocol_curve(
        &start_ptr,
        &mut start_page,
        &start_table,
        &end_ptr,
        &mut end_page,
        &end_table,
        5,
    );
    assert_eq!(result, Err(VestingError::PointCalendarDesyncronization));
    assert_eq!(start_page.header.last_filed_epoch, 3);
    assert_eq!(start_page.points, empty_page(3).points);
}

#[test]
fn bias_clamps_to_zero_once_fully_decayed() {
    let ptr = pointer(0);
    let mut page = empty_page(0);
    page.points[0] = Point {
        slope: 10,
        bias: 1000,
        epoch: 0,
    };
    let table = empty_table();
    let last = Processor::get_last_filed_point(&ptr, &page).unwrap();
    let result = Processor::fill_in_window(&ptr, &mut page, &table, 2, last, 1, 25).unwrap();
    // One epoch of decay at slope 10 exceeds the bias: it clamps to zero and
    // stays there.
    assert_eq!(
        page.points[1],
        Point {
            slope: 10,
            bias: 0,
            epoch: 1
        }
    );
    assert_eq!(
        result,
        Point {
            slope: 10,
            bias: 0,
            epoch: 2
        }
    );
}

#[test]
fn get_dslope_accumulates_saved_deltas() {
    let ptr = pointer(26);
    let mut table = empty_table();
    // Epoch 30 begins at this timestamp.
    let release_ts = 1641427200u64 + 30 * 604800;
    let schedule = timelock::state::VestingSchedule {
        release_time: release_ts,
        amount: 0,
        creation_epoch: 0,
    };
    Processor::save_dslope(&ptr, &mut table, 5, schedule).unwrap();
    Processor::save_dslope(&ptr, &mut table, -2, schedule).unwrap();
    assert_eq!(table.deltas[4], 3);
    assert_eq!(Processor::get_dslope(&ptr, &table, release_ts), Ok(3));
    // A zero timestamp stands for "no previous schedule" and reads as zero.
    assert_eq!(Processor::get_dslope(&ptr, &table, 0), Ok(0));
}

#[test]
fn crossing_then_recalling_with_shifted_window_changes_nothing() {
    // First call crosses the era boundary; afterwards the eras bracketing
    // "now" are the old end era and the one after it, and a second call
    // with that shifted window finds the curve up to date.
    let start_ptr = pointer(0);
    let end_ptr = pointer(26);
    let mut start_page = empty_page(25);
    start_page.points[25] = Point {
        slope: 4,
        bias: 10000000,
        epoch: 25,
    };
    let mut end_page = empty_page(26);
    let start_table = empty_table();
    let end_table = empty_table();
    let finished = Processor::update_protocol_curve(
        &start_ptr,
        &mut start_page,
        &start_table,
        &end_ptr,
        &mut end_page,
        &end_table,
        26,
    )
    .unwrap();
    assert!(!finished);

    let next_ptr = pointer(52);
    let mut next_page = empty_page(52);
    let next_table = empty_table();
    let end_points_snapshot = end_page.points.clone();
    let end_header_snapshot = end_page.header;
    let finished_again = Processor::update_protocol_curve(
        &end_ptr,
        &mut end_page,
        &end_table,
        &next_ptr,
        &mut next_page,
        &next_table,
        26,
    )
    .unwrap();
    assert!(finished_again);
    assert_eq!(end_page.points, end_points_snapshot);
    assert_eq!(end_page.header, end_header_snapshot);
    assert_eq!(next_page.points, empty_page(52).points);
}
