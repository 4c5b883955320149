use timelock::curve::Processor;
use timelock::error::VestingError;

const ZERO_EPOCH_TS: u64 = 1641427200;
const SECONDS_IN_EPOCH: u64 = 604800;

#[test]
fn epoch_and_timestamp_conversions() {
    assert_eq!(Processor::get_ts_from_epoch(0), Ok(ZERO_EPOCH_TS));
    assert_eq!(
        Processor::get_ts_from_epoch(3),
        Ok(ZERO_EPOCH_TS + 3 * SECONDS_IN_EPOCH)
    );
    assert_eq!(Processor::get_epoch(ZERO_EPOCH_TS), 0);
    assert_eq!(Processor::get_epoch(ZERO_EPOCH_TS + SECONDS_IN_EPOCH - 1), 0);
    assert_eq!(Processor::get_epoch(ZERO_EPOCH_TS + SECONDS_IN_EPOCH), 1);
    assert_eq!(
        Processor::get_epoch(ZERO_EPOCH_TS + 100 * SECONDS_IN_EPOCH + 17),
        100
    );
}

#[test]
fn era_boundaries() {
    let ptr = timelock::state::PointerAccountHeader {
        first_epoch: 26,
        calendar_account: [0u8; 32],
        dslope_account: [0u8; 32],
        is_initialized: true,
    };
    assert_eq!(Processor::get_first_epoch_in_era(&ptr), Ok(26));
    assert_eq!(Processor::get_last_epoch_in_era(&ptr), Ok(51));
    assert_eq!(Processor::get_dslope_index_from_epoch(30, 26), Ok(4));
}

#[test]
fn first_epoch_in_new_era_from_timestamp() {
    // Epoch 25 still belongs to the first era.
    assert_eq!(
        Processor::get_first_epoch_in_new_era(ZERO_EPOCH_TS + 25 * SECONDS_IN_EPOCH),
        Ok(0)
    );
    // Epoch 26 opens the second era.
    assert_eq!(
        Processor::get_first_epoch_in_new_era(ZERO_EPOCH_TS + 26 * SECONDS_IN_EPOCH),
        Ok(26)
    );
    assert_eq!(
        Processor::get_first_epoch_in_new_era(ZERO_EPOCH_TS + 57 * SECONDS_IN_EPOCH + 12345),
        Ok(52)
    );
}

#[test]
fn timestamps_before_zero_epoch_are_rejected() {
    assert_eq!(
        Processor::get_first_epoch_in_new_era(ZERO_EPOCH_TS - 1),
        Err(VestingError::NegativeTime)
    );
    assert_eq!(
        Processor::get_first_epoch_in_new_era(0),
        Err(VestingError::NegativeTime)
    );
}

#[test]
fn empty_schedule_is_the_sentinel() {
    let empty = Processor::get_empty_schedule().unwrap();
    assert_eq!(empty.release_time, 0);
    assert_eq!(empty.amount, 0);
    assert_eq!(empty.creation_epoch, 0);
}
