use timelock::error::VestingError;
use timelock::state::{
    pack_schedules_into_slice, unpack_schedules, CalendarAccountHeader, DataHeader, Point,
    PointerAccountHeader, VestingSchedule, VestingScheduleHeader,
};

#[test]
fn test_state_packing() {
    let header_state = VestingScheduleHeader {
        destination_address: [7u8; 32],
        destination_address_owner: [9u8; 32],
        data_account: [11u8; 32],
        mint_address: [13u8; 32],
        is_initialized: true,
    };
    let schedule_state_0 = VestingSchedule {
        release_time: 30767976,
        amount: 969,
        creation_epoch: 5,
    };
    let schedule_state_1 = VestingSchedule {
        release_time: 32767076,
        amount: 420,
        creation_epoch: 7,
    };
    let state_size = 129 + 2 * 18;
    let mut state_array = vec![0u8; state_size];
    header_state.pack_into_slice(&mut state_array, 0);
    schedule_state_0.pack_into_slice(&mut state_array, 129);
    schedule_state_1.pack_into_slice(&mut state_array, 129 + 18);

    let mut expected: Vec<u8> = Vec::with_capacity(state_size);
    expected.extend_from_slice(&header_state.destination_address);
    expected.extend_from_slice(&header_state.destination_address_owner);
    expected.extend_from_slice(&header_state.data_account);
    expected.extend_from_slice(&header_state.mint_address);
    expected.extend_from_slice(&[header_state.is_initialized as u8]);
    expected.extend_from_slice(&schedule_state_0.release_time.to_le_bytes());
    expected.extend_from_slice(&schedule_state_0.amount.to_le_bytes());
    expected.extend_from_slice(&schedule_state_0.creation_epoch.to_le_bytes());
    expected.extend_from_slice(&schedule_state_1.release_time.to_le_bytes());
    expected.extend_from_slice(&schedule_state_1.amount.to_le_bytes());
    expected.extend_from_slice(&schedule_state_1.creation_epoch.to_le_bytes());

    assert_eq!(expected, state_array);
    assert_eq!(state_array.len(), state_size);
    let unpacked_header = VestingScheduleHeader::unpack_from_slice(&state_array);
    assert_eq!(unpacked_header, header_state);
    let unpacked_schedules = unpack_schedules(&state_array[129..]).unwrap();
    assert_eq!(unpacked_schedules[0], schedule_state_0);
    assert_eq!(unpacked_schedules[1], schedule_state_1);
}

#[test]
fn point_packing_roundtrip_and_layout() {
    let point = Point {
        slope: -1,
        bias: 283686952306183,
        epoch: 513,
    };
    let mut buf = vec![0u8; 34];
    point.pack_into_slice(&mut buf, 0);
    // -1 is sixteen 0xff bytes in two's complement, little-endian.
    assert_eq!(&buf[0..16], &[0xffu8; 16]);
    assert_eq!(&buf[16..32], &283686952306183i128.to_le_bytes());
    assert_eq!(&buf[32..34], &513u16.to_le_bytes());
    let unpacked = Point::unpack_from_slice(&buf).unwrap();
    assert_eq!(unpacked, point);
}

#[test]
fn point_unpack_rejects_short_input() {
    let buf = vec![0u8; 33];
    assert_eq!(
        Point::unpack_from_slice(&buf),
        Err(VestingError::InvalidPointLength)
    );
}

#[test]
fn calendar_header_roundtrip() {
    let header = CalendarAccountHeader {
        last_filed_epoch: 1000,
        is_initialized: true,
    };
    let mut buf = vec![0u8; 3];
    header.pack_into_slice(&mut buf, 0);
    assert_eq!(buf, vec![0xe8, 0x03, 1]);
    assert_eq!(CalendarAccountHeader::unpack_from_slice(&buf), Ok(header));
}

#[test]
fn calendar_header_rejects_short_input() {
    let buf = vec![0u8; 2];
    assert_eq!(
        CalendarAccountHeader::unpack_from_slice(&buf),
        Err(VestingError::InvalidCalHeaderLength)
    );
}

#[test]
fn pointer_header_roundtrip() {
    let header = PointerAccountHeader {
        first_epoch: 26,
        calendar_account: [3u8; 32],
        dslope_account: [4u8; 32],
        is_initialized: true,
    };
    let mut buf = vec![0u8; 67];
    header.pack_into_slice(&mut buf, 0);
    assert_eq!(&buf[0..2], &26u16.to_le_bytes());
    assert_eq!(&buf[2..34], &[3u8; 32]);
    assert_eq!(&buf[34..66], &[4u8; 32]);
    assert_eq!(buf[66], 1);
    let unpacked = PointerAccountHeader::unpack_from_slice(&buf);
    assert_eq!(unpacked, header);
}

#[test]
fn data_header_roundtrip() {
    let header = DataHeader {
        vesting_account: [42u8; 32],
        is_initialized: false,
    };
    let mut buf = vec![0u8; 33];
    header.pack_into_slice(&mut buf, 0);
    assert_eq!(&buf[0..32], &[42u8; 32]);
    assert_eq!(buf[32], 0);
    let unpacked = DataHeader::unpack_from_slice(&buf);
    assert_eq!(unpacked, header);
}

#[test]
fn unpack_schedules_ignores_trailing_bytes() {
    let schedules = vec![
        VestingSchedule {
            release_time: 1,
            amount: 2,
            creation_epoch: 3,
        },
        VestingSchedule {
            release_time: 4,
            amount: 5,
            creation_epoch: 6,
        },
    ];
    let mut buf = vec![0u8; 2 * 18 + 7];
    pack_schedules_into_slice(schedules.clone(), &mut buf);
    let unpacked = unpack_schedules(&buf).unwrap();
    assert_eq!(unpacked, schedules);
}

#[test]
fn schedule_packs_at_offset_without_touching_neighbours() {
    let schedule = VestingSchedule {
        release_time: 0x0102030405060708,
        amount: 0x1112131415161718,
        creation_epoch: 0x2122,
    };
    let mut buf = vec![0xaau8; 40];
    schedule.pack_into_slice(&mut buf, 10);
    assert_eq!(&buf[0..10], &[0xaau8; 10]);
    assert_eq!(&buf[10..18], &0x0102030405060708u64.to_le_bytes());
    assert_eq!(&buf[18..26], &0x1112131415161718u64.to_le_bytes());
    assert_eq!(&buf[26..28], &0x2122u16.to_le_bytes());
    assert_eq!(&buf[28..40], &[0xaau8; 12]);
}
