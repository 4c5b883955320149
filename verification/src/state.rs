//! Stored record types and their little-endian byte layouts.
//!
//! All integers are little-endian; byte offsets are from record start:
//! - schedule record: `release_time:u64[0:8] | amount:u64[8:16] |
//!   creation_epoch:u16[16:18]` — 18 bytes, repeated;
//! - point record: `slope:i128[0:16] | bias:i128[16:32] | epoch:u16[32:34]`
//!   — 34 bytes;
//! - calendar page header: `last_filed_epoch:u16[0:2] | initialized:u8[2]`
//!   — 3 bytes, followed by point records;
//! - era pointer record: `first_epoch:u16[0:2] | calendar_ref:32B[2:34] |
//!   dslope_ref:32B[34:66] | initialized:u8[66]` — 67 bytes;
//! - data header: `vesting_ref:32B[0:32] | initialized:u8[32]` — 33 bytes;
//! - vesting header: four 32-byte references and an initialized byte — 129
//!   bytes.

use core::convert::TryInto;

use crate::error::VestingError;
use vstd::bytes::*;
use vstd::prelude::*;
use vstd::slice::slice_subrange;

verus! {

/// Length in bytes of one packed `VestingSchedule` record.
pub const SCHEDULE_LEN: usize = 18;

/// Length in bytes of one packed `Point` record.
pub const POINT_LEN: usize = 34;

/// Length in bytes of a packed `CalendarAccountHeader`.
pub const CAL_HEADER_LEN: usize = 3;

/// Length in bytes of a packed `PointerAccountHeader`.
pub const POINTER_HEADER_LEN: usize = 67;

/// Length in bytes of a packed `DataHeader`.
pub const DATA_HEADER_LEN: usize = 33;

/// Length in bytes of a packed `VestingScheduleHeader`.
pub const VESTING_HEADER_LEN: usize = 129;

/// One checkpoint of the aggregate decay curve: decay rate, remaining
/// value, and the epoch it describes.
#[derive(Clone, Copy, Debug, PartialEq, Eq, Structural)]
pub struct Point {
    pub slope: i128,
    pub bias: i128,
    pub epoch: u16,
}

/// Cursor of a calendar page: the highest epoch whose point has already
/// been computed.
#[derive(Clone, Copy, Debug, Default, PartialEq, Eq, Structural)]
pub struct CalendarAccountHeader {
    pub last_filed_epoch: u16,
    pub is_initialized: bool,
}

/// Indirection record mapping an era's first epoch to the storage objects
/// (identified by 32-byte references) that hold its calendar page and its
/// scheduled-decay table.
#[derive(Clone, Copy, Debug, PartialEq)]
pub struct PointerAccountHeader {
    pub first_epoch: u16,
    pub calendar_account: [u8; 32],
    pub dslope_account: [u8; 32],
    pub is_initialized: bool,
}

/// Header of a depositor's data record: a reference back to the vesting
/// record it belongs to.
#[derive(Clone, Copy, Debug, PartialEq)]
pub struct DataHeader {
    pub vesting_account: [u8; 32],
    pub is_initialized: bool,
}

/// Header of a depositor's vesting record: token destination, its owner,
/// the data record, and the token mint, each a 32-byte reference.
#[derive(Clone, Copy, Debug, PartialEq)]
pub struct VestingScheduleHeader {
    pub destination_address: [u8; 32],
    pub destination_address_owner: [u8; 32],
    pub data_account: [u8; 32],
    pub mint_address: [u8; 32],
    pub is_initialized: bool,
}

/// The single byte that encodes an initialized flag.
pub open spec fn spec_bool_byte(b: bool) -> u8 {
    if b {
        1u8
    } else {
        0u8
    }
}

/// The unsigned 128-bit two's-complement representation of `x`.
pub open spec fn spec_i128_to_u128_repr(x: i128) -> u128 {
    if x >= 0 {
        x as u128
    } else {
        (x + 0x100000000000000000000000000000000) as u128
    }
}

/// The signed value whose 128-bit two's-complement representation is `u`.
pub open spec fn spec_u128_to_i128_repr(u: u128) -> i128 {
    if u < 0x80000000000000000000000000000000 {
        u as i128
    } else {
        (u - 0x100000000000000000000000000000000) as i128
    }
}

/// The 16-byte little-endian two's-complement layout of `x`.
pub open spec fn spec_i128_to_le_bytes(x: i128) -> Seq<u8> {
    spec_u128_to_le_bytes(spec_i128_to_u128_repr(x))
}

/// The signed value encoded by 16 little-endian two's-complement bytes.
pub open spec fn spec_i128_from_le_bytes(s: Seq<u8>) -> i128 {
    spec_u128_to_i128_repr(spec_u128_from_le_bytes(s))
}

/// The two's-complement representation is a bijection between `i128` and
/// `u128`, so the 16-byte layout of a signed value decodes to that value.
pub proof fn lemma_i128_le_bytes_roundtrip(x: i128)
    ensures
        spec_i128_to_le_bytes(x).len() == 16,
        spec_i128_from_le_bytes(spec_i128_to_le_bytes(x)) == x,
{
    lemma_auto_spec_u128_to_from_le_bytes();
    let u = spec_i128_to_u128_repr(x);
    assert(spec_u128_to_le_bytes(u).len() == 16);
    assert(spec_u128_from_le_bytes(spec_u128_to_le_bytes(u)) == u);
    assert(spec_i128_to_le_bytes(x) == spec_u128_to_le_bytes(u));
    assert(spec_i128_from_le_bytes(spec_i128_to_le_bytes(x)) == spec_u128_to_i128_repr(u));
    if x >= 0 {
        assert(u == x as u128);
        assert(u < 0x80000000000000000000000000000000);
        assert(spec_u128_to_i128_repr(u) == x);
    } else {
        assert(u == (x + 0x100000000000000000000000000000000) as u128);
        assert(u >= 0x80000000000000000000000000000000);
        assert(spec_u128_to_i128_repr(u) == x);
    }
}

/// Relies on `i128::from_le_bytes`: 16 little-endian bytes decode to the
/// two's-complement value they represent.
#[verifier::external_body]
pub(crate) fn i128_from_le_bytes(s: &[u8]) -> (x: i128)
    requires
        s@.len() == 16,
    ensures
        x == spec_i128_from_le_bytes(s@),
{
    i128::from_le_bytes(s.try_into().unwrap())
}

/// Relies on `i128::to_le_bytes`: a signed value encodes to the 16
/// little-endian bytes of its two's-complement representation.
#[verifier::external_body]
pub(crate) fn i128_to_le_bytes(x: i128) -> (s: Vec<u8>)
    ensures
        s@ == spec_i128_to_le_bytes(x),
        s@.len() == 16,
{
    x.to_le_bytes().to_vec()
}

/// One depositor's lock record: amount, raw release timestamp, and the epoch
/// the lock was created in.  `release_time == 0` is the sentinel for an
/// empty schedule.
#[derive(Clone, Copy, Debug, PartialEq, Eq, Structural)]
pub struct VestingSchedule {
    pub release_time: u64,
    pub amount: u64,
    pub creation_epoch: u16,
}

/// The 18-byte little-endian layout of a schedule record.
pub open spec fn spec_schedule_to_bytes(s: VestingSchedule) -> Seq<u8> {
    spec_u64_to_le_bytes(s.release_time) + spec_u64_to_le_bytes(s.amount)
        + spec_u16_to_le_bytes(s.creation_epoch)
}

/// The schedule encoded by the first 18 bytes of `b`.
pub open spec fn spec_schedule_from_bytes(b: Seq<u8>) -> VestingSchedule {
    VestingSchedule {
        release_time: spec_u64_from_le_bytes(b.subrange(0, 8)),
        amount: spec_u64_from_le_bytes(b.subrange(8, 16)),
        creation_epoch: spec_u16_from_le_bytes(b.subrange(16, 18)),
    }
}

/// Packing a schedule and decoding the bytes again yields the schedule.
pub proof fn lemma_schedule_bytes_roundtrip(s: VestingSchedule)
    ensures
        spec_schedule_to_bytes(s).len() == SCHEDULE_LEN,
        spec_schedule_from_bytes(spec_schedule_to_bytes(s)) == s,
{
    lemma_auto_spec_u64_to_from_le_bytes();
    lemma_auto_spec_u16_to_from_le_bytes();
    let b = spec_schedule_to_bytes(s);
    assert(b.subrange(0, 8) =~= spec_u64_to_le_bytes(s.release_time));
    assert(b.subrange(8, 16) =~= spec_u64_to_le_bytes(s.amount));
    assert(b.subrange(16, 18) =~= spec_u16_to_le_bytes(s.creation_epoch));
}

/// Copies `src` into `dst` starting at `offset`, leaving all other bytes of
/// `dst` unchanged.
pub(crate) fn write_bytes(dst: &mut Vec<u8>, offset: usize, src: &Vec<u8>)
    requires
        offset + src@.len() <= old(dst)@.len(),
    ensures
        final(dst)@.len() == old(dst)@.len(),
        forall|j: int| 0 <= j < offset ==> final(dst)@[j] == old(dst)@[j],
        forall|j: int| offset <= j < offset + src@.len() ==> final(dst)@[j] == src@[j - offset],
        forall|j: int| offset + src@.len() <= j < final(dst)@.len() ==> final(dst)@[j] == old(dst)@[j],
{
    let n = dst.len();
    let mut i: usize = 0;
    while i < src.len()
        invariant
            i <= src@.len(),
            offset + src@.len() <= n,
            n == dst@.len(),
            dst@.len() == old(dst)@.len(),
            forall|j: int| 0 <= j < offset ==> dst@[j] == old(dst)@[j],
            forall|j: int| offset <= j < offset + i ==> dst@[j] == src@[j - offset],
            forall|j: int| offset + i <= j < dst@.len() ==> dst@[j] == old(dst)@[j],
        decreases src@.len() - i,
    {
        let b = src[i];
        dst.set(offset + i, b);
        i = i + 1;
    }
}

impl VestingSchedule {
    /// Writes the 18-byte record at `dst[offset..offset + 18]`.
    pub fn pack_into_slice(&self, dst: &mut Vec<u8>, offset: usize)
        requires
            offset + SCHEDULE_LEN <= old(dst)@.len(),
        ensures
            final(dst)@.len() == old(dst)@.len(),
            final(dst)@.subrange(offset as int, offset + SCHEDULE_LEN) == spec_schedule_to_bytes(
                *self,
            ),
            forall|j: int| 0 <= j < offset ==> final(dst)@[j] == old(dst)@[j],
            forall|j: int|
                offset + SCHEDULE_LEN <= j < final(dst)@.len() ==> final(dst)@[j] == old(dst)@[j],
    {
        let n = dst.len();
        proof {
            assert(offset + 16 <= n);
        }
        let rt = u64_to_le_bytes(self.release_time);
        write_bytes(dst, offset, &rt);
        let am = u64_to_le_bytes(self.amount);
        write_bytes(dst, offset + 8, &am);
        let ce = u16_to_le_bytes(self.creation_epoch);
        write_bytes(dst, offset + 16, &ce);
        proof {
            assert(dst@.subrange(offset as int, offset + SCHEDULE_LEN) =~= spec_schedule_to_bytes(
                *self,
            ));
        }
    }

    /// Reads the record stored in the first 18 bytes of `src`.
    pub fn unpack_from_slice(src: &[u8]) -> (r: Self)
        requires
            src@.len() >= SCHEDULE_LEN,
        ensures
            r == spec_schedule_from_bytes(src@.subrange(0, SCHEDULE_LEN as int)),
    {
        let release_time = u64_from_le_bytes(slice_subrange(src, 0, 8));
        let amount = u64_from_le_bytes(slice_subrange(src, 8, 16));
        let creation_epoch = u16_from_le_bytes(slice_subrange(src, 16, 18));
        proof {
            let b = src@.subrange(0, SCHEDULE_LEN as int);
            assert(b.subrange(0, 8) =~= src@.subrange(0, 8));
            assert(b.subrange(8, 16) =~= src@.subrange(8, 16));
            assert(b.subrange(16, 18) =~= src@.subrange(16, 18));
        }
        VestingSchedule { release_time, amount, creation_epoch }
    }
}

/// The 34-byte little-endian layout of a point record.
pub open spec fn spec_point_to_bytes(p: Point) -> Seq<u8> {
    spec_i128_to_le_bytes(p.slope) + spec_i128_to_le_bytes(p.bias) + spec_u16_to_le_bytes(p.epoch)
}

/// The point encoded by the first 34 bytes of `b`.
pub open spec fn spec_point_from_bytes(b: Seq<u8>) -> Point {
    Point {
        slope: spec_i128_from_le_bytes(b.subrange(0, 16)),
        bias: spec_i128_from_le_bytes(b.subrange(16, 32)),
        epoch: spec_u16_from_le_bytes(b.subrange(32, 34)),
    }
}

/// Packing a point and decoding the bytes again yields the point.
pub proof fn lemma_point_bytes_roundtrip(p: Point)
    ensures
        spec_point_to_bytes(p).len() == POINT_LEN,
        spec_point_from_bytes(spec_point_to_bytes(p)) == p,
{
    lemma_i128_le_bytes_roundtrip(p.slope);
    lemma_i128_le_bytes_roundtrip(p.bias);
    lemma_auto_spec_u16_to_from_le_bytes();
    let b = spec_point_to_bytes(p);
    assert(b.subrange(0, 16) =~= spec_i128_to_le_bytes(p.slope));
    assert(b.subrange(16, 32) =~= spec_i128_to_le_bytes(p.bias));
    assert(b.subrange(32, 34) =~= spec_u16_to_le_bytes(p.epoch));
}

/// The 3-byte layout of a calendar page header.
pub open spec fn spec_cal_header_to_bytes(h: CalendarAccountHeader) -> Seq<u8> {
    spec_u16_to_le_bytes(h.last_filed_epoch) + seq![spec_bool_byte(h.is_initialized)]
}

/// The calendar header encoded by the first 3 bytes of `b`.
pub open spec fn spec_cal_header_from_bytes(b: Seq<u8>) -> CalendarAccountHeader {
    CalendarAccountHeader {
        last_filed_epoch: spec_u16_from_le_bytes(b.subrange(0, 2)),
        is_initialized: b[2] == 1,
    }
}

/// Packing a calendar header and decoding the bytes yields the header.
pub proof fn lemma_cal_header_bytes_roundtrip(h: CalendarAccountHeader)
    ensures
        spec_cal_header_to_bytes(h).len() == CAL_HEADER_LEN,
        spec_cal_header_from_bytes(spec_cal_header_to_bytes(h)) == h,
{
    lemma_auto_spec_u16_to_from_le_bytes();
    let b = spec_cal_header_to_bytes(h);
    assert(b.subrange(0, 2) =~= spec_u16_to_le_bytes(h.last_filed_epoch));
}

/// The 67-byte layout of an era pointer record.
pub open spec fn spec_pointer_header_to_bytes(h: PointerAccountHeader) -> Seq<u8> {
    spec_u16_to_le_bytes(h.first_epoch) + h.calendar_account@ + h.dslope_account@
        + seq![spec_bool_byte(h.is_initialized)]
}

/// The 33-byte layout of a data header record.
pub open spec fn spec_data_header_to_bytes(h: DataHeader) -> Seq<u8> {
    h.vesting_account@ + seq![spec_bool_byte(h.is_initialized)]
}

/// The 129-byte layout of a vesting header record.
pub open spec fn spec_vesting_header_to_bytes(h: VestingScheduleHeader) -> Seq<u8> {
    h.destination_address@ + h.destination_address_owner@ + h.data_account@ + h.mint_address@
        + seq![spec_bool_byte(h.is_initialized)]
}

/// Copies a 32-byte reference into `dst` starting at `offset`, leaving all
/// other bytes of `dst` unchanged.
pub(crate) fn write_key(dst: &mut Vec<u8>, offset: usize, key: &[u8; 32])
    requires
        offset + 32 <= old(dst)@.len(),
    ensures
        final(dst)@.len() == old(dst)@.len(),
        forall|j: int| 0 <= j < offset ==> final(dst)@[j] == old(dst)@[j],
        forall|j: int| offset <= j < offset + 32 ==> final(dst)@[j] == key@[j - offset],
        forall|j: int| offset + 32 <= j < final(dst)@.len() ==> final(dst)@[j] == old(dst)@[j],
{
    let n = dst.len();
    let mut i: usize = 0;
    while i < 32
        invariant
            i <= 32,
            offset + 32 <= n,
            n == dst@.len(),
            dst@.len() == old(dst)@.len(),
            forall|j: int| 0 <= j < offset ==> dst@[j] == old(dst)@[j],
            forall|j: int| offset <= j < offset + i ==> dst@[j] == key@[j - offset],
            forall|j: int| offset + i <= j < dst@.len() ==> dst@[j] == old(dst)@[j],
        decreases 32 - i,
    {
        let b = *vstd::array::array_index_get(key, i);
        dst.set(offset + i, b);
        i = i + 1;
    }
}

/// Reads the 32-byte reference stored at `src[offset..offset + 32]`.
pub(crate) fn read_key(src: &[u8], offset: usize) -> (r: [u8; 32])
    requires
        offset + 32 <= src@.len(),
    ensures
        r@ == src@.subrange(offset as int, offset + 32),
{
    let n = src.len();
    let mut a: [u8; 32] = [0u8; 32];
    let mut i: usize = 0;
    while i < 32
        invariant
            i <= 32,
            offset + 32 <= n,
            n == src@.len(),
            forall|j: int| 0 <= j < i ==> a@[j] == src@[offset + j],
        decreases 32 - i,
    {
        let b = *vstd::slice::slice_index_get(src, offset + i);
        a[i] = b;
        i = i + 1;
    }
    proof {
        assert(a@ =~= src@.subrange(offset as int, offset + 32));
    }
    a
}

impl Point {
    /// Writes the 34-byte record at `dst[offset..offset + 34]`.
    pub fn pack_into_slice(&self, dst: &mut Vec<u8>, offset: usize)
        requires
            offset + POINT_LEN <= old(dst)@.len(),
        ensures
            final(dst)@.len() == old(dst)@.len(),
            final(dst)@.subrange(offset as int, offset + POINT_LEN) == spec_point_to_bytes(*self),
            forall|j: int| 0 <= j < offset ==> final(dst)@[j] == old(dst)@[j],
            forall|j: int|
                offset + POINT_LEN <= j < final(dst)@.len() ==> final(dst)@[j] == old(dst)@[j],
    {
        let n = dst.len();
        proof {
            assert(offset + 32 <= n);
        }
        let slope = i128_to_le_bytes(self.slope);
        write_bytes(dst, offset, &slope);
        let bias = i128_to_le_bytes(self.bias);
        write_bytes(dst, offset + 16, &bias);
        let epoch = u16_to_le_bytes(self.epoch);
        write_bytes(dst, offset + 32, &epoch);
        proof {
            assert(dst@.subrange(offset as int, offset + POINT_LEN) =~= spec_point_to_bytes(
                *self,
            ));
        }
    }

    /// Reads the record stored in the first 34 bytes of `src`; the input is
    /// rejected when it is too short to hold one.
    pub fn unpack_from_slice(src: &[u8]) -> (r: Result<Self, VestingError>)
        ensures
            src@.len() >= POINT_LEN ==> r == Ok::<Point, VestingError>(
                spec_point_from_bytes(src@.subrange(0, POINT_LEN as int)),
            ),
            src@.len() < POINT_LEN ==> r == Err::<Point, VestingError>(
                VestingError::InvalidPointLength,
            ),
    {
        if src.len() < POINT_LEN {
            return Err(VestingError::InvalidPointLength);
        }
        let slope = i128_from_le_bytes(slice_subrange(src, 0, 16));
        let bias = i128_from_le_bytes(slice_subrange(src, 16, 32));
        let epoch = u16_from_le_bytes(slice_subrange(src, 32, 34));
        proof {
            let b = src@.subrange(0, POINT_LEN as int);
            assert(b.subrange(0, 16) =~= src@.subrange(0, 16));
            assert(b.subrange(16, 32) =~= src@.subrange(16, 32));
            assert(b.subrange(32, 34) =~= src@.subrange(32, 34));
        }
        Ok(Point { slope, bias, epoch })
    }

    /// A point record carries no initialized flag of its own.
    pub fn is_initialized(&self) -> (r: bool)
        ensures
            r == true,
    {
        true
    }
}

impl CalendarAccountHeader {
    /// Writes the 3-byte header at `dst[offset..offset + 3]`.
    pub fn pack_into_slice(&self, dst: &mut Vec<u8>, offset: usize)
        requires
            offset + CAL_HEADER_LEN <= old(dst)@.len(),
        ensures
            final(dst)@.len() == old(dst)@.len(),
            final(dst)@.subrange(offset as int, offset + CAL_HEADER_LEN)
                == spec_cal_header_to_bytes(*self),
            forall|j: int| 0 <= j < offset ==> final(dst)@[j] == old(dst)@[j],
            forall|j: int|
                offset + CAL_HEADER_LEN <= j < final(dst)@.len() ==> final(dst)@[j] == old(
                    dst,
                )@[j],
    {
        let n = dst.len();
        proof {
            assert(offset + 2 <= n);
        }
        let epoch = u16_to_le_bytes(self.last_filed_epoch);
        write_bytes(dst, offset, &epoch);
        dst.set(offset + 2, if self.is_initialized { 1 } else { 0 });
        proof {
            assert(dst@.subrange(offset as int, offset + CAL_HEADER_LEN)
                =~= spec_cal_header_to_bytes(*self));
        }
    }

    /// Reads the header stored in the first 3 bytes of `src`; the input is
    /// rejected when it is too short to hold one.
    pub fn unpack_from_slice(src: &[u8]) -> (r: Result<Self, VestingError>)
        ensures
            src@.len() >= CAL_HEADER_LEN ==> r == Ok::<CalendarAccountHeader, VestingError>(
                spec_cal_header_from_bytes(src@.subrange(0, CAL_HEADER_LEN as int)),
            ),
            src@.len() < CAL_HEADER_LEN ==> r == Err::<CalendarAccountHeader, VestingError>(
                VestingError::InvalidCalHeaderLength,
            ),
    {
        if src.len() < CAL_HEADER_LEN {
            return Err(VestingError::InvalidCalHeaderLength);
        }
        let last_filed_epoch = u16_from_le_bytes(slice_subrange(src, 0, 2));
        let is_initialized = *vstd::slice::slice_index_get(src, 2) == 1;
        proof {
            let b = src@.subrange(0, CAL_HEADER_LEN as int);
            assert(b.subrange(0, 2) =~= src@.subrange(0, 2));
        }
        Ok(CalendarAccountHeader { last_filed_epoch, is_initialized })
    }

    /// Whether the page this header belongs to has been populated.
    pub fn is_initialized(&self) -> (r: bool)
        ensures
            r == self.is_initialized,
    {
        self.is_initialized
    }
}

impl PointerAccountHeader {
    /// Writes the 67-byte record at `dst[offset..offset + 67]`.
    pub fn pack_into_slice(&self, dst: &mut Vec<u8>, offset: usize)
        requires
            offset + POINTER_HEADER_LEN <= old(dst)@.len(),
        ensures
            final(dst)@.len() == old(dst)@.len(),
            final(dst)@.subrange(offset as int, offset + POINTER_HEADER_LEN)
                == spec_pointer_header_to_bytes(*self),
            forall|j: int| 0 <= j < offset ==> final(dst)@[j] == old(dst)@[j],
            forall|j: int|
                offset + POINTER_HEADER_LEN <= j < final(dst)@.len() ==> final(dst)@[j] == old(
                    dst,
                )@[j],
    {
        let n = dst.len();
        proof {
            assert(offset + 66 <= n);
        }
        let epoch = u16_to_le_bytes(self.first_epoch);
        write_bytes(dst, offset, &epoch);
        write_key(dst, offset + 2, &self.calendar_account);
        write_key(dst, offset + 34, &self.dslope_account);
        dst.set(offset + 66, if self.is_initialized { 1 } else { 0 });
        proof {
            assert(dst@.subrange(offset as int, offset + POINTER_HEADER_LEN)
                =~= spec_pointer_header_to_bytes(*self));
        }
    }

    /// Reads the record stored in the first 67 bytes of `src`.
    pub fn unpack_from_slice(src: &[u8]) -> (r: Self)
        requires
            src@.len() >= POINTER_HEADER_LEN,
        ensures
            r.first_epoch == spec_u16_from_le_bytes(src@.subrange(0, 2)),
            r.calendar_account@ == src@.subrange(2, 34),
            r.dslope_account@ == src@.subrange(34, 66),
            r.is_initialized == (src@[66] == 1),
    {
        let first_epoch = u16_from_le_bytes(slice_subrange(src, 0, 2));
        let calendar_account = read_key(src, 2);
        let dslope_account = read_key(src, 34);
        let is_initialized = *vstd::slice::slice_index_get(src, 66) == 1;
        PointerAccountHeader { first_epoch, calendar_account, dslope_account, is_initialized }
    }

    /// Whether the era this record points at has been populated.
    pub fn is_initialized(&self) -> (r: bool)
        ensures
            r == self.is_initialized,
    {
        self.is_initialized
    }
}

impl DataHeader {
    /// Writes the 33-byte record at `dst[offset..offset + 33]`.
    pub fn pack_into_slice(&self, dst: &mut Vec<u8>, offset: usize)
        requires
            offset + DATA_HEADER_LEN <= old(dst)@.len(),
        ensures
            final(dst)@.len() == old(dst)@.len(),
            final(dst)@.subrange(offset as int, offset + DATA_HEADER_LEN)
                == spec_data_header_to_bytes(*self),
            forall|j: int| 0 <= j < offset ==> final(dst)@[j] == old(dst)@[j],
            forall|j: int|
                offset + DATA_HEADER_LEN <= j < final(dst)@.len() ==> final(dst)@[j] == old(
                    dst,
                )@[j],
    {
        let n = dst.len();
        proof {
            assert(offset + 32 <= n);
        }
        write_key(dst, offset, &self.vesting_account);
        dst.set(offset + 32, if self.is_initialized { 1 } else { 0 });
        proof {
            assert(dst@.subrange(offset as int, offset + DATA_HEADER_LEN)
                =~= spec_data_header_to_bytes(*self));
        }
    }

    /// Reads the record stored in the first 33 bytes of `src`.
    pub fn unpack_from_slice(src: &[u8]) -> (r: Self)
        requires
            src@.len() >= DATA_HEADER_LEN,
        ensures
            r.vesting_account@ == src@.subrange(0, 32),
            r.is_initialized == (src@[32] == 1),
    {
        let vesting_account = read_key(src, 0);
        let is_initialized = *vstd::slice::slice_index_get(src, 32) == 1;
        DataHeader { vesting_account, is_initialized }
    }

    /// Whether the data record has been populated.
    pub fn is_initialized(&self) -> (r: bool)
        ensures
            r == self.is_initialized,
    {
        self.is_initialized
    }
}

impl VestingScheduleHeader {
    /// Writes the 129-byte record at `dst[offset..offset + 129]`.
    pub fn pack_into_slice(&self, dst: &mut Vec<u8>, offset: usize)
        requires
            offset + VESTING_HEADER_LEN <= old(dst)@.len(),
        ensures
            final(dst)@.len() == old(dst)@.len(),
            final(dst)@.subrange(offset as int, offset + VESTING_HEADER_LEN)
                == spec_vesting_header_to_bytes(*self),
            forall|j: int| 0 <= j < offset ==> final(dst)@[j] == old(dst)@[j],
            forall|j: int|
                offset + VESTING_HEADER_LEN <= j < final(dst)@.len() ==> final(dst)@[j] == old(
                    dst,
                )@[j],
    {
        let n = dst.len();
        proof {
            assert(offset + 128 <= n);
        }
        write_key(dst, offset, &self.destination_address);
        write_key(dst, offset + 32, &self.destination_address_owner);
        write_key(dst, offset + 64, &self.data_account);
        write_key(dst, offset + 96, &self.mint_address);
        dst.set(offset + 128, if self.is_initialized { 1 } else { 0 });
        proof {
            assert(dst@.subrange(offset as int, offset + VESTING_HEADER_LEN)
                =~= spec_vesting_header_to_bytes(*self));
        }
    }

    /// Reads the record stored in the first 129 bytes of `src`.
    pub fn unpack_from_slice(src: &[u8]) -> (r: Self)
        requires
            src@.len() >= VESTING_HEADER_LEN,
        ensures
            r.destination_address@ == src@.subrange(0, 32),
            r.destination_address_owner@ == src@.subrange(32, 64),
            r.data_account@ == src@.subrange(64, 96),
            r.mint_address@ == src@.subrange(96, 128),
            r.is_initialized == (src@[128] == 1),
    {
        let destination_address = read_key(src, 0);
        let destination_address_owner = read_key(src, 32);
        let data_account = read_key(src, 64);
        let mint_address = read_key(src, 96);
        let is_initialized = *vstd::slice::slice_index_get(src, 128) == 1;
        VestingScheduleHeader {
            destination_address,
            destination_address_owner,
            data_account,
            mint_address,
            is_initialized,
        }
    }

    /// Whether the vesting record has been populated.
    pub fn is_initialized(&self) -> (r: bool)
        ensures
            r == self.is_initialized,
    {
        self.is_initialized
    }
}

/// Decodes as many complete 18-byte schedule records as `input` holds;
/// trailing bytes that do not fill a record are ignored.  Never fails.
pub fn unpack_schedules(input: &[u8]) -> (r: Result<Vec<VestingSchedule>, VestingError>)
    ensures
        r matches Ok(v) && v@.len() == input@.len() as int / SCHEDULE_LEN as int,
        r matches Ok(v) ==> forall|i: int|
            0 <= i < v@.len() ==> v@[i] == spec_schedule_from_bytes(
                input@.subrange(i * SCHEDULE_LEN, i * SCHEDULE_LEN + SCHEDULE_LEN),
            ),
{
    let len = input.len();
    let number_of_schedules = len / SCHEDULE_LEN;
    proof {
        vstd::arithmetic::div_mod::lemma_fundamental_div_mod(len as int, SCHEDULE_LEN as int);
    }
    let mut output: Vec<VestingSchedule> = Vec::new();
    let mut k: usize = 0;
    while k < number_of_schedules
        invariant
            k <= number_of_schedules,
            number_of_schedules == input@.len() as int / SCHEDULE_LEN as int,
            number_of_schedules * SCHEDULE_LEN <= input@.len(),
            input@.len() <= usize::MAX,
            output@.len() == k,
            forall|i: int|
                0 <= i < k ==> output@[i] == spec_schedule_from_bytes(
                    input@.subrange(i * SCHEDULE_LEN, i * SCHEDULE_LEN + SCHEDULE_LEN),
                ),
        decreases number_of_schedules - k,
    {
        let offset = k * SCHEDULE_LEN;
        let record = slice_subrange(input, offset, offset + SCHEDULE_LEN);
        let schedule = VestingSchedule::unpack_from_slice(record);
        proof {
            assert(record@.subrange(0, SCHEDULE_LEN as int) =~= input@.subrange(
                k * SCHEDULE_LEN,
                k * SCHEDULE_LEN + SCHEDULE_LEN,
            ));
        }
        output.push(schedule);
        k = k + 1;
    }
    Ok(output)
}

/// Writes each schedule's 18-byte record at consecutive offsets starting at
/// `target[offset]`, leaving all other bytes of `target` unchanged.
pub(crate) fn pack_schedules_at(schedules: &Vec<VestingSchedule>, target: &mut Vec<u8>, offset: usize)
    requires
        offset + schedules@.len() * SCHEDULE_LEN <= old(target)@.len(),
    ensures
        final(target)@.len() == old(target)@.len(),
        forall|i: int|
            0 <= i < schedules@.len() ==> final(target)@.subrange(
                offset + i * SCHEDULE_LEN,
                offset + i * SCHEDULE_LEN + SCHEDULE_LEN,
            ) == spec_schedule_to_bytes(schedules@[i]),
        forall|j: int| 0 <= j < offset ==> final(target)@[j] == old(target)@[j],
        forall|j: int|
            offset + schedules@.len() * SCHEDULE_LEN <= j < final(target)@.len()
                ==> final(target)@[j] == old(target)@[j],
{
    let n = target.len();
    let count = schedules.len();
    let mut k: usize = 0;
    while k < count
        invariant
            k <= count,
            count == schedules@.len(),
            offset + count * SCHEDULE_LEN <= n,
            n == target@.len(),
            target@.len() == old(target)@.len(),
            forall|i: int|
                0 <= i < k ==> #[trigger] target@.subrange(
                    offset + i * SCHEDULE_LEN,
                    offset + i * SCHEDULE_LEN + SCHEDULE_LEN,
                ) == spec_schedule_to_bytes(schedules@[i]),
            forall|j: int| 0 <= j < offset ==> target@[j] == old(target)@[j],
            forall|j: int|
                offset + k * SCHEDULE_LEN <= j < target@.len() ==> target@[j] == old(target)@[j],
        decreases count - k,
    {
        let ghost prev = target@;
        let record_offset = offset + k * SCHEDULE_LEN;
        let schedule = &schedules[k];
        schedule.pack_into_slice(target, record_offset);
        proof {
            assert forall|i: int| 0 <= i < k implies #[trigger] target@.subrange(
                offset + i * SCHEDULE_LEN,
                offset + i * SCHEDULE_LEN + SCHEDULE_LEN,
            ) == spec_schedule_to_bytes(schedules@[i]) by {
                assert(target@.subrange(
                    offset + i * SCHEDULE_LEN,
                    offset + i * SCHEDULE_LEN + SCHEDULE_LEN,
                ) =~= prev.subrange(
                    offset + i * SCHEDULE_LEN,
                    offset + i * SCHEDULE_LEN + SCHEDULE_LEN,
                ));
            }
        }
        k = k + 1;
    }
}

/// Writes each schedule's record at consecutive offsets from the start of
/// `target`, the layout of a depositor's schedule region.
pub fn pack_schedules_into_slice(schedules: Vec<VestingSchedule>, target: &mut Vec<u8>)
    requires
        schedules@.len() * SCHEDULE_LEN <= old(target)@.len(),
    ensures
        final(target)@.len() == old(target)@.len(),
        forall|i: int|
            0 <= i < schedules@.len() ==> final(target)@.subrange(
                i * SCHEDULE_LEN,
                i * SCHEDULE_LEN + SCHEDULE_LEN,
            ) == spec_schedule_to_bytes(schedules@[i]),
        forall|j: int|
            schedules@.len() * SCHEDULE_LEN <= j < final(target)@.len()
                ==> final(target)@[j] == old(target)@[j],
{
    pack_schedules_at(&schedules, target, 0);
    proof {
        assert forall|i: int| 0 <= i < schedules@.len() implies final(target)@.subrange(
            i * SCHEDULE_LEN,
            i * SCHEDULE_LEN + SCHEDULE_LEN,
        ) == spec_schedule_to_bytes(schedules@[i]) by {
            assert(final(target)@.subrange(i * SCHEDULE_LEN, i * SCHEDULE_LEN + SCHEDULE_LEN)
                =~= final(target)@.subrange(
                0 + i * SCHEDULE_LEN,
                0 + i * SCHEDULE_LEN + SCHEDULE_LEN,
            ));
        }
    }
}

} // verus!
