//! Typed failures surfaced by the vesting engine.
//!
//! Every error is detected eagerly, before any state is mutated, and aborts
//! the whole operation: there is no partial-success mode.

use vstd::prelude::*;

verus! {

/// Errors that may be returned by the token vesting engine.
#[derive(Clone, Copy, Debug, PartialEq, Eq, Structural)]
pub enum VestingError {
    /// The instruction payload could not be decoded.
    InvalidInstruction,
    /// Accumulated token amounts exceed the representable range.
    AmountOverflow,
    /// Point data passed in has an invalid length.
    InvalidPointLength,
    /// A timestamp lies before the protocol's zero epoch.
    NegativeTime,
    /// The epoch recorded in the last filed point does not match the
    /// calendar's `last_filed_epoch` cursor.
    PointCalendarDesyncronization,
    /// Calendar header data has an invalid length.
    InvalidCalHeaderLength,
    /// The given pointer record does not reference the given dslope table.
    PointerDslopeMismatch,
    /// The given pointer record does not reference the given calendar page.
    PointerCalendarMismatch,
    /// The given first epoch of the current era does not match the derived
    /// value.
    PeriodMismatch,
}

} // verus!
