//! A decaying, linearly-amortized voting-power ledger for time-locked token
//! deposits.
//!
//! Each depositor's locked balance contributes a value that decreases
//! linearly from deposit time to release time.  The aggregate decay curve is
//! kept as a sparse series of per-epoch checkpoints ("points") partitioned
//! into fixed-length eras, advanced incrementally to the present, and merged
//! with per-depositor schedule changes through scheduled decay-rate deltas
//! ("dslope").

pub mod curve;
pub mod error;
pub mod model;
pub mod state;
