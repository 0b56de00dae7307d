//! Historical rolling-window backtesting of fixed-duration drawdown plans.
//!
//! Given a monthly market/inflation series, the engine replays a spending
//! plan against every possible start month and reports how many of those
//! windows end with capital above a configured threshold.
//!
//! All monetary amounts are plain integer currency units; all rates and
//! index levels are fixed-point values scaled by [`SCALE`] (one millionth
//! per unit).

use vstd::prelude::*;

pub mod engine;
pub mod results;
pub mod series;
pub mod taxes;

verus! {

/// Fixed-point scale: rates, index levels and the cumulative inflation
/// factor carry this many sub-units per 1.0.
pub const SCALE: u64 = 1_000_000;

/// Largest monthly rate (return or inflation) the fixed-point encoding
/// admits, in [`SCALE`] sub-units: 1000x per month.
pub const RATE_MAX: i64 = 1_000_000_000;

/// Capital ceiling (2^96) under which every intermediate product of the
/// simulation fits the machine words it is computed in.
pub const CAP_MAX: u128 = 0x1_0000_0000_0000_0000_0000_0000;

/// Ceiling (2^60) on the cumulative inflation factor, for the same reason.
pub const CUM_MAX: u128 = 0x1000_0000_0000_0000;

/// A condition that aborts a run before any outcome is produced.
#[derive(Clone, Copy, Debug, PartialEq, Eq, Structural)]
pub enum SimError {
    /// Fewer than 2 raw records: no return can be derived.
    InsufficientData,
    /// The requested duration exceeds the derived series, or is zero.
    InvalidWindow,
    /// A raw record's numeric fields are absent from the representable
    /// range (a zero price or index level, or a derived rate beyond
    /// [`RATE_MAX`]).
    MalformedRecord,
}

} // verus!
