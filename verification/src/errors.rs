//! Error taxonomy: mapping failures are fatal to a record's batch, persist
//! failures are fatal to the kind they occur in, and the materialization step
//! aborts the remaining kinds on the first persist failure.

use vstd::prelude::*;

verus! {

/// Failure while mapping a decoded on-chain event into its storage record.
/// A field that arrives as a decimal string and does not parse losslessly
/// aborts the batch; there is no silent defaulting.
#[derive(Clone, Copy, Debug, PartialEq, Eq, Structural)]
pub enum MappingError {
    /// An amount or reserve field was not an unsigned decimal numeral in range.
    InvalidDecimal,
    /// A timestamp field was not an unsigned decimal numeral in range.
    InvalidTimestamp,
}

/// The entity kinds that the materialization step persists, in the fixed
/// order in which the step visits them.
#[derive(Clone, Copy, Debug, PartialEq, Eq, Structural)]
pub enum EntityKind {
    Tokens,
    PoolCompletions,
    Trades,
    PositionCreations,
    RewardClaims,
    PositionRemovals,
    Spins,
    ModuleUpgrades,
    PackageUpgrades,
}

/// Cause of a chunk transaction failure inside the store.
#[derive(Clone, Copy, Debug, PartialEq, Eq, Structural)]
pub enum StoreError {
    /// A merge would have pushed an accumulating counter column out of the
    /// range of its column type; the chunk's transaction is rolled back.
    CounterOverflow,
}

/// A failed applier invocation: the kind whose persistence failed, together
/// with the underlying cause.  The caller treats this as fatal to the batch.
#[derive(Clone, Copy, Debug, PartialEq, Eq, Structural)]
pub struct PersistError {
    pub kind: EntityKind,
    pub cause: StoreError,
}

} // verus!
