//! Why a reduction can be refused.

use vstd::prelude::*;

verus! {

/// The ways in which a reducer declines to produce a total.
#[derive(Clone, Copy, Debug, PartialEq, Eq, Structural)]
pub enum ReduceError {
    /// A non-empty sequence was handed over with a worker count below one.
    NoWorkers,
    /// The worker pool could not be started.
    PoolUnavailable,
}

} // verus!
