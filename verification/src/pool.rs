//! The pooled reducer: the sum is computed on a worker pool of bounded size.

use crate::error::ReduceError;
use crate::reduce::{reduced, requested_lanes};
use crate::sum::wrapping_sum;
use rayon::iter::{IntoParallelRefIterator, ParallelIterator};
use vstd::prelude::*;

verus! {

/// `rayon::ThreadPool`, a set of worker threads; nothing inside it is read
/// here.
#[verifier::external_type_specification]
#[verifier::external_body]
pub struct ExThreadPool(rayon::ThreadPool);

/// `rayon::ThreadPoolBuildError`, the reason for which a pool did not start;
/// nothing inside it is read here.
#[verifier::external_type_specification]
#[verifier::external_body]
pub struct ExThreadPoolBuildError(rayon::ThreadPoolBuildError);

/// A worker pool that this library started, with the number of lanes that
/// was asked of it. No other code can make one, so every pool summed on is
/// one whose own threads serve it.
pub struct WorkerPool {
    pool: rayon::ThreadPool,
    lanes: usize,
}

impl WorkerPool {
    /// The number of lanes that was asked for when the pool was started.
    pub closed spec fn asked_lanes(&self) -> usize {
        self.lanes
    }

    /// The number of lanes that was asked for when the pool was started.
    pub fn lanes(&self) -> (r: usize)
        ensures
            r == self.asked_lanes(),
    {
        self.lanes
    }
}

/// Calls `rayon::ThreadPoolBuilder::build` on a builder that
/// `ThreadPoolBuilder::num_threads` has set to `lanes` threads, and puts the
/// pool that comes back beside that count. Whether the pool starts depends on
/// the machine, so the only claim is that a pool that did start has on record
/// the count that was handed to rayon. The count is at least one: with zero,
/// rayon would choose a count by itself.
#[verifier::external_body]
fn build_pool(lanes: usize) -> (built: Result<WorkerPool, rayon::ThreadPoolBuildError>)
    requires
        lanes >= 1,
    ensures
        built is Ok ==> built->Ok_0.asked_lanes() == lanes,
{
    match rayon::ThreadPoolBuilder::new().num_threads(lanes).build() {
        Ok(pool) => Ok(WorkerPool { pool, lanes }),
        Err(failure) => Err(failure),
    }
}

/// Calls rayon's `ParallelIterator::sum` on the elements of `x`, inside
/// `rayon::ThreadPool::install` on `pool`. Each element is summed as a
/// `std::num::Wrapping<i32>`, whose `+` wraps around and is associative, so
/// the order in which rayon adds does not show: the claim is that the result
/// is the wrapped sum of `x`.
#[verifier::external_body]
fn pool_sum(pool: &rayon::ThreadPool, x: &Vec<i32>) -> (r: i32)
    ensures
        r == wrapping_sum(x@),
{
    pool.install(|| x.par_iter().copied().map(std::num::Wrapping).sum::<std::num::Wrapping<i32>>().0)
}

/// What becomes of an attempt to start a pool: the pool itself where it
/// started, and the refusal that stands for every reason for which it did
/// not.
pub fn pool_or_refusal(built: Result<WorkerPool, rayon::ThreadPoolBuildError>) -> (r: Result<
    WorkerPool,
    ReduceError,
>)
    ensures
        built is Ok ==> r is Ok && r->Ok_0 == built->Ok_0,
        built is Err ==> r is Err && r->Err_0 == ReduceError::PoolUnavailable,
{
    match built {
        Ok(pool) => Ok(pool),
        Err(_) => Err(ReduceError::PoolUnavailable),
    }
}

/// Starts a worker pool that is asked for exactly `n` lanes. A count below
/// one is refused without starting anything; otherwise the pool that comes
/// back was asked for `n` lanes, unless none could be started.
pub fn start_pool(n: i32) -> (r: Result<WorkerPool, ReduceError>)
    ensures
        n < 1 ==> r is Err && r->Err_0 == ReduceError::NoWorkers,
        n >= 1 ==> (r is Ok && r->Ok_0.asked_lanes() == n) || (r is Err && r->Err_0
            == ReduceError::PoolUnavailable),
{
    match requested_lanes(n) {
        Ok(lanes) => pool_or_refusal(build_pool(lanes)),
        Err(refusal) => Err(refusal),
    }
}

/// The pooled sum of `x` for either outcome of starting the pool: the wrapped
/// sum of `x` on the pool that started, and otherwise the refusal that came
/// in its place.
pub fn sum_in_pool(pool: Result<WorkerPool, ReduceError>, x: &Vec<i32>) -> (r: Result<
    i32,
    ReduceError,
>)
    ensures
        pool is Ok ==> r == Ok::<i32, ReduceError>(wrapping_sum(x@)),
        pool is Err ==> r == Err::<i32, ReduceError>(pool->Err_0),
{
    match pool {
        Ok(workers) => Ok(pool_sum(&workers.pool, x)),
        Err(refusal) => Err(refusal),
    }
}

/// The pooled reducer for `n` requested workers. An empty sequence gives 0
/// and a worker count below one is refused, both without starting a pool.
/// Otherwise a pool is asked for `n` lanes, and the total is that of the
/// sequential reducer unless the pool could not be started.
pub fn sum_with_rayon(x: Vec<i32>, n: i32) -> (r: Result<i32, ReduceError>)
    ensures
        r == reduced(x@, n as int) || r == Err::<i32, ReduceError>(ReduceError::PoolUnavailable),
        x@.len() == 0 || n < 1 ==> r == reduced(x@, n as int),
{
    if x.len() == 0 {
        return Ok(0);
    }
    sum_in_pool(start_pool(n), &x)
}

} // verus!
