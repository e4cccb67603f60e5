//! The partitioned reducer: split the sequence into chunks, sum each chunk on
//! its own, and join the partial sums.

use crate::error::ReduceError;
use crate::partition::{chunks, partition, views};
use crate::partition::lemma_chunks_cover;
use crate::sum::{lemma_total_concat, lemma_wrap_add, sum_slice, total, wrapping_sum};
use vstd::prelude::*;

verus! {

/// The partial sum of each chunk, in the order of the chunks.
pub open spec fn partial_sums(cs: Seq<Seq<i32>>) -> Seq<i32> {
    Seq::new(cs.len(), |i: int| wrapping_sum(cs[i]))
}

/// What a reducer owes for a sequence and a requested number of workers: 0 for
/// an empty sequence, a refusal where a non-empty one comes with no worker,
/// and otherwise the wrapped sum of the sequence.
pub open spec fn reduced(s: Seq<i32>, requested: int) -> Result<i32, ReduceError> {
    if s.len() == 0 {
        Ok(0)
    } else if requested < 1 {
        Err(ReduceError::NoWorkers)
    } else {
        Ok(wrapping_sum(s))
    }
}

/// Joining the partial sums of any chunks gives the wrapped sum of the chunks
/// laid end to end.
pub proof fn lemma_join_partial_sums(cs: Seq<Seq<i32>>)
    ensures
        wrapping_sum(partial_sums(cs)) == wrapping_sum(cs.flatten()),
    decreases cs.len(),
{
    if cs.len() == 0 {
        assert(partial_sums(cs) =~= Seq::<i32>::empty());
    } else {
        let head = cs.drop_last();
        lemma_join_partial_sums(head);
        assert(cs =~= head.push(cs.last()));
        head.lemma_flatten_push(cs.last());
        lemma_total_concat(head.flatten(), cs.last());
        assert(partial_sums(cs).drop_last() =~= partial_sums(head));
        lemma_wrap_add(total(partial_sums(head)), total(cs.last()));
        lemma_wrap_add(total(head.flatten()), total(cs.last()));
    }
}

/// The partitioned reduction agrees with the sequential one: for every
/// sequence and every worker count of at least one, joining the partial sums
/// of the partition gives the wrapped sum of the whole sequence.
pub proof fn lemma_partitioned_equals_sequential(s: Seq<i32>, requested: nat)
    requires
        s.len() == 0 || requested >= 1,
    ensures
        wrapping_sum(partial_sums(chunks(s, requested))) == wrapping_sum(s),
{
    lemma_chunks_cover(s, requested);
    lemma_join_partial_sums(chunks(s, requested));
}

/// Asking for more workers than there are elements changes nothing: the
/// partition, and with it the outcome, is that of asking for one worker per
/// element.
pub proof fn lemma_excess_workers_clamped(s: Seq<i32>, requested: nat)
    requires
        requested > s.len(),
    ensures
        chunks(s, requested) == chunks(s, s.len()),
        reduced(s, requested as int) == reduced(s, s.len() as int),
{
}

/// Sums each chunk on its own, as one worker per chunk would.
pub fn sum_chunks(parts: &Vec<Vec<i32>>) -> (r: Vec<i32>)
    ensures
        r@ == partial_sums(views(parts@)),
{
    let mut sums: Vec<i32> = Vec::new();
    let mut i: usize = 0;
    while i < parts.len()
        invariant
            i <= parts@.len(),
            sums@.len() == i,
            forall|j: int| 0 <= j < i ==> #[trigger] sums@[j] == wrapping_sum(parts@[j]@),
        decreases parts@.len() - i,
    {
        let partial: i32 = sum_slice(parts[i].as_slice());
        sums.push(partial);
        i = i + 1;
    }
    proof {
        assert(sums@ =~= partial_sums(views(parts@)));
    }
    sums
}

/// Adds up the partial sums that the workers handed back.
pub fn join_partials(partials: &Vec<i32>) -> (r: i32)
    ensures
        r == wrapping_sum(partials@),
{
    sum_slice(partials.as_slice())
}

/// The partitioned reducer for `n` requested workers: the sequence is split
/// into the chunks of its partition, each chunk is summed in isolation, and
/// the partial sums are joined. The total is that of the sequential reducer.
pub fn sum_with_threads_impl(x: Vec<i32>, n: usize) -> (r: Result<i32, ReduceError>)
    ensures
        r == reduced(x@, n as int),
        x@.len() == 0 ==> r == Ok::<i32, ReduceError>(0),
        x@.len() > 0 && n >= 1 ==> r == Ok::<i32, ReduceError>(wrapping_sum(x@)),
        x@.len() > 0 && n == 0 ==> r == Err::<i32, ReduceError>(ReduceError::NoWorkers),
{
    match partition(&x, n) {
        Ok(parts) => {
            let partials: Vec<i32> = sum_chunks(&parts);
            let joined: i32 = join_partials(&partials);
            proof {
                lemma_partitioned_equals_sequential(x@, n as nat);
            }
            Ok(joined)
        },
        Err(e) => Err(e),
    }
}

/// The worker count that a signed request stands for: the request itself
/// where it is at least one, and a refusal below that.
pub fn requested_lanes(n: i32) -> (lanes: Result<usize, ReduceError>)
    ensures
        n >= 1 ==> lanes == Ok::<usize, ReduceError>(n as usize),
        n < 1 ==> lanes == Err::<usize, ReduceError>(ReduceError::NoWorkers),
{
    if n >= 1 {
        Ok(n as usize)
    } else {
        Err(ReduceError::NoWorkers)
    }
}

/// The partitioned reducer for a worker count given as a signed integer: a
/// count below one is refused for a non-empty sequence.
pub fn sum_with_threads(x: Vec<i32>, n: i32) -> (r: Result<i32, ReduceError>)
    ensures
        r == reduced(x@, n as int),
{
    match requested_lanes(n) {
        Ok(lanes) => sum_with_threads_impl(x, lanes),
        Err(_) => sum_with_threads_impl(x, 0),
    }
}

} // verus!
