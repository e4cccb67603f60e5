//! Splitting a sequence into contiguous per-worker chunks.

use crate::error::ReduceError;
use vstd::prelude::*;

verus! {

/// The number of workers actually used: never more than there are elements.
pub open spec fn effective_workers(len: nat, requested: nat) -> nat {
    if requested <= len {
        requested
    } else {
        len
    }
}

/// The chunk size for `len` elements over `workers` workers: `len / workers`,
/// rounded up.
pub open spec fn chunk_size(len: nat, workers: nat) -> nat
    recommends
        workers >= 1,
{
    ((len + workers - 1) / (workers as int)) as nat
}

/// The chunk size of the partition of `len` elements for a requested number of
/// workers.
pub open spec fn partition_chunk_size(len: nat, requested: nat) -> nat {
    chunk_size(len, effective_workers(len, requested))
}

/// Where chunk `i` begins: at `i * size`, or at the end of the sequence if
/// that lies beyond it.
pub open spec fn chunk_start(len: nat, size: nat, i: nat) -> nat {
    if i * size <= len {
        i * size
    } else {
        len
    }
}

/// Where chunk `i` ends: where chunk `i + 1` begins.
pub open spec fn chunk_end(len: nat, size: nat, i: nat) -> nat {
    chunk_start(len, size, i + 1)
}

/// Chunk `i` of `s` for the given chunk size.
pub open spec fn chunk(s: Seq<i32>, size: nat, i: nat) -> Seq<i32> {
    s.subrange(chunk_start(s.len(), size, i) as int, chunk_end(s.len(), size, i) as int)
}

/// The first `count` chunks of `s` for the given chunk size, in order.
pub open spec fn chunks_with(s: Seq<i32>, size: nat, count: nat) -> Seq<Seq<i32>> {
    Seq::new(count, |i: int| chunk(s, size, i as nat))
}

/// The partition of `s` for a requested number of workers.
pub open spec fn chunks(s: Seq<i32>, requested: nat) -> Seq<Seq<i32>> {
    chunks_with(
        s,
        partition_chunk_size(s.len(), requested),
        effective_workers(s.len(), requested),
    )
}

/// The sum of the lengths of the given chunks.
pub open spec fn lengths_sum(cs: Seq<Seq<i32>>) -> nat
    decreases cs.len(),
{
    if cs.len() == 0 {
        0
    } else {
        lengths_sum(cs.drop_last()) + cs.last().len()
    }
}

/// The contents of each vector of `parts`, in order.
pub open spec fn views(parts: Seq<Vec<i32>>) -> Seq<Seq<i32>> {
    Seq::new(parts.len(), |i: int| parts[i]@)
}

/// The chunk size is the least size with which `workers` chunks hold `len`
/// elements.
pub proof fn lemma_chunk_size_is_ceiling(len: nat, workers: nat)
    requires
        workers >= 1,
        len >= 1,
    ensures
        chunk_size(len, workers) == (len - 1) / (workers as int) + 1,
        chunk_size(len, workers) >= 1,
        chunk_size(len, workers) * workers >= len,
        (chunk_size(len, workers) - 1) * workers < len,
{
    let w = workers as int;
    let q = (len - 1) / w;
    vstd::arithmetic::div_mod::lemma_div_plus_one(len - 1, w);
    vstd::arithmetic::div_mod::lemma_fundamental_div_mod(len - 1, w);
    vstd::arithmetic::div_mod::lemma_mod_bound(len - 1, w);
    vstd::arithmetic::div_mod::lemma_div_pos_is_pos(len - 1, w);
    assert(w * q + w == (q + 1) * w) by (nonlinear_arith);
    assert(w * q == q * w) by (nonlinear_arith);
}

/// Chunk boundaries never run backwards, stay inside the sequence, and lie at
/// most one chunk size apart; a chunk is empty exactly when it would begin at
/// or past the end.
pub proof fn lemma_chunk_bounds(len: nat, size: nat, i: nat)
    ensures
        chunk_start(len, size, i) <= chunk_end(len, size, i) <= len,
        chunk_end(len, size, i) - chunk_start(len, size, i) <= size,
        chunk_start(len, size, i) < chunk_end(len, size, i) <==> (i * size < len && size >= 1),
{
    assert((i + 1) * size == i * size + size) by (nonlinear_arith);
}

/// The first `count` chunks, laid end to end, are the prefix of `s` that stops
/// where chunk `count` begins: nothing is left out, repeated or reordered.
pub proof fn lemma_chunks_prefix(s: Seq<i32>, size: nat, count: nat)
    ensures
        chunks_with(s, size, count).flatten() == s.subrange(
            0,
            chunk_start(s.len(), size, count) as int,
        ),
    decreases count,
{
    if count == 0 {
        assert(0 * size == 0) by (nonlinear_arith);
        assert(chunks_with(s, size, 0).flatten() =~= s.subrange(0, 0));
    } else {
        let before = (count - 1) as nat;
        lemma_chunks_prefix(s, size, before);
        lemma_chunk_bounds(s.len(), size, before);
        assert(chunks_with(s, size, count) =~= chunks_with(s, size, before).push(
            chunk(s, size, before),
        ));
        chunks_with(s, size, before).lemma_flatten_push(chunk(s, size, before));
        assert(s.subrange(0, chunk_start(s.len(), size, before) as int) + chunk(s, size, before)
            =~= s.subrange(0, chunk_start(s.len(), size, count) as int));
    }
}

/// The lengths of chunks add up to the length of what they make when laid end
/// to end.
pub proof fn lemma_lengths_sum_flatten(cs: Seq<Seq<i32>>)
    ensures
        lengths_sum(cs) == cs.flatten().len(),
    decreases cs.len(),
{
    if cs.len() == 0 {
    } else {
        lemma_lengths_sum_flatten(cs.drop_last());
        assert(cs =~= cs.drop_last().push(cs.last()));
        cs.drop_last().lemma_flatten_push(cs.last());
    }
}

/// The partition covers the sequence exactly once: its chunks are as many as
/// the effective workers, laid end to end they are the sequence itself, and
/// their lengths add up to its length. This holds wherever there is a
/// partition: for an empty sequence, and for any worker count of at least one.
pub proof fn lemma_chunks_cover(s: Seq<i32>, requested: nat)
    requires
        s.len() == 0 || requested >= 1,
    ensures
        chunks(s, requested).len() == effective_workers(s.len(), requested),
        chunks(s, requested).flatten() == s,
        lengths_sum(chunks(s, requested)) == s.len(),
{
    let workers = effective_workers(s.len(), requested);
    let size = chunk_size(s.len(), workers);
    lemma_chunks_prefix(s, size, workers);
    if s.len() > 0 {
        lemma_chunk_size_is_ceiling(s.len(), workers);
        assert(workers * size == size * workers) by (nonlinear_arith);
    } else {
        assert(0 * size == 0) by (nonlinear_arith);
    }
    assert(s.subrange(0, s.len() as int) =~= s);
    lemma_lengths_sum_flatten(chunks(s, requested));
}

/// No chunk is longer than the chunk size, and chunk `i` holds an element
/// exactly when `i` chunk sizes fall short of the length of the sequence.
pub proof fn lemma_chunk_lengths(s: Seq<i32>, requested: nat, i: nat)
    requires
        requested >= 1,
        i < effective_workers(s.len(), requested),
    ensures
        chunks(s, requested)[i as int].len() <= partition_chunk_size(s.len(), requested),
        chunks(s, requested)[i as int].len() >= 1 <==> i * partition_chunk_size(
            s.len(),
            requested,
        ) < s.len(),
{
    let workers = effective_workers(s.len(), requested);
    let size = chunk_size(s.len(), workers);
    lemma_chunk_size_is_ceiling(s.len(), workers);
    lemma_chunk_bounds(s.len(), size, i);
}

/// Whether the chunks before the last one leave at least one element for it.
pub open spec fn last_chunk_has_remainder(len: nat, requested: nat) -> bool {
    (effective_workers(len, requested) - 1) * partition_chunk_size(len, requested) < len
}

/// Where the chunks before the last one leave something over, no chunk is
/// empty: each of them is of the chunk size, and the last one holds the
/// remainder.
pub proof fn lemma_no_chunk_empty(s: Seq<i32>, requested: nat, i: nat)
    requires
        requested >= 1,
        i < effective_workers(s.len(), requested),
        last_chunk_has_remainder(s.len(), requested),
    ensures
        chunks(s, requested)[i as int].len() >= 1,
        i + 1 < effective_workers(s.len(), requested) ==> chunks(s, requested)[i as int].len()
            == partition_chunk_size(s.len(), requested),
        i + 1 == effective_workers(s.len(), requested) ==> chunks(s, requested)[i as int].len()
            == s.len() - partition_chunk_size(s.len(), requested) * i,
{
    let workers = effective_workers(s.len(), requested);
    let size = chunk_size(s.len(), workers);
    lemma_chunk_size_is_ceiling(s.len(), workers);
    lemma_chunk_bounds(s.len(), size, i);
    assert((i + 1) * size == i * size + size) by (nonlinear_arith);
    assert(size * i == i * size) by (nonlinear_arith);
    assert(workers * size == size * workers) by (nonlinear_arith);
    if i + 1 < workers {
        assert((i + 1) * size <= (workers - 1) * size) by (nonlinear_arith)
            requires
                i + 1 <= workers - 1,
                size >= 0,
        ;
    }
}

/// A chunk is empty only where the last chunk is left without a remainder:
/// the last chunk is then empty itself.
pub proof fn lemma_empty_chunk_only_without_remainder(s: Seq<i32>, requested: nat)
    requires
        requested >= 1,
        s.len() >= 1,
        !last_chunk_has_remainder(s.len(), requested),
    ensures
        chunks(s, requested).last().len() == 0,
{
    let workers = effective_workers(s.len(), requested);
    lemma_chunk_lengths(s, requested, (workers - 1) as nat);
}

/// Splits `x` into the chunks of its partition for `n` requested workers,
/// each chunk an independent copy. An empty sequence has no chunks; a
/// non-empty one cannot be split among fewer than one worker.
pub fn partition(x: &Vec<i32>, n: usize) -> (r: Result<Vec<Vec<i32>>, ReduceError>)
    ensures
        x@.len() == 0 || n >= 1 <==> r is Ok,
        r is Ok ==> views(r->Ok_0@) == chunks(x@, n as nat),
        r is Ok ==> r->Ok_0@.len() == effective_workers(x@.len(), n as nat),
        r is Ok ==> views(r->Ok_0@).flatten() == x@,
        r is Ok ==> lengths_sum(views(r->Ok_0@)) == x@.len(),
        r is Err ==> r->Err_0 == ReduceError::NoWorkers,
{
    let len: usize = x.len();
    if len == 0 {
        let none: Vec<Vec<i32>> = Vec::new();
        proof {
            assert(views(none@) =~= chunks(x@, n as nat));
            lemma_chunks_cover(x@, n as nat);
        }
        return Ok(none);
    }
    if n == 0 {
        return Err(ReduceError::NoWorkers);
    }
    let workers: usize = if n <= len { n } else { len };
    let size: usize = (len - 1) / workers + 1;
    proof {
        lemma_chunk_size_is_ceiling(len as nat, workers as nat);
        assert(0 * size == 0) by (nonlinear_arith);
    }
    let mut parts: Vec<Vec<i32>> = Vec::new();
    let mut start: usize = 0;
    let mut i: usize = 0;
    while i < workers
        invariant
            i <= workers,
            len == x@.len(),
            size >= 1,
            start == chunk_start(len as nat, size as nat, i as nat),
            parts@.len() == i,
            forall|j: int| 0 <= j < i ==> (#[trigger] parts@[j])@ == chunk(x@, size as nat, j as nat),
        decreases workers - i,
    {
        proof {
            lemma_chunk_bounds(len as nat, size as nat, i as nat);
            assert((i + 1) * size == i * size + size) by (nonlinear_arith);
        }
        let end: usize = if len - start <= size { len } else { start + size };
        let piece: Vec<i32> = vstd::slice::slice_to_vec(
            vstd::slice::slice_subrange(x.as_slice(), start, end),
        );
        parts.push(piece);
        start = end;
        i = i + 1;
    }
    proof {
        assert(views(parts@) =~= chunks(x@, n as nat));
        lemma_chunks_cover(x@, n as nat);
    }
    Ok(parts)
}

} // verus!
