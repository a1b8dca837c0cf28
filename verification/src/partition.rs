//! Cutting the candidate list into contiguous slices, one per worker.

use vstd::prelude::*;

verus! {

/// Length of every slice but the last: `len / workers`, rounded up.
pub open spec fn chunk_len(len: nat, workers: nat) -> nat
    recommends
        workers >= 1,
{
    if len % workers == 0 {
        len / workers
    } else {
        len / workers + 1
    }
}

/// Number of slices: none for an empty list, else `len / chunk_len`,
/// rounded up.
pub open spec fn slice_count(len: nat, workers: nat) -> nat
    recommends
        workers >= 1,
{
    if len == 0 {
        0
    } else {
        chunk_len(len, chunk_len(len, workers))
    }
}

/// Position in the list of the first word of slice `i`.
pub open spec fn slice_start(i: int, chunk: nat) -> int {
    i * chunk
}

/// Position in the list just behind the last word of slice `i`.
pub open spec fn slice_end(i: int, chunk: nat, len: nat) -> int {
    if (i + 1) * chunk < len {
        (i + 1) * chunk
    } else {
        len as int
    }
}

/// All slices laid end to end, in order.
pub open spec fn joined(parts: Seq<Vec<String>>) -> Seq<String>
    decreases parts.len(),
{
    if parts.len() == 0 {
        Seq::empty()
    } else {
        joined(parts.drop_last()) + parts.last()@
    }
}

/// Slice `i` of `slices` holds the words of `candidates` from `slice_start`
/// up to `slice_end`, and at least one.
pub open spec fn is_slice_of(slices: Seq<Vec<String>>, candidates: Seq<String>, chunk: nat, i: int) -> bool {
    &&& 0 <= slice_start(i, chunk) < slice_end(i, chunk, candidates.len())
    &&& slices[i]@ == candidates.subrange(slice_start(i, chunk), slice_end(i, chunk, candidates.len()))
}

/// `slices` is the cut of `candidates` for `workers` workers: as many
/// slices as `slice_count` says, which reach the end of the list, each
/// holding its range of words.
pub open spec fn is_partition(slices: Seq<Vec<String>>, candidates: Seq<String>, workers: nat) -> bool {
    let chunk = chunk_len(candidates.len(), workers);
    &&& slices.len() == slice_count(candidates.len(), workers)
    &&& candidates.len() <= slices.len() * chunk
    &&& forall|i: int| 0 <= i < slices.len() ==> #[trigger] is_slice_of(slices, candidates, chunk, i)
}

/// Position in the list just behind the last word of the first `n` slices.
pub open spec fn covered(n: int, chunk: nat, len: nat) -> int {
    if n <= 0 {
        0
    } else {
        slice_end(n - 1, chunk, len)
    }
}

proof fn lemma_joined_prefix(slices: Seq<Vec<String>>, candidates: Seq<String>, workers: nat, n: int)
    requires
        workers >= 1,
        is_partition(slices, candidates, workers),
        0 <= n <= slices.len(),
    ensures
        0 <= covered(n, chunk_len(candidates.len(), workers), candidates.len()) <= candidates.len(),
        joined(slices.take(n)) == candidates.subrange(
            0,
            covered(n, chunk_len(candidates.len(), workers), candidates.len()),
        ),
    decreases n,
{
    let chunk = chunk_len(candidates.len(), workers);
    if n == 0 {
        assert(joined(slices.take(0)) =~= candidates.subrange(0, 0));
    } else {
        lemma_joined_prefix(slices, candidates, workers, n - 1);
        assert(slices.take(n).drop_last() =~= slices.take(n - 1));
        assert(slices.take(n).last() == slices[n - 1]);
        assert(is_slice_of(slices, candidates, chunk, n - 1));
        if n > 1 {
            assert(is_slice_of(slices, candidates, chunk, n - 2));
        } else {
            assert(0 * chunk == 0) by (nonlinear_arith);
        }
        assert(covered(n - 1, chunk, candidates.len()) == slice_start(n - 1, chunk));
        assert(joined(slices.take(n)) =~= candidates.subrange(
            0,
            covered(n, chunk, candidates.len()),
        ));
    }
}

/// The slices of a cut, laid end to end, are the list: every word of the
/// list stands in them once, in its place, and nothing else does.
pub proof fn partition_is_complete(slices: Seq<Vec<String>>, candidates: Seq<String>, workers: nat)
    requires
        workers >= 1,
        is_partition(slices, candidates, workers),
    ensures
        joined(slices) == candidates,
{
    let chunk = chunk_len(candidates.len(), workers);
    let n = slices.len() as int;
    lemma_joined_prefix(slices, candidates, workers, n);
    assert(slices.take(n) =~= slices);
    if n > 0 {
        assert(is_slice_of(slices, candidates, chunk, n - 1));
    } else {
        assert(0 * chunk == 0) by (nonlinear_arith);
    }
    assert(candidates.subrange(0, candidates.len() as int) =~= candidates);
}

/// Each slice begins where the one before it ends, the first at the start
/// of the list and the last one ends at its end: the slices neither
/// overlap nor leave a gap.
pub proof fn slices_tile_the_list(slices: Seq<Vec<String>>, candidates: Seq<String>, workers: nat, i: int)
    requires
        workers >= 1,
        is_partition(slices, candidates, workers),
        0 <= i < slices.len(),
    ensures
        ({
            let chunk = chunk_len(candidates.len(), workers);
            &&& slice_start(0, chunk) == 0
            &&& i + 1 < slices.len() ==> slice_end(i, chunk, candidates.len()) == slice_start(i + 1, chunk)
            &&& i + 1 == slices.len() ==> slice_end(i, chunk, candidates.len()) == candidates.len()
            &&& i + 1 < slices.len() ==> slices[i]@.len() == chunk
            &&& 1 <= slices[i]@.len() <= chunk
        }),
{
    let chunk = chunk_len(candidates.len(), workers);
    assert(0 * chunk == 0) by (nonlinear_arith);
    assert((i + 1) * chunk == i * chunk + chunk) by (nonlinear_arith);
    assert(is_slice_of(slices, candidates, chunk, i));
    if i + 1 < slices.len() {
        assert(is_slice_of(slices, candidates, chunk, i + 1));
    }
}

proof fn lemma_chunk_bounds(len: nat, workers: nat)
    requires
        workers >= 1,
        len >= 1,
    ensures
        1 <= chunk_len(len, workers) <= len,
        len <= chunk_len(len, workers) * workers,
{
    let q = len / workers;
    let r = len % workers;
    assert(len == workers * q + r && 0 <= r < workers) by (nonlinear_arith)
        requires
            workers >= 1,
            q == len / workers,
            r == len % workers,
    ;
    assert(q <= len && (r != 0 ==> q + 1 <= len) && (r == 0 ==> q >= 1)) by (nonlinear_arith)
        requires
            len == workers * q + r,
            0 <= r < workers,
            len >= 1,
    ;
    assert(len <= (q + 1) * workers && q * workers == workers * q) by (nonlinear_arith)
        requires
            len == workers * q + r,
            0 <= r < workers,
    ;
}

proof fn lemma_count_is_rounded_up(len: nat, chunk: nat, n: nat)
    requires
        chunk >= 1,
        n >= 1,
        (n - 1) * chunk < len <= n * chunk,
    ensures
        n == chunk_len(len, chunk),
{
    let q = len / chunk;
    let r = len % chunk;
    assert(len == chunk * q + r && 0 <= r < chunk) by (nonlinear_arith)
        requires
            chunk >= 1,
            q == len / chunk,
            r == len % chunk,
    ;
    assert(r == 0 ==> n == q) by (nonlinear_arith)
        requires
            len == chunk * q + r,
            chunk >= 1,
            (n - 1) * chunk < len <= n * chunk,
    ;
    assert(r != 0 ==> n == q + 1) by (nonlinear_arith)
        requires
            len == chunk * q + r,
            0 <= r < chunk,
            (n - 1) * chunk < len <= n * chunk,
    ;
}

proof fn lemma_next_slice(n: nat, chunk: nat, len: nat, workers: nat)
    requires
        n * chunk < len <= chunk * workers,
    ensures
        (n + 1) * chunk == n * chunk + chunk,
        n < workers,
{
    assert((n + 1) * chunk == n * chunk + chunk) by (nonlinear_arith);
    assert(n < workers) by (nonlinear_arith)
        requires
            n * chunk < chunk * workers,
    ;
}

/// Copies the words of `candidates` from `from` up to `to`.
fn copy_range(candidates: &Vec<String>, from: usize, to: usize) -> (part: Vec<String>)
    requires
        from <= to <= candidates@.len(),
    ensures
        part@ == candidates@.subrange(from as int, to as int),
{
    let mut part: Vec<String> = Vec::new();
    let mut k: usize = from;
    while k < to
        invariant
            from <= k <= to <= candidates@.len(),
            part@ == candidates@.subrange(from as int, k as int),
        decreases to - k,
    {
        part.push(candidates[k].clone());
        k = k + 1;
        proof {
            assert(part@ =~= candidates@.subrange(from as int, k as int));
        }
    }
    part
}

/// Cuts `candidates` into contiguous slices of `chunk_len` words each, the
/// last one possibly shorter, in the order of the list.
///
/// Laid end to end the slices give the list back: no word is left out and
/// none occurs twice. No slice is empty, and an empty list gives no slice.
pub fn partition(candidates: &Vec<String>, worker_count: usize) -> (slices: Vec<Vec<String>>)
    requires
        worker_count >= 1,
    ensures
        is_partition(slices@, candidates@, worker_count as nat),
        joined(slices@) == candidates@,
        slices@.len() <= worker_count,
{
    let total: usize = candidates.len();
    let mut slices: Vec<Vec<String>> = Vec::new();
    if total == 0 {
        proof {
            partition_is_complete(slices@, candidates@, worker_count as nat);
        }
        return slices;
    }
    proof {
        lemma_chunk_bounds(total as nat, worker_count as nat);
    }
    let chunk: usize = if total % worker_count == 0 {
        total / worker_count
    } else {
        total / worker_count + 1
    };
    let mut pos: usize = 0;
    proof {
        assert(slices@.len() * chunk == 0) by (nonlinear_arith)
            requires
                slices@.len() == 0,
        ;
    }
    while pos < total
        invariant
            worker_count >= 1,
            total == candidates@.len(),
            chunk == chunk_len(total as nat, worker_count as nat),
            chunk >= 1,
            total <= chunk * worker_count,
            pos <= total,
            pos == (if slices@.len() * chunk < total {
                slices@.len() * chunk
            } else {
                total as int
            }),
            slices@.len() >= 1 ==> (slices@.len() - 1) * chunk < total,
            slices@.len() <= worker_count,
            forall|i: int| 0 <= i < slices@.len() ==> #[trigger] is_slice_of(slices@, candidates@, chunk as nat, i),
        decreases total - pos,
    {
        let ghost n = slices@.len();
        let ghost before = slices@;
        proof {
            lemma_next_slice(n, chunk as nat, total as nat, worker_count as nat);
        }
        let end: usize = if total - pos <= chunk {
            total
        } else {
            pos + chunk
        };
        let part = copy_range(candidates, pos, end);
        slices.push(part);
        proof {
            assert(slice_start(n as int, chunk as nat) == pos);
            assert(slice_end(n as int, chunk as nat, total as nat) == end);
            assert(slices@[n as int] == part);
            assert forall|i: int| 0 <= i < slices@.len() implies #[trigger] is_slice_of(
                slices@,
                candidates@,
                chunk as nat,
                i,
            ) by {
                if i < n {
                    assert(is_slice_of(before, candidates@, chunk as nat, i));
                    assert(slices@[i] == before[i]);
                }
            }
        }
        pos = end;
    }
    proof {
        lemma_count_is_rounded_up(total as nat, chunk as nat, slices@.len());
        partition_is_complete(slices@, candidates@, worker_count as nat);
    }
    slices
}

} // verus!
