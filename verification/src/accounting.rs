//! What the workers' reports of one run add up to, however the workers
//! were scheduled.

use vstd::prelude::*;
use crate::algorithm::HashType;
use crate::digest::is_hit;
use crate::partition::{chunk_len, covered, is_partition, is_slice_of, slice_end, slice_start};
use crate::worker::{
    first_hit_is_unique, first_hit_lifts, has_no_hit, is_first_hit, WorkerReport,
};

verus! {

/// Number of words that the workers hashed, all reports together.
pub open spec fn total_hashed(reports: Seq<WorkerReport>) -> nat
    decreases reports.len(),
{
    if reports.len() == 0 {
        0
    } else {
        total_hashed(reports.drop_last()) + reports.last().hashed as nat
    }
}

/// Report `i` is one that a scan of slice `i` can end with, for each `i`.
pub open spec fn reports_describe(
    reports: Seq<WorkerReport>,
    slices: Seq<Vec<String>>,
    algo: HashType,
    goal: Seq<char>,
) -> bool {
    &&& reports.len() == slices.len()
    &&& forall|i: int| 0 <= i < reports.len() ==> (#[trigger] reports[i]).describes(algo, goal, slices[i]@)
}

/// A worker saw the stop signal only where some worker raised it, which a
/// worker does on finding a preimage.
pub open spec fn signal_is_sound(reports: Seq<WorkerReport>) -> bool {
    (exists|i: int| 0 <= i < reports.len() && (#[trigger] reports[i]).halted) ==> (exists|j: int|
        0 <= j < reports.len() && (#[trigger] reports[j]).result is Some)
}

proof fn lemma_prefix_hashed(
    reports: Seq<WorkerReport>,
    slices: Seq<Vec<String>>,
    candidates: Seq<String>,
    workers: nat,
    algo: HashType,
    goal: Seq<char>,
    n: int,
)
    requires
        workers >= 1,
        is_partition(slices, candidates, workers),
        reports_describe(reports, slices, algo, goal),
        0 <= n <= reports.len(),
    ensures
        total_hashed(reports.take(n)) <= covered(n, chunk_len(candidates.len(), workers), candidates.len()),
        (forall|i: int| 0 <= i < n ==> (#[trigger] reports[i]).result is None && !reports[i].halted)
            ==> total_hashed(reports.take(n)) == covered(
            n,
            chunk_len(candidates.len(), workers),
            candidates.len(),
        ),
    decreases n,
{
    let chunk = chunk_len(candidates.len(), workers);
    if n > 0 {
        lemma_prefix_hashed(reports, slices, candidates, workers, algo, goal, n - 1);
        assert(reports.take(n).drop_last() =~= reports.take(n - 1));
        assert(reports.take(n).last() == reports[n - 1]);
        assert(reports[n - 1].describes(algo, goal, slices[n - 1]@));
        assert(is_slice_of(slices, candidates, chunk, n - 1));
        if n > 1 {
            assert(is_slice_of(slices, candidates, chunk, n - 2));
        } else {
            assert(0 * chunk == 0) by (nonlinear_arith);
        }
        assert(covered(n - 1, chunk, candidates.len()) == slice_start(n - 1, chunk));
        assert(slices[n - 1]@.len() == slice_end(n - 1, chunk, candidates.len()) - slice_start(
            n - 1,
            chunk,
        ));
    }
}

/// The workers never hash more words than the list holds, whatever each
/// of them saw of the stop signal.
pub proof fn attempts_never_exceed_list(
    reports: Seq<WorkerReport>,
    slices: Seq<Vec<String>>,
    candidates: Seq<String>,
    workers: nat,
    algo: HashType,
    goal: Seq<char>,
)
    requires
        workers >= 1,
        is_partition(slices, candidates, workers),
        reports_describe(reports, slices, algo, goal),
    ensures
        total_hashed(reports) <= candidates.len(),
{
    lemma_prefix_hashed(reports, slices, candidates, workers, algo, goal, reports.len() as int);
    assert(reports.take(reports.len() as int) =~= reports);
}

/// The word that worker `i` reports is a preimage and stands in the list
/// within slice `i`, as many places behind the slice's start as the worker
/// hashed words before it.
pub proof fn reported_word_is_preimage(
    reports: Seq<WorkerReport>,
    slices: Seq<Vec<String>>,
    candidates: Seq<String>,
    workers: nat,
    algo: HashType,
    goal: Seq<char>,
    i: int,
)
    requires
        workers >= 1,
        is_partition(slices, candidates, workers),
        reports_describe(reports, slices, algo, goal),
        0 <= i < reports.len(),
        reports[i].result is Some,
    ensures
        ({
            let chunk = chunk_len(candidates.len(), workers);
            let k = slice_start(i, chunk) + reports[i].hashed - 1;
            &&& slice_start(i, chunk) <= k < slice_end(i, chunk, candidates.len())
            &&& reports[i].result == Some(candidates[k])
            &&& is_hit(algo, goal, candidates[k]@)
        }),
{
    let chunk = chunk_len(candidates.len(), workers);
    assert(reports[i].describes(algo, goal, slices[i]@));
    assert(is_slice_of(slices, candidates, chunk, i));
    let m = reports[i].hashed - 1;
    let k = slice_start(i, chunk) + m;
    assert(slices[i]@[m] == candidates[k]);
}

proof fn lemma_total_covers_each(reports: Seq<WorkerReport>, i: int)
    requires
        0 <= i < reports.len(),
    ensures
        total_hashed(reports) >= reports[i].hashed,
    decreases reports.len(),
{
    if i < reports.len() - 1 {
        lemma_total_covers_each(reports.drop_last(), i);
    }
}

/// Where the first preimage of the list stands at position `k` within the
/// first slice, and no slice behind the first holds a preimage, the first
/// worker reports that word and the attempts are at least `k + 1`.
pub proof fn attempts_reach_preimage_in_first_slice(
    reports: Seq<WorkerReport>,
    slices: Seq<Vec<String>>,
    candidates: Seq<String>,
    workers: nat,
    algo: HashType,
    goal: Seq<char>,
    k: int,
)
    requires
        workers >= 1,
        is_partition(slices, candidates, workers),
        reports_describe(reports, slices, algo, goal),
        signal_is_sound(reports),
        is_first_hit(algo, goal, candidates, k),
        k < chunk_len(candidates.len(), workers),
        forall|j: int|
            chunk_len(candidates.len(), workers) <= j < candidates.len() ==> !is_hit(
                algo,
                goal,
                (#[trigger] candidates[j])@,
            ),
    ensures
        reports.len() >= 1,
        reports[0].result == Some(candidates[k]),
        total_hashed(reports) >= k + 1,
{
    let chunk = chunk_len(candidates.len(), workers);
    let len = candidates.len();
    assert(0 * chunk == 0 && 1 * chunk == chunk) by (nonlinear_arith);
    assert(is_slice_of(slices, candidates, chunk, 0));
    let to = slice_end(0, chunk, len);
    let part = candidates.subrange(0, to);
    assert(part[k] == candidates[k]);
    assert(reports[0].describes(algo, goal, slices[0]@));
    assert forall|j: int| 1 <= j < reports.len() implies (#[trigger] reports[j]).result is None by {
        if reports[j].result is Some {
            reported_word_is_preimage(reports, slices, candidates, workers, algo, goal, j);
            assert(j * chunk >= chunk) by (nonlinear_arith)
                requires
                    j >= 1,
            ;
            let at = slice_start(j, chunk) + reports[j].hashed - 1;
            assert(!is_hit(algo, goal, candidates[at]@));
        }
    }
    if reports[0].result is None {
        if reports[0].halted {
            let j = choose|j: int| 0 <= j < reports.len() && (#[trigger] reports[j]).result is Some;
            assert(reports[j].result is None);
        }
        assert(!is_hit(algo, goal, part[k]@));
    }
    let m = reports[0].hashed - 1;
    first_hit_lifts(algo, goal, candidates, 0, to, m);
    first_hit_is_unique(algo, goal, candidates, k, m);
    assert(part[m] == candidates[m]);
    lemma_total_covers_each(reports, 0);
}

/// Where the list holds no preimage of the target, no worker reports a
/// word, and the workers together hash every word exactly once: the
/// attempts are as many as the list is long.
pub proof fn attempts_exact_without_preimage(
    reports: Seq<WorkerReport>,
    slices: Seq<Vec<String>>,
    candidates: Seq<String>,
    workers: nat,
    algo: HashType,
    goal: Seq<char>,
)
    requires
        workers >= 1,
        is_partition(slices, candidates, workers),
        reports_describe(reports, slices, algo, goal),
        signal_is_sound(reports),
        has_no_hit(algo, goal, candidates),
    ensures
        forall|i: int| 0 <= i < reports.len() ==> (#[trigger] reports[i]).result is None,
        total_hashed(reports) == candidates.len(),
{
    let chunk = chunk_len(candidates.len(), workers);
    assert forall|i: int| 0 <= i < reports.len() implies (#[trigger] reports[i]).result is None by {
        if reports[i].result is Some {
            reported_word_is_preimage(reports, slices, candidates, workers, algo, goal, i);
            let k = slice_start(i, chunk) + reports[i].hashed - 1;
            assert(!is_hit(algo, goal, candidates[k]@));
        }
    }
    assert forall|i: int| 0 <= i < reports.len() implies !(#[trigger] reports[i]).halted by {
        if reports[i].halted {
            let j = choose|j: int| 0 <= j < reports.len() && (#[trigger] reports[j]).result is Some;
            assert(reports[j].result is None);
        }
    }
    let n = reports.len() as int;
    lemma_prefix_hashed(reports, slices, candidates, workers, algo, goal, n);
    assert(reports.take(n) =~= reports);
    if n > 0 {
        assert(is_slice_of(slices, candidates, chunk, n - 1));
    } else {
        assert(0 * chunk == 0) by (nonlinear_arith);
    }
}

} // verus!
