//! The workers' protocol on the shared stop signal and attempt counter,
//! one step of one worker at a time, in whatever order the steps come.

use vstd::prelude::*;
use crate::algorithm::HashType;
use crate::digest::is_hit;
use crate::partition::{chunk_len, covered, is_partition, is_slice_of, slice_end, slice_start};
use crate::accounting::{reports_describe, signal_is_sound, total_hashed};
use crate::worker::{has_no_hit, is_first_hit, no_hit_before, WorkerReport};

verus! {

/// What a worker is about to do.
pub enum Status {
    /// Read the stop signal before its next word.
    Scanning,
    /// Hash its next word, which it has counted.
    Counted,
    /// Nothing more: its next word is a preimage and it raised the signal.
    Found,
    /// Nothing more: it saw the signal raised.
    Halted,
}

/// One worker: the position of its next word in its slice, and its status.
pub struct WorkerState {
    pub next: nat,
    pub status: Status,
}

/// The shared values and every worker, at one moment of a run.
pub struct RunState {
    pub flag: bool,
    pub counter: nat,
    pub workers: Seq<WorkerState>,
}

/// Number of words that a worker has counted.
pub open spec fn hashed(w: WorkerState) -> nat {
    if w.status is Counted || w.status is Found {
        w.next + 1
    } else {
        w.next
    }
}

/// Number of words that the workers have counted, all together.
pub open spec fn sum_hashed(workers: Seq<WorkerState>) -> nat
    decreases workers.len(),
{
    if workers.len() == 0 {
        0
    } else {
        sum_hashed(workers.drop_last()) + hashed(workers.last())
    }
}

/// The start of a run of `n` workers.
pub open spec fn initial(n: nat) -> RunState {
    RunState {
        flag: false,
        counter: 0,
        workers: Seq::new(n, |i: int| WorkerState { next: 0, status: Status::Scanning }),
    }
}

/// Worker `w` has a step to take.
pub open spec fn can_step(s: RunState, slices: Seq<Vec<String>>, w: int) -> bool {
    &&& 0 <= w < s.workers.len()
    &&& w < slices.len()
    &&& (s.workers[w].status is Counted || (s.workers[w].status is Scanning && s.workers[w].next
        < slices[w]@.len()))
}

/// The state after worker `w` takes its step. A scanning worker reads the
/// signal: it halts where the signal is up, else it counts its next word.
/// A worker that has counted its word hashes it: on a preimage it raises
/// the signal and ends, else it goes on to the word behind.
pub open spec fn step(s: RunState, slices: Seq<Vec<String>>, algo: HashType, goal: Seq<char>, w: int) -> RunState {
    let me = s.workers[w];
    if me.status is Scanning {
        if s.flag {
            RunState { workers: s.workers.update(w, WorkerState { status: Status::Halted, ..me }), ..s }
        } else {
            RunState {
                counter: s.counter + 1,
                workers: s.workers.update(w, WorkerState { status: Status::Counted, ..me }),
                ..s
            }
        }
    } else if is_hit(algo, goal, slices[w]@[me.next as int]@) {
        RunState {
            flag: true,
            workers: s.workers.update(w, WorkerState { status: Status::Found, ..me }),
            ..s
        }
    } else {
        RunState {
            workers: s.workers.update(w, WorkerState { next: me.next + 1, status: Status::Scanning }),
            ..s
        }
    }
}

/// No worker has a step to take.
pub open spec fn finished(s: RunState, slices: Seq<Vec<String>>) -> bool {
    forall|w: int| !can_step(s, slices, w)
}

/// What holds of worker `w` at every moment of a run.
pub open spec fn worker_ok(s: RunState, slices: Seq<Vec<String>>, algo: HashType, goal: Seq<char>, w: int) -> bool {
    let me = s.workers[w];
    &&& me.next <= slices[w]@.len()
    &&& !(me.status is Scanning) ==> me.next < slices[w]@.len()
    &&& no_hit_before(algo, goal, slices[w]@, me.next as int)
    &&& me.status is Found ==> s.flag && is_hit(algo, goal, slices[w]@[me.next as int]@)
    &&& me.status is Halted ==> s.flag
}

/// What holds at every moment of a run: the counter is the number of
/// words counted, every worker has hashed the words before its position
/// and none of them is a preimage, and the signal is up if and only if a
/// worker found a preimage.
pub open spec fn sound(s: RunState, slices: Seq<Vec<String>>, algo: HashType, goal: Seq<char>) -> bool {
    &&& s.workers.len() == slices.len()
    &&& s.counter == sum_hashed(s.workers)
    &&& forall|w: int| 0 <= w < s.workers.len() ==> #[trigger] worker_ok(s, slices, algo, goal, w)
    &&& s.flag ==> exists|w: int| 0 <= w < s.workers.len() && (#[trigger] s.workers[w]).status is Found
}

proof fn lemma_sum_update(workers: Seq<WorkerState>, w: int, new: WorkerState)
    requires
        0 <= w < workers.len(),
    ensures
        sum_hashed(workers.update(w, new)) + hashed(workers[w]) == sum_hashed(workers) + hashed(new),
    decreases workers.len(),
{
    let after = workers.update(w, new);
    if w == workers.len() - 1 {
        assert(after.drop_last() =~= workers.drop_last());
    } else {
        lemma_sum_update(workers.drop_last(), w, new);
        assert(after.drop_last() =~= workers.drop_last().update(w, new));
    }
}

proof fn lemma_sum_initial(n: nat)
    ensures
        sum_hashed(initial(n).workers) == 0,
    decreases n,
{
    if n > 0 {
        lemma_sum_initial((n - 1) as nat);
        assert(initial(n).workers.drop_last() =~= initial((n - 1) as nat).workers);
    }
}

/// A run starts in a sound state.
pub proof fn initial_state_is_sound(slices: Seq<Vec<String>>, algo: HashType, goal: Seq<char>)
    ensures
        sound(initial(slices.len()), slices, algo, goal),
{
    lemma_sum_initial(slices.len());
}

/// Every step of every worker leads from a sound state to a sound state.
pub proof fn step_keeps_soundness(
    s: RunState,
    slices: Seq<Vec<String>>,
    algo: HashType,
    goal: Seq<char>,
    w: int,
)
    requires
        sound(s, slices, algo, goal),
        can_step(s, slices, w),
    ensures
        sound(step(s, slices, algo, goal, w), slices, algo, goal),
{
    let t = step(s, slices, algo, goal, w);
    let me = s.workers[w];
    assert(worker_ok(s, slices, algo, goal, w));
    lemma_sum_update(s.workers, w, t.workers[w]);
    assert forall|v: int| 0 <= v < t.workers.len() implies #[trigger] worker_ok(
        t,
        slices,
        algo,
        goal,
        v,
    ) by {
        assert(worker_ok(s, slices, algo, goal, v));
        if v == w && me.status is Counted && !is_hit(algo, goal, slices[w]@[me.next as int]@) {
            assert forall|j: int| 0 <= j < me.next + 1 && j < slices[w]@.len() implies !is_hit(
                algo,
                goal,
                (#[trigger] slices[w]@[j])@,
            ) by {}
        }
    }
    if t.flag {
        if s.flag {
            let v = choose|v: int| 0 <= v < s.workers.len() && (#[trigger] s.workers[v]).status is Found;
            assert(t.workers[v].status is Found);
        } else {
            assert(t.workers[w].status is Found);
        }
    }
}

proof fn lemma_prefix_counted(
    s: RunState,
    slices: Seq<Vec<String>>,
    candidates: Seq<String>,
    workers: nat,
    algo: HashType,
    goal: Seq<char>,
    n: int,
)
    requires
        workers >= 1,
        is_partition(slices, candidates, workers),
        sound(s, slices, algo, goal),
        0 <= n <= s.workers.len(),
    ensures
        sum_hashed(s.workers.take(n)) <= covered(n, chunk_len(candidates.len(), workers), candidates.len()),
        (forall|i: int| 0 <= i < n ==> hashed(#[trigger] s.workers[i]) == slices[i]@.len()) ==> sum_hashed(
            s.workers.take(n),
        ) == covered(n, chunk_len(candidates.len(), workers), candidates.len()),
    decreases n,
{
    let chunk = chunk_len(candidates.len(), workers);
    if n > 0 {
        lemma_prefix_counted(s, slices, candidates, workers, algo, goal, n - 1);
        assert(s.workers.take(n).drop_last() =~= s.workers.take(n - 1));
        assert(s.workers.take(n).last() == s.workers[n - 1]);
        assert(worker_ok(s, slices, algo, goal, n - 1));
        assert(is_slice_of(slices, candidates, chunk, n - 1));
        if n > 1 {
            assert(is_slice_of(slices, candidates, chunk, n - 2));
        } else {
            assert(0 * chunk == 0) by (nonlinear_arith);
        }
        assert(covered(n - 1, chunk, candidates.len()) == slice_start(n - 1, chunk));
        assert(slices[n - 1]@.len() == slice_end(n - 1, chunk, candidates.len()) - slice_start(
            n - 1,
            chunk,
        ));
    }
}

/// At no moment of a run is the counter above the length of the list.
pub proof fn counter_never_exceeds_list(
    s: RunState,
    slices: Seq<Vec<String>>,
    candidates: Seq<String>,
    workers: nat,
    algo: HashType,
    goal: Seq<char>,
)
    requires
        workers >= 1,
        is_partition(slices, candidates, workers),
        sound(s, slices, algo, goal),
    ensures
        s.counter <= candidates.len(),
{
    lemma_prefix_counted(s, slices, candidates, workers, algo, goal, s.workers.len() as int);
    assert(s.workers.take(s.workers.len() as int) =~= s.workers);
}

/// Where the list holds no preimage, the signal is never raised, no worker
/// halts, and at the end of the run the counter is the length of the list:
/// every word was hashed exactly once.
pub proof fn counter_exact_without_preimage(
    s: RunState,
    slices: Seq<Vec<String>>,
    candidates: Seq<String>,
    workers: nat,
    algo: HashType,
    goal: Seq<char>,
)
    requires
        workers >= 1,
        is_partition(slices, candidates, workers),
        sound(s, slices, algo, goal),
        has_no_hit(algo, goal, candidates),
    ensures
        !s.flag,
        forall|w: int| 0 <= w < s.workers.len() ==> !((#[trigger] s.workers[w]).status is Halted),
        finished(s, slices) ==> s.counter == candidates.len(),
{
    let chunk = chunk_len(candidates.len(), workers);
    let n = s.workers.len() as int;
    assert forall|w: int| 0 <= w < n implies !((#[trigger] s.workers[w]).status is Found) by {
        assert(worker_ok(s, slices, algo, goal, w));
        assert(is_slice_of(slices, candidates, chunk, w));
        if s.workers[w].status is Found {
            let k = slice_start(w, chunk) + s.workers[w].next;
            assert(slices[w]@[s.workers[w].next as int] == candidates[k]);
            assert(!is_hit(algo, goal, candidates[k]@));
        }
    }
    assert forall|w: int| 0 <= w < n implies !((#[trigger] s.workers[w]).status is Halted) by {
        assert(worker_ok(s, slices, algo, goal, w));
    }
    if finished(s, slices) {
        assert forall|i: int| 0 <= i < n implies hashed(#[trigger] s.workers[i]) == slices[i]@.len() by {
            assert(worker_ok(s, slices, algo, goal, i));
            assert(!can_step(s, slices, i));
        }
        lemma_prefix_counted(s, slices, candidates, workers, algo, goal, n);
        assert(s.workers.take(n) =~= s.workers);
        if n > 0 {
            assert(is_slice_of(slices, candidates, chunk, n - 1));
        } else {
            assert(0 * chunk == 0) by (nonlinear_arith);
        }
    }
}

/// The report that a worker's state amounts to once it has no step left.
pub open spec fn report_of(me: WorkerState, slice: Vec<String>) -> WorkerReport {
    WorkerReport {
        result: if me.status is Found {
            Some(slice@[me.next as int])
        } else {
            None
        },
        hashed: hashed(me) as usize,
        halted: me.status is Halted,
    }
}

/// The reports of all workers, in the order of their slices.
pub open spec fn reports_of(s: RunState, slices: Seq<Vec<String>>) -> Seq<WorkerReport> {
    Seq::new(s.workers.len(), |w: int| report_of(s.workers[w], slices[w]))
}

proof fn lemma_reports_total(s: RunState, slices: Seq<Vec<String>>, algo: HashType, goal: Seq<char>, n: int)
    requires
        sound(s, slices, algo, goal),
        0 <= n <= s.workers.len(),
    ensures
        total_hashed(reports_of(s, slices).take(n)) == sum_hashed(s.workers.take(n)),
    decreases n,
{
    let reports = reports_of(s, slices);
    if n > 0 {
        lemma_reports_total(s, slices, algo, goal, n - 1);
        assert(reports.take(n).drop_last() =~= reports.take(n - 1));
        assert(s.workers.take(n).drop_last() =~= s.workers.take(n - 1));
        assert(worker_ok(s, slices, algo, goal, n - 1));
        vstd::std_specs::vec::axiom_spec_len(&slices[n - 1]);
        assert(reports.take(n).last().hashed == hashed(s.workers[n - 1]));
    }
}

/// At the end of a run each worker's state amounts to a report that a
/// scan of its slice can end with; a worker halted only where another
/// found a preimage; and the counter is the sum of the words that the
/// reports count.
pub proof fn finished_run_gives_sound_reports(
    s: RunState,
    slices: Seq<Vec<String>>,
    algo: HashType,
    goal: Seq<char>,
)
    requires
        sound(s, slices, algo, goal),
        finished(s, slices),
    ensures
        reports_describe(reports_of(s, slices), slices, algo, goal),
        signal_is_sound(reports_of(s, slices)),
        total_hashed(reports_of(s, slices)) == s.counter,
{
    let reports = reports_of(s, slices);
    let n = s.workers.len() as int;
    assert forall|i: int| 0 <= i < reports.len() implies (#[trigger] reports[i]).describes(
        algo,
        goal,
        slices[i]@,
    ) by {
        assert(worker_ok(s, slices, algo, goal, i));
        assert(!can_step(s, slices, i));
        vstd::std_specs::vec::axiom_spec_len(&slices[i]);
        if s.workers[i].status is Found {
            assert(is_first_hit(algo, goal, slices[i]@, s.workers[i].next as int));
        }
    }
    if exists|i: int| 0 <= i < reports.len() && (#[trigger] reports[i]).halted {
        let i = choose|i: int| 0 <= i < reports.len() && (#[trigger] reports[i]).halted;
        assert(worker_ok(s, slices, algo, goal, i));
        let j = choose|j: int| 0 <= j < s.workers.len() && (#[trigger] s.workers[j]).status is Found;
        assert(reports[j].result is Some);
    }
    lemma_reports_total(s, slices, algo, goal, n);
    assert(reports.take(n) =~= reports);
    assert(s.workers.take(n) =~= s.workers);
}

} // verus!
