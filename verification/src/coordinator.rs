//! The coordinator: settling the worker count, running the workers over
//! the slices, and picking the one answer of a run.

use vstd::prelude::*;
use vstd::string::*;
use crate::algorithm::{algorithm_for_len, detect_hash_type, HashType};
use crate::digest::{normalize_target, normalized};
use crate::partition::{chunk_len, is_partition, is_slice_of, partition, slice_end, slice_start};
use crate::worker::{
    first_hit_excludes_no_hit, first_hit_is_unique, first_hit_lifts, has_no_hit, is_first_hit,
    no_hit_before, no_hit_extends, scan_slice,
};

verus! {

/// Number of workers where none is asked for.
pub const DEFAULT_WORKERS: usize = 4;

/// Why a run cannot start.
#[derive(Clone, Copy, PartialEq, Eq, Debug, Structural)]
pub enum CrackError {
    /// Too few arguments were given.
    Usage,
    /// The target's length is that of no supported algorithm's digests.
    UnrecognizedAlgorithm,
    /// The word list cannot be read.
    WordlistUnreadable,
}

/// What a run found, and how many words it hashed.
pub struct CrackOutcome {
    /// The preimage, where the list holds one.
    pub password: Option<String>,
    /// Number of words hashed.
    pub attempts: u64,
}

impl CrackOutcome {
    /// The outcome is that of a search of `candidates` in order, up to the
    /// first preimage of `goal`: that word and its position plus one, or
    /// no word and the length of the list where there is no preimage.
    pub open spec fn describes(self, algo: HashType, goal: Seq<char>, candidates: Seq<String>) -> bool {
        match self.password {
            Some(w) => {
                &&& is_first_hit(algo, goal, candidates, self.attempts - 1)
                &&& w == candidates[self.attempts - 1]
            },
            None => {
                &&& has_no_hit(algo, goal, candidates)
                &&& self.attempts == candidates.len()
            },
        }
    }
}

/// A search of a list without a preimage reports no word and as many
/// attempts as the list is long: every word was hashed exactly once.
pub proof fn search_without_preimage_counts_every_word(
    out: CrackOutcome,
    algo: HashType,
    goal: Seq<char>,
    candidates: Seq<String>,
)
    requires
        out.describes(algo, goal, candidates),
        has_no_hit(algo, goal, candidates),
    ensures
        out.password is None,
        out.attempts == candidates.len(),
{
    if out.password is Some {
        first_hit_excludes_no_hit(algo, goal, candidates, out.attempts - 1);
    }
}

/// A search of a list whose first preimage stands at position `k` reports
/// that word after `k + 1` attempts, which is never more than the list is
/// long.
pub proof fn search_stops_at_first_preimage(
    out: CrackOutcome,
    algo: HashType,
    goal: Seq<char>,
    candidates: Seq<String>,
    k: int,
)
    requires
        out.describes(algo, goal, candidates),
        is_first_hit(algo, goal, candidates, k),
    ensures
        out.password == Some(candidates[k]),
        out.attempts == k + 1,
        out.attempts <= candidates.len(),
{
    if out.password is Some {
        first_hit_is_unique(algo, goal, candidates, k, out.attempts - 1);
    } else {
        first_hit_excludes_no_hit(algo, goal, candidates, k);
    }
}

/// The worker count of a run: the one asked for where it is positive,
/// else the default.
pub fn effective_workers(requested: Option<usize>) -> (r: usize)
    ensures
        r >= 1,
        r == match requested {
            Some(n) if n >= 1 => n,
            _ => DEFAULT_WORKERS,
        },
{
    match requested {
        Some(n) => if n >= 1 {
            n
        } else {
            DEFAULT_WORKERS
        },
        None => DEFAULT_WORKERS,
    }
}

/// Whole hashes per second, for `attempts` hashes in `micros` microseconds.
pub open spec fn hashes_per_second(attempts: nat, micros: nat) -> nat
    recommends
        micros > 0,
{
    attempts * 1_000_000 / micros
}

/// Throughput of a run in whole hashes per second, rounded down. Where no
/// time has passed none is available.
pub fn throughput(attempts: u64, elapsed_micros: u64) -> (r: Option<u128>)
    ensures
        elapsed_micros == 0 ==> r is None,
        elapsed_micros > 0 ==> r == Some(hashes_per_second(attempts as nat, elapsed_micros as nat) as u128),
        elapsed_micros > 0 ==> hashes_per_second(attempts as nat, elapsed_micros as nat) <= u128::MAX,
{
    if elapsed_micros == 0 {
        return None;
    }
    let scaled: u128 = (attempts as u128) * 1_000_000u128;
    let rate: u128 = scaled / (elapsed_micros as u128);
    Some(rate)
}

/// Position `k` holds the first answer among `results`.
pub open spec fn is_first_answer(results: Seq<Option<String>>, k: int) -> bool {
    &&& 0 <= k < results.len()
    &&& results[k] is Some
    &&& forall|j: int| 0 <= j < k ==> (#[trigger] results[j]) is None
}

/// Picks the answer of a run from the workers' results, given in the order
/// of their slices: that of the worker with the lowest slice index that
/// has one.
pub fn resolve(results: &Vec<Option<String>>) -> (r: Option<String>)
    ensures
        match r {
            Some(w) => exists|k: int| #[trigger] is_first_answer(results@, k) && results@[k] == Some(w),
            None => forall|j: int| 0 <= j < results@.len() ==> (#[trigger] results@[j]) is None,
        },
{
    let mut k: usize = 0;
    while k < results.len()
        invariant
            k <= results@.len(),
            forall|j: int| 0 <= j < k ==> (#[trigger] results@[j]) is None,
        decreases results@.len() - k,
    {
        match &results[k] {
            Some(w) => {
                proof {
                    assert(is_first_answer(results@, k as int));
                }
                return Some(w.clone());
            },
            None => {},
        }
        k = k + 1;
    }
    None
}

/// Runs one worker after the other over the slices of `candidates`, in
/// the order of the slices, and reports the answer with the number of
/// words hashed.
///
/// A target of unsupported length is refused before anything is hashed.
/// Else the answer is the first preimage in the list, found after hashing
/// every word up to it and none behind it; without a preimage every word
/// is hashed exactly once.
pub fn crack_wordlist(target_hash: &str, candidates: &Vec<String>, worker_count: usize) -> (r: Result<
    CrackOutcome,
    CrackError,
>)
    requires
        worker_count >= 1,
    ensures
        match algorithm_for_len(target_hash.spec_bytes().len()) {
            None => r == Err::<CrackOutcome, CrackError>(CrackError::UnrecognizedAlgorithm),
            Some(algo) => r matches Ok(out) && out.describes(
                algo,
                normalized(target_hash@),
                candidates@,
            ),
        },
{
    let algo = match detect_hash_type(target_hash) {
        Some(algo) => algo,
        None => {
            return Err(CrackError::UnrecognizedAlgorithm);
        },
    };
    let goal = normalize_target(target_hash);
    let slices = partition(candidates, worker_count);
    let count: usize = candidates.len();
    let ghost total = candidates@.len();
    let ghost chunk = chunk_len(total, worker_count as nat);
    let mut found: bool = false;
    let mut attempts: u64 = 0;
    let mut results: Vec<Option<String>> = Vec::new();
    let mut i: usize = 0;
    let ghost mut pos: int = 0;
    let ghost mut hit_slice: int = 0;
    while i < slices.len()
        invariant
            worker_count >= 1,
            i <= slices@.len(),
            results@.len() == i,
            total == candidates@.len(),
            total == count,
            chunk == chunk_len(total, worker_count as nat),
            is_partition(slices@, candidates@, worker_count as nat),
            goal@ == normalized(target_hash@),
            0 <= pos <= total,
            i < slices@.len() ==> pos == slice_start(i as int, chunk),
            i == slices@.len() ==> pos == total,
            !found ==> {
                &&& attempts == pos
                &&& no_hit_before(algo, goal@, candidates@, pos)
                &&& forall|j: int| 0 <= j < i ==> (#[trigger] results@[j]) is None
            },
            found ==> {
                &&& 1 <= attempts <= total
                &&& is_first_hit(algo, goal@, candidates@, attempts - 1)
                &&& is_first_answer(results@, hit_slice)
                &&& results@[hit_slice] == Some(candidates@[attempts - 1])
            },
        decreases slices@.len() - i,
    {
        let ghost from = slice_start(i as int, chunk);
        let ghost to = slice_end(i as int, chunk, total);
        let ghost before = results@;
        let ghost was_found = found;
        proof {
            assert(is_slice_of(slices@, candidates@, chunk, i as int));
            if i + 1 < slices@.len() {
                assert(is_slice_of(slices@, candidates@, chunk, i + 1));
            }
            assert(slices@[i as int]@.len() == to - from);
        }
        let answer = scan_slice(&slices[i], goal.as_str(), algo, &mut found, &mut attempts);
        results.push(answer);
        proof {
            assert forall|j: int| 0 <= j < i implies results@[j] == before[j] by {}
            if was_found {
                assert(is_first_answer(results@, hit_slice));
            } else if found {
                first_hit_lifts(algo, goal@, candidates@, from, to, attempts - from - 1);
                hit_slice = i as int;
                assert(is_first_answer(results@, hit_slice));
            } else {
                no_hit_extends(algo, goal@, candidates@, from, to);
            }
            pos = to;
        }
        i = i + 1;
    }
    let password = resolve(&results);
    proof {
        if found {
            let k = choose|k: int| #[trigger] is_first_answer(results@, k) && results@[k] == password;
            if k < hit_slice {
                assert(results@[k] is None);
            }
            if hit_slice < k {
                assert(results@[hit_slice] is None);
            }
        } else {
            if slices@.len() > 0 {
                assert(is_slice_of(slices@, candidates@, chunk, slices@.len() - 1));
            }
        }
    }
    Ok(CrackOutcome { password, attempts })
}

} // verus!
