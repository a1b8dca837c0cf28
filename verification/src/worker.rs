//! One worker: scanning a slice of candidates for a preimage of the target.

use std::sync::atomic::{AtomicBool, AtomicU64};
use std::sync::Arc;
use vstd::prelude::*;
use crate::algorithm::HashType;
use crate::digest::{hash_password, is_hit, normalize_target, normalized};
use crate::signal::{count_attempt, request_stop, stop_requested};

verus! {

/// None of the first `k` words is a preimage of `goal`.
pub open spec fn no_hit_before(algo: HashType, goal: Seq<char>, words: Seq<String>, k: int) -> bool {
    forall|j: int| 0 <= j < k && j < words.len() ==> !is_hit(algo, goal, (#[trigger] words[j])@)
}

/// Word `k` is a preimage of `goal`, and no word before it is.
pub open spec fn is_first_hit(algo: HashType, goal: Seq<char>, words: Seq<String>, k: int) -> bool {
    &&& 0 <= k < words.len()
    &&& is_hit(algo, goal, words[k]@)
    &&& no_hit_before(algo, goal, words, k)
}

/// No word is a preimage of `goal`.
pub open spec fn has_no_hit(algo: HashType, goal: Seq<char>, words: Seq<String>) -> bool {
    no_hit_before(algo, goal, words, words.len() as int)
}

/// At most one position of a list is its first preimage.
pub proof fn first_hit_is_unique(algo: HashType, goal: Seq<char>, words: Seq<String>, a: int, b: int)
    requires
        is_first_hit(algo, goal, words, a),
        is_first_hit(algo, goal, words, b),
    ensures
        a == b,
{
    if a < b {
        assert(!is_hit(algo, goal, words[a]@));
    }
    if b < a {
        assert(!is_hit(algo, goal, words[b]@));
    }
}

/// A list with a first preimage is not one without a preimage.
pub proof fn first_hit_excludes_no_hit(algo: HashType, goal: Seq<char>, words: Seq<String>, k: int)
    requires
        is_first_hit(algo, goal, words, k),
    ensures
        !has_no_hit(algo, goal, words),
{
    if has_no_hit(algo, goal, words) {
        assert(!is_hit(algo, goal, words[k]@));
    }
}

/// Where the first `from` words hold no preimage and the words from `from`
/// up to `to` hold none, the first `to` words hold none.
pub proof fn no_hit_extends(algo: HashType, goal: Seq<char>, words: Seq<String>, from: int, to: int)
    requires
        0 <= from <= to <= words.len(),
        no_hit_before(algo, goal, words, from),
        has_no_hit(algo, goal, words.subrange(from, to)),
    ensures
        no_hit_before(algo, goal, words, to),
{
    let part = words.subrange(from, to);
    assert forall|j: int| 0 <= j < to && j < words.len() implies !is_hit(
        algo,
        goal,
        (#[trigger] words[j])@,
    ) by {
        if j >= from {
            assert(part[j - from] == words[j]);
        }
    }
}

/// Where the first `from` words hold no preimage and word `m` is the first
/// preimage among the words from `from` up to `to`, word `from + m` is the
/// first preimage of the list.
pub proof fn first_hit_lifts(
    algo: HashType,
    goal: Seq<char>,
    words: Seq<String>,
    from: int,
    to: int,
    m: int,
)
    requires
        0 <= from <= to <= words.len(),
        no_hit_before(algo, goal, words, from),
        is_first_hit(algo, goal, words.subrange(from, to), m),
    ensures
        is_first_hit(algo, goal, words, from + m),
{
    let part = words.subrange(from, to);
    assert(part[m] == words[from + m]);
    assert forall|j: int| 0 <= j < from + m && j < words.len() implies !is_hit(
        algo,
        goal,
        (#[trigger] words[j])@,
    ) by {
        if j >= from {
            assert(part[j - from] == words[j]);
        }
    }
}

/// What one worker did with its slice.
pub struct WorkerReport {
    /// The preimage that the worker found, if it found one.
    pub result: Option<String>,
    /// How many words the worker hashed.
    pub hashed: usize,
    /// Whether the worker gave up because it saw the stop signal.
    pub halted: bool,
}

impl WorkerReport {
    /// The report is one that a scan of `words` for `goal` can end with:
    /// the worker hashed the first `hashed` words in order, the last of
    /// them is the preimage it reports, and without one it either saw the
    /// stop signal or went through the whole slice.
    pub open spec fn describes(self, algo: HashType, goal: Seq<char>, words: Seq<String>) -> bool {
        &&& self.hashed <= words.len()
        &&& match self.result {
            Some(w) => {
                &&& !self.halted
                &&& self.hashed >= 1
                &&& is_first_hit(algo, goal, words, self.hashed - 1)
                &&& w == words[self.hashed - 1]
            },
            None => {
                &&& no_hit_before(algo, goal, words, self.hashed as int)
                &&& !self.halted ==> self.hashed == words.len()
                &&& self.halted ==> self.hashed < words.len()
            },
        }
    }
}

/// What a worker does about one word.
#[derive(Clone, Copy, PartialEq, Eq, Debug, Structural)]
pub enum Verdict {
    /// The stop signal was up: the word is left alone and the scan ends.
    Halt,
    /// The word was hashed and is no preimage: the scan goes on.
    Miss,
    /// The word was hashed and is a preimage: the scan ends with it.
    Hit,
}

/// The verdict on a word, from what the worker read of the stop signal
/// and from whether the word is a preimage.
pub open spec fn verdict_for(stop_seen: bool, hit: bool) -> Verdict {
    if stop_seen {
        Verdict::Halt
    } else if hit {
        Verdict::Hit
    } else {
        Verdict::Miss
    }
}

/// Decides about `word`, given in `stop_seen` what the worker has just
/// read of the stop signal. With the signal up the word is neither counted
/// nor hashed. Else the attempt is counted, the word is hashed, and the
/// verdict says whether its digest is `goal`.
pub fn examine(
    stop_seen: bool,
    word: &str,
    goal: &String,
    hash_type: HashType,
    attempts: &AtomicU64,
) -> (verdict: Verdict)
    ensures
        verdict == verdict_for(stop_seen, is_hit(hash_type, goal@, word@)),
{
    if stop_seen {
        return Verdict::Halt;
    }
    count_attempt(attempts);
    let computed = hash_password(word, hash_type);
    if computed == *goal {
        Verdict::Hit
    } else {
        Verdict::Miss
    }
}

/// Scans `wordlist` in order for a preimage of `target_hash`, whose letter
/// case does not count. Before each word the worker reads the stop signal
/// and gives up if it is raised; else it counts an attempt and hashes the
/// word. On the first preimage it raises the signal and stops.
pub fn scan_shared(
    target_hash: &str,
    hash_type: HashType,
    wordlist: &Vec<String>,
    found: &AtomicBool,
    attempts: &AtomicU64,
) -> (report: WorkerReport)
    ensures
        report.describes(hash_type, normalized(target_hash@), wordlist@),
{
    let goal = normalize_target(target_hash);
    let mut k: usize = 0;
    while k < wordlist.len()
        invariant
            k <= wordlist@.len(),
            goal@ == normalized(target_hash@),
            no_hit_before(hash_type, goal@, wordlist@, k as int),
        decreases wordlist@.len() - k,
    {
        let stop_seen = stop_requested(found);
        match examine(stop_seen, wordlist[k].as_str(), &goal, hash_type, attempts) {
            Verdict::Halt => {
                return WorkerReport { result: None, hashed: k, halted: true };
            },
            Verdict::Hit => {
                request_stop(found);
                return WorkerReport { result: Some(wordlist[k].clone()), hashed: k + 1, halted: false };
            },
            Verdict::Miss => {},
        }
        k = k + 1;
    }
    WorkerReport { result: None, hashed: k, halted: false }
}

/// Scans `wordlist` for a preimage of `target_hash` as `scan_shared` does,
/// and returns the preimage alone: the first one in the slice, where the
/// worker reached it before it saw the stop signal.
///
/// Another worker may raise the signal before any word of this slice is
/// read, so a slice with a preimage may still give `None`: what the worker
/// does on each reading of the signal is `examine`'s to say.
pub fn crack_hash(
    target_hash: &str,
    hash_type: HashType,
    wordlist: Vec<String>,
    found: Arc<AtomicBool>,
    attempts: Arc<AtomicU64>,
) -> (r: Option<String>)
    ensures
        r matches Some(w) ==> exists|k: int|
            #[trigger] is_first_hit(hash_type, normalized(target_hash@), wordlist@, k) && w
                == wordlist@[k],
        has_no_hit(hash_type, normalized(target_hash@), wordlist@) ==> r is None,
{
    let report = scan_shared(target_hash, hash_type, &wordlist, &found, &attempts);
    proof {
        if report.result is Some {
            assert(is_first_hit(hash_type, normalized(target_hash@), wordlist@, report.hashed - 1));
        }
    }
    report.result
}

/// Scans `words` in order for a preimage of `goal`, with the stop signal
/// and the attempt counter held as plain values by one owner.
///
/// With the signal raised at entry nothing is hashed. Else every word up
/// to and including the first preimage is hashed and counted, and the
/// signal is raised if and only if there is a preimage.
pub fn scan_slice(
    words: &Vec<String>,
    goal: &str,
    hash_type: HashType,
    found: &mut bool,
    attempts: &mut u64,
) -> (r: Option<String>)
    requires
        !*old(found) ==> *old(attempts) + words@.len() <= u64::MAX,
    ensures
        *old(found) ==> r is None && *final(found) && *final(attempts) == *old(attempts),
        !*old(found) ==> match r {
            Some(w) => {
                &&& *final(found)
                &&& is_first_hit(hash_type, goal@, words@, *final(attempts) - *old(attempts) - 1)
                &&& w == words@[*final(attempts) - *old(attempts) - 1]
            },
            None => {
                &&& !*final(found)
                &&& has_no_hit(hash_type, goal@, words@)
                &&& *final(attempts) == *old(attempts) + words@.len()
            },
        },
{
    let ghost start = *attempts;
    let wanted: String = goal.to_owned();
    let mut k: usize = 0;
    while k < words.len()
        invariant
            k <= words@.len(),
            !*old(found) ==> start + words@.len() <= u64::MAX,
            *attempts == start + k,
            *found == *old(found),
            start == *old(attempts),
            wanted@ == goal@,
            k > 0 ==> !*found,
            no_hit_before(hash_type, goal@, words@, k as int),
        decreases words@.len() - k,
    {
        if *found {
            return None;
        }
        *attempts = *attempts + 1;
        let computed = hash_password(words[k].as_str(), hash_type);
        if computed == wanted {
            *found = true;
            return Some(words[k].clone());
        }
        k = k + 1;
    }
    None
}

} // verus!
