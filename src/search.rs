use drillx::equix::SolverMemory;
use std::sync::atomic::{AtomicU32, Ordering};
use std::time::Instant;
use vstd::array::spec_array_fill_for_copy_type;
use vstd::prelude::*;

verus! {

#[verifier::external_type_specification]
#[verifier::external_body]
pub struct ExSolverMemory(SolverMemory);

#[verifier::external_type_specification]
#[verifier::external_body]
pub struct ExInstant(Instant);

/// The digest and hash that drillx computes for a challenge and a nonce, or
/// none when the equix solver yields no solution for that seed.
pub uninterp spec fn drillx_hash(challenge: Seq<u8>, nonce: u64) -> Option<(Seq<u8>, Seq<u8>)>;

/// Number of leading zero bits of one byte.
pub open spec fn byte_leading_zeros(b: u8) -> nat {
    if b >= 128 {
        0
    } else if b >= 64 {
        1
    } else if b >= 32 {
        2
    } else if b >= 16 {
        3
    } else if b >= 8 {
        4
    } else if b >= 4 {
        5
    } else if b >= 2 {
        6
    } else if b >= 1 {
        7
    } else {
        8
    }
}

/// Leading zero bits of a byte string, first byte first: the difficulty score
/// of a hash.
pub open spec fn leading_zero_bits(s: Seq<u8>) -> nat
    decreases s.len(),
{
    if s.len() == 0 {
        0
    } else if s[0] == 0 {
        8 + leading_zero_bits(s.drop_first())
    } else {
        byte_leading_zeros(s[0])
    }
}

/// Relies on drillx::hash_with_memory: the hash of the challenge and the
/// little-endian bytes of the nonce; the solver memory is scratch space.
#[verifier::external_body]
fn hash_with_memory(memory: &mut SolverMemory, challenge: &[u8; 32], nonce: u64) -> (r: Option<
    ([u8; 16], [u8; 32]),
>)
    ensures
        r matches Some((d, h)) ==> drillx_hash(challenge@, nonce) == Some((d@, h@)),
        r is None ==> drillx_hash(challenge@, nonce) is None,
{
    match drillx::hash_with_memory(memory, challenge, &nonce.to_le_bytes()) {
        Ok(hx) => Some((hx.d, hx.h)),
        Err(_) => None,
    }
}

/// Leading zero bits of one byte.
fn byte_zeros(b: u8) -> (r: u32)
    ensures
        r as nat == byte_leading_zeros(b),
{
    if b >= 128 {
        0
    } else if b >= 64 {
        1
    } else if b >= 32 {
        2
    } else if b >= 16 {
        3
    } else if b >= 8 {
        4
    } else if b >= 4 {
        5
    } else if b >= 2 {
        6
    } else if b >= 1 {
        7
    } else {
        8
    }
}

/// The difficulty of a hash as drillx scores it: its leading zero bits, first
/// byte first.
pub fn hash_difficulty(h: &[u8; 32]) -> (r: u32)
    ensures
        r as nat == leading_zero_bits(h@),
{
    let mut count: u32 = 0;
    let mut i: usize = 0;
    assert(h@.skip(0) =~= h@);
    while i < 32
        invariant
            i <= 32,
            h@.len() == 32,
            count == 8 * i,
            leading_zero_bits(h@) == count + leading_zero_bits(h@.skip(i as int)),
        decreases 32 - i,
    {
        let b = h[i];
        proof {
            assert(h@.skip(i as int).drop_first() =~= h@.skip(i + 1));
            assert(h@.skip(i as int)[0] == b);
        }
        if b != 0 {
            return count + byte_zeros(b);
        }
        count = count + 8;
        i = i + 1;
    }
    assert(h@.skip(32) =~= Seq::<u8>::empty());
    count
}

/// Relies on Instant::elapsed: whole seconds since the timer was started.
#[verifier::external_body]
fn elapsed_seconds(timer: &Instant) -> (r: u64) {
    timer.elapsed().as_secs()
}

/// A candidate solution: a nonce with the digest and hash drillx gave for it,
/// and the hash's difficulty.
#[derive(Clone, Copy, Debug, PartialEq, Eq)]
pub struct Candidate {
    pub nonce: u64,
    pub difficulty: u32,
    pub digest: [u8; 16],
    pub hash: [u8; 32],
}

impl Candidate {
    /// The placeholder held before any hash improved on difficulty zero.
    pub open spec fn empty_spec(nonce: u64) -> Candidate {
        Candidate {
            nonce,
            difficulty: 0,
            digest: spec_array_fill_for_copy_type::<u8, 16>(0u8),
            hash: spec_array_fill_for_copy_type::<u8, 32>(0u8),
        }
    }

    pub fn empty(nonce: u64) -> (r: Candidate)
        ensures
            r == Candidate::empty_spec(nonce),
    {
        Candidate { nonce, difficulty: 0, digest: [0u8; 16], hash: [0u8; 32] }
    }

    /// The digest and hash are what drillx gives for the nonce, and the
    /// difficulty is that of the hash.
    pub open spec fn is_hash_of(self, challenge: Seq<u8>) -> bool {
        &&& drillx_hash(challenge, self.nonce) == Some((self.digest@, self.hash@))
        &&& self.difficulty as nat == leading_zero_bits(self.hash@)
    }
}

/// `i` indexes an entry of maximum difficulty, and no earlier entry reaches it.
pub open spec fn is_first_best(s: Seq<Candidate>, i: int) -> bool {
    &&& 0 <= i < s.len()
    &&& forall|j: int| 0 <= j < s.len() ==> #[trigger] s[j].difficulty <= s[i].difficulty
    &&& forall|j: int| 0 <= j < i ==> #[trigger] s[j].difficulty < s[i].difficulty
}

/// Reduction of the workers' results: the entry of maximum difficulty, the
/// first one among equals; the empty candidate when there are no results.
pub fn best_candidate(results: &Vec<Candidate>) -> (r: Candidate)
    ensures
        results@.len() == 0 ==> r == Candidate::empty_spec(0),
        results@.len() > 0 ==> exists|i: int| is_first_best(results@, i) && r == results@[i],
{
    if results.len() == 0 {
        return Candidate::empty(0);
    }
    let mut best: usize = 0;
    let mut k: usize = 1;
    while k < results.len()
        invariant
            1 <= k <= results@.len(),
            best < k,
            forall|j: int| 0 <= j < k ==> #[trigger] results@[j].difficulty <= results@[best as int].difficulty,
            forall|j: int| 0 <= j < best ==> #[trigger] results@[j].difficulty < results@[best as int].difficulty,
        decreases results@.len() - k,
    {
        if results[k].difficulty > results[best].difficulty {
            best = k;
        }
        k = k + 1;
    }
    assert(is_first_best(results@, best as int));
    results[best]
}

/// Only one index is the first of maximum difficulty: the reduction's result
/// is determined by the results alone.
pub proof fn lemma_first_best_unique(s: Seq<Candidate>, i: int, j: int)
    requires
        is_first_best(s, i),
        is_first_best(s, j),
    ensures
        i == j,
{
    if i < j {
        assert(s[i].difficulty < s[j].difficulty);
        assert(s[i].difficulty >= s[j].difficulty);
    } else if j < i {
        assert(s[j].difficulty < s[i].difficulty);
        assert(s[j].difficulty >= s[i].difficulty);
    }
}

/// Termination rule of a worker at a checkpoint: past the cutoff, stop once the
/// best difficulty meets the minimum, and in any case once the risk extension
/// has also elapsed.
pub open spec fn stop_spec(elapsed: u64, cutoff: u64, best: u32, min_difficulty: u32, risk: u64) -> bool {
    elapsed >= cutoff && (best >= min_difficulty || elapsed >= cutoff + risk)
}

pub fn should_stop(elapsed: u64, cutoff: u64, best: u32, min_difficulty: u32, risk: u64) -> (r: bool)
    ensures
        r == stop_spec(elapsed, cutoff, best, min_difficulty, risk),
{
    if elapsed < cutoff {
        false
    } else if best >= min_difficulty {
        true
    } else {
        elapsed - cutoff >= risk
    }
}

/// The risk extension never shortens the search: no worker stops before the
/// cutoff, none stops short of the minimum difficulty before the extension has
/// elapsed, and every worker stops once cutoff and extension have both elapsed.
pub proof fn lemma_risk_window(elapsed: u64, cutoff: u64, best: u32, min_difficulty: u32, risk: u64)
    ensures
        elapsed < cutoff ==> !stop_spec(elapsed, cutoff, best, min_difficulty, risk),
        best < min_difficulty && elapsed < cutoff + risk ==> !stop_spec(
            elapsed,
            cutoff,
            best,
            min_difficulty,
            risk,
        ),
        elapsed >= cutoff + risk ==> stop_spec(elapsed, cutoff, best, min_difficulty, risk),
{
}

/// Width of the nonce range of each of `workers` workers.
pub open spec fn range_width(workers: u64) -> int
    recommends
        workers > 0,
{
    u64::MAX as int / workers as int
}

/// First nonce of worker `slot`: ranges are contiguous and do not overlap.
pub fn range_start(slot: u64, workers: u64) -> (r: u64)
    requires
        slot < workers,
    ensures
        r as int == range_width(workers) * slot,
        r as int + range_width(workers) <= u64::MAX,
{
    let width: u64 = u64::MAX / workers;
    proof {
        let w = width as int;
        assert(w * workers <= u64::MAX) by (nonlinear_arith)
            requires
                w == u64::MAX as int / workers as int,
                workers > 0,
        ;
        assert(w * slot + w <= w * workers) by (nonlinear_arith)
            requires
                slot < workers,
                w >= 0,
        ;
        assert(w * slot >= 0) by (nonlinear_arith)
            requires
                w >= 0,
                slot >= 0,
        ;
    }
    width * slot
}

/// The workers' ranges follow one another without gap or overlap: each ends
/// where the next begins, and all lie within the nonce space.
pub proof fn lemma_ranges_partition(workers: u64, a: u64, b: u64)
    requires
        a < b < workers,
    ensures
        range_width(workers) * a + range_width(workers) <= range_width(workers) * b,
        range_width(workers) * (a + 1) == range_width(workers) * a + range_width(workers),
        range_width(workers) * b + range_width(workers) <= u64::MAX,
{
    let w = range_width(workers);
    assert(w >= 0);
    assert(w * (a + 1) == w * a + w) by (nonlinear_arith);
    assert(w * (a + 1) <= w * b) by (nonlinear_arith)
        requires
            a + 1 <= b,
            w >= 0,
    ;
    assert(w * workers <= u64::MAX) by (nonlinear_arith)
        requires
            w == u64::MAX as int / workers as int,
            workers > 0,
    ;
    assert(w * (b + 1) <= w * workers) by (nonlinear_arith)
        requires
            b + 1 <= workers,
            w >= 0,
    ;
    assert(w * (b + 1) == w * b + w) by (nonlinear_arith);
}

/// Tuning of one search: cutoff and risk extension in seconds, the minimum
/// difficulty sought, and how many nonces pass between two clock readings.
#[derive(Clone, Copy, Debug)]
pub struct SearchParams {
    pub cutoff: u64,
    pub min_difficulty: u32,
    pub risk: u64,
    pub checkpoint_interval: u64,
}

/// What a worker read at the checkpoint where it stopped: seconds elapsed and
/// the shared best difficulty.
#[derive(Clone, Copy, Debug, PartialEq, Eq, Structural)]
pub struct Checkpoint {
    pub elapsed: u64,
    pub shared_best: u32,
}

/// What a worker hands back: its best candidate, the first nonce it did not
/// try, and the readings on which it stopped (none when its range ran out).
#[derive(Clone, Copy, Debug)]
pub struct WorkerReport {
    pub best: Candidate,
    pub next_nonce: u64,
    pub stopped: Option<Checkpoint>,
}

/// `best` is the first candidate of greatest difficulty among the nonces of
/// `[start, stop)` (a hash that fails counts for nothing), or the empty
/// candidate at `start` when none had a positive difficulty.
pub open spec fn best_in_range(challenge: Seq<u8>, start: u64, stop: u64, best: Candidate) -> bool {
    &&& best.difficulty == 0 ==> best == Candidate::empty_spec(start)
    &&& best.difficulty > 0 ==> start <= best.nonce < stop && best.is_hash_of(challenge)
    &&& forall|n: u64|
        start <= n < stop ==> (#[trigger] drillx_hash(challenge, n) matches Some((d, h))
            ==> leading_zero_bits(h) <= best.difficulty)
    &&& forall|n: u64|
        start <= n < best.nonce ==> (#[trigger] drillx_hash(challenge, n) matches Some((d, h))
            ==> leading_zero_bits(h) < best.difficulty)
}

/// One worker: hashes the nonces from `start` on, keeps the first best, raises
/// the shared best difficulty when it improves, and at every checkpoint reads
/// the clock and the shared best to decide whether to stop. The range ends at
/// `end`.
pub fn search_range(
    memory: &mut SolverMemory,
    challenge: &[u8; 32],
    start: u64,
    end: u64,
    params: &SearchParams,
    shared_best: &AtomicU32,
    timer: &Instant,
) -> (r: WorkerReport)
    requires
        start <= end,
        params.checkpoint_interval > 0,
    ensures
        start <= r.next_nonce <= end,
        best_in_range(challenge@, start, r.next_nonce, r.best),
        r.stopped is None ==> r.next_nonce == end,
        r.stopped matches Some(c) ==> {
            &&& start < r.next_nonce
            &&& (r.next_nonce - 1) as int % params.checkpoint_interval as int == 0
            &&& stop_spec(c.elapsed, params.cutoff, c.shared_best, params.min_difficulty, params.risk)
        },
{
    let mut best = Candidate::empty(start);
    let mut nonce: u64 = start;
    let mut stopped: Option<Checkpoint> = None;
    while nonce < end
        invariant_except_break
            start <= nonce <= end,
            params.checkpoint_interval > 0,
            best_in_range(challenge@, start, nonce, best),
            stopped is None,
        ensures
            start <= nonce <= end,
            best_in_range(challenge@, start, nonce, best),
            stopped is None ==> nonce == end,
            stopped matches Some(c) ==> {
                &&& start < nonce
                &&& (nonce - 1) as int % params.checkpoint_interval as int == 0
                &&& stop_spec(
                    c.elapsed,
                    params.cutoff,
                    c.shared_best,
                    params.min_difficulty,
                    params.risk,
                )
            },
        decreases end - nonce,
    {
        if let Some((d, h)) = hash_with_memory(memory, challenge, nonce) {
            let difficulty = hash_difficulty(&h);
            if difficulty > best.difficulty {
                best = Candidate { nonce, difficulty, digest: d, hash: h };
                shared_best.fetch_max(difficulty, Ordering::Relaxed);
            }
        }
        let next: u64 = nonce + 1;
        if nonce % params.checkpoint_interval == 0 {
            let global = shared_best.load(Ordering::Relaxed);
            let elapsed = elapsed_seconds(timer);
            if should_stop(elapsed, params.cutoff, global, params.min_difficulty, params.risk) {
                stopped = Some(Checkpoint { elapsed, shared_best: global });
                nonce = next;
                break;
            }
        }
        nonce = next;
    }
    WorkerReport { best, next_nonce: nonce, stopped }
}

/// Worker `slot` of `workers`: searches its own range of the nonce space, or
/// contributes the empty candidate when the slot is not in use.
pub fn search_slot(
    memory: &mut SolverMemory,
    challenge: &[u8; 32],
    slot: u64,
    workers: u64,
    params: &SearchParams,
    shared_best: &AtomicU32,
    timer: &Instant,
) -> (r: WorkerReport)
    requires
        params.checkpoint_interval > 0,
    ensures
        slot >= workers ==> r.best == Candidate::empty_spec(0) && r.next_nonce == 0 && r.stopped
            is None,
        slot < workers ==> {
            let start = range_width(workers) * slot;
            &&& start <= r.next_nonce <= start + range_width(workers)
            &&& best_in_range(challenge@, start as u64, r.next_nonce, r.best)
            &&& r.stopped is None ==> r.next_nonce == start + range_width(workers)
            &&& r.stopped matches Some(c) ==> {
                &&& start < r.next_nonce
                &&& (r.next_nonce - 1) % params.checkpoint_interval as int == 0
                &&& stop_spec(
                    c.elapsed,
                    params.cutoff,
                    c.shared_best,
                    params.min_difficulty,
                    params.risk,
                )
            }
        },
{
    if slot >= workers {
        return WorkerReport { best: Candidate::empty(0), next_nonce: 0, stopped: None };
    }
    let start = range_start(slot, workers);
    let end = start + u64::MAX / workers;
    search_range(memory, challenge, start, end, params, shared_best, timer)
}

} // verus!
