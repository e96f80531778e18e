//! Stop-and-wait measurement: one datagram in flight, each attempt either
//! echoed exactly, answered with other bytes, or timed out.
//!
//! [`StopAndWait`] decides whether another attempt is made and counts the
//! outcomes; its driver sends each packet and waits for the reply.
use vstd::prelude::*;

verus! {

/// What became of one attempt.
#[derive(Clone, Copy, Debug, PartialEq, Eq, Structural)]
pub enum Attempt {
    /// The reply held exactly the bytes sent.
    Echoed,
    /// A reply arrived with other bytes.
    Corrupt,
    /// No reply arrived in time.
    TimedOut,
}

/// Judge the first `length` bytes of `reply` against the `packet` sent.
pub fn classify_reply(reply: &[u8], length: usize, packet: &[u8]) -> (attempt: Attempt)
    requires
        length <= reply@.len(),
    ensures
        attempt == (if reply@.take(length as int) == packet@ {
            Attempt::Echoed
        } else {
            Attempt::Corrupt
        }),
{
    if length != packet.len() {
        return Attempt::Corrupt;
    }
    let mut i: usize = 0;
    while i < length
        invariant
            length <= reply@.len(),
            length == packet@.len(),
            i <= length,
            forall|j: int| 0 <= j < i ==> reply@[j] == packet@[j],
        decreases length - i,
    {
        if reply[i] != packet[i] {
            assert(reply@.take(length as int)[i as int] != packet@[i as int]);
            return Attempt::Corrupt;
        }
        i = i + 1;
    }
    assert(reply@.take(length as int) =~= packet@);
    Attempt::Echoed
}

/// How many attempts a run may make for `target` echoed replies: twice the
/// target, at least ten, and at most `u64::MAX`. A broken interface then
/// ends the run instead of retrying forever.
pub open spec fn attempt_limit(target: u64) -> u64 {
    if 2 * target > u64::MAX {
        u64::MAX
    } else if 2 * target < 10 {
        10
    } else {
        (2 * target) as u64
    }
}

/// The outcome of a functional (stop-and-wait) check of one payload size.
#[derive(Clone, Copy, Debug, PartialEq, Eq, Structural)]
pub struct FunctionalResult {
    pub payload_bytes: usize,
    pub attempts: u64,
    pub valid_replies: u64,
    pub timeouts: u64,
    pub corrupt: u64,
}

/// The account of one stop-and-wait run.
#[derive(Clone, Copy, Debug)]
pub struct StopAndWait {
    /// Echoed replies wanted.
    pub target: u64,
    /// Attempts allowed.
    pub maximum_attempts: u64,
    pub attempts: u64,
    pub successes: u64,
    pub timeouts: u64,
    pub corrupt: u64,
    /// The sequence number of the next packet.
    pub sequence: u64,
}

impl StopAndWait {
    /// Every attempt has exactly one outcome, and neither the attempts nor
    /// the echoed replies exceed their limits.
    pub open spec fn wf(&self) -> bool {
        &&& self.maximum_attempts == attempt_limit(self.target)
        &&& self.attempts == self.successes + self.timeouts + self.corrupt
        &&& self.attempts <= self.maximum_attempts
        &&& self.successes <= self.target
    }

    /// Whether the run goes on.
    pub open spec fn spec_wants_attempt(&self) -> bool {
        self.successes < self.target && self.attempts < self.maximum_attempts
    }

    /// A run that wants `target` echoed replies and numbers its first packet
    /// `sequence`.
    pub fn new(target: u64, sequence: u64) -> (run: Self)
        ensures
            run.wf(),
            run.target == target,
            run.sequence == sequence,
            run.attempts == 0 && run.successes == 0 && run.timeouts == 0 && run.corrupt == 0,
    {
        let maximum_attempts = if target > u64::MAX / 2 {
            u64::MAX
        } else if 2 * target < 10 {
            10
        } else {
            2 * target
        };
        StopAndWait {
            target,
            maximum_attempts,
            attempts: 0,
            successes: 0,
            timeouts: 0,
            corrupt: 0,
            sequence,
        }
    }

    /// Whether another attempt is made: not all replies are in and attempts
    /// are left.
    pub fn wants_attempt(&self) -> (more: bool)
        ensures
            more == self.spec_wants_attempt(),
    {
        self.successes < self.target && self.attempts < self.maximum_attempts
    }

    /// Count one attempt made with the packet numbered `self.sequence`.
    pub fn record(&mut self, attempt: Attempt)
        requires
            old(self).wf(),
            old(self).spec_wants_attempt(),
        ensures
            final(self).wf(),
            final(self).target == old(self).target,
            final(self).attempts == old(self).attempts + 1,
            final(self).successes == old(self).successes + (if attempt == Attempt::Echoed {
                1int
            } else {
                0
            }),
            final(self).corrupt == old(self).corrupt + (if attempt == Attempt::Corrupt {
                1int
            } else {
                0
            }),
            final(self).timeouts == old(self).timeouts + (if attempt == Attempt::TimedOut {
                1int
            } else {
                0
            }),
            final(self).sequence == old(self).sequence.wrapping_add(1),
    {
        self.attempts = self.attempts + 1;
        match attempt {
            Attempt::Echoed => self.successes = self.successes + 1,
            Attempt::Corrupt => self.corrupt = self.corrupt + 1,
            Attempt::TimedOut => self.timeouts = self.timeouts + 1,
        }
        self.sequence = self.sequence.wrapping_add(1);
    }

    /// The result of a functional check of `payload_bytes`-byte packets.
    pub fn functional_result(&self, payload_bytes: usize) -> (result: FunctionalResult)
        ensures
            result == (FunctionalResult {
                payload_bytes,
                attempts: self.attempts,
                valid_replies: self.successes,
                timeouts: self.timeouts,
                corrupt: self.corrupt,
            }),
    {
        FunctionalResult {
            payload_bytes,
            attempts: self.attempts,
            valid_replies: self.successes,
            timeouts: self.timeouts,
            corrupt: self.corrupt,
        }
    }
}

/// A stop-and-wait run ends with all echoed replies collected or with its
/// attempts used up; either way it makes at most `attempt_limit(target)`
/// attempts, each counted once as echoed, corrupt or timed out.
pub proof fn lemma_stop_and_wait_ends(run: StopAndWait)
    requires
        run.wf(),
        !run.spec_wants_attempt(),
    ensures
        run.successes == run.target || run.attempts == attempt_limit(run.target),
        run.attempts <= attempt_limit(run.target),
        run.attempts == run.successes + run.timeouts + run.corrupt,
{
}

/// A functional check passed: every attempt was echoed exactly.
pub open spec fn spec_functional_ok(r: FunctionalResult) -> bool {
    r.valid_replies == r.attempts && r.corrupt == 0
}

/// The functional gate before any performance phase: every payload size was
/// echoed on every attempt, with no corrupt reply.
pub fn functional_gate_passed(results: &[FunctionalResult]) -> (passed: bool)
    ensures
        passed == forall|i: int| 0 <= i < results@.len() ==> spec_functional_ok(#[trigger] results@[i]),
{
    let mut i: usize = 0;
    while i < results.len()
        invariant
            i <= results@.len(),
            forall|j: int| 0 <= j < i ==> spec_functional_ok(#[trigger] results@[j]),
        decreases results@.len() - i,
    {
        if results[i].valid_replies != results[i].attempts || results[i].corrupt != 0 {
            assert(!spec_functional_ok(results@[i as int]));
            return false;
        }
        i = i + 1;
    }
    true
}

/// The latency gate: every payload size collected at least `wanted` echoed
/// samples (`collected` holds the count of each size).
pub fn latency_targets_met(collected: &[u64], wanted: u64) -> (met: bool)
    ensures
        met == forall|i: int| 0 <= i < collected@.len() ==> #[trigger] collected@[i] >= wanted,
{
    let mut i: usize = 0;
    while i < collected.len()
        invariant
            i <= collected@.len(),
            forall|j: int| 0 <= j < i ==> #[trigger] collected@[j] >= wanted,
        decreases collected@.len() - i,
    {
        if collected[i] < wanted {
            return false;
        }
        i = i + 1;
    }
    true
}

} // verus!
