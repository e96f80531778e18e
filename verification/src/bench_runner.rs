//! Bookkeeping of the UDP benchmark's workloads: which packets to send, and
//! how each reply is classified.
//!
//! The driver owns the socket, the clock and the threads; every decision
//! about packets and replies is made here.
use vstd::prelude::*;

use crate::counters::PacketCounters;
use crate::bench_protocol::{
    decode, encode, spec_decode, spec_packet, spec_pattern_byte, spec_payload_valid,
    validate_payload, Header,
    HEADER_LEN,
};

verus! {

/// Deterministic byte number `index` of a datagram too short for the header.
pub open spec fn spec_small_pattern_byte(run_id: u64, sequence: u64, index: u64) -> u8 {
    let v0 = run_id ^ sequence.wrapping_mul(0x9e37_79b9_7f4a_7c15u64) ^ index.wrapping_mul(
        0xbf58_476d_1ce4_e5b9u64,
    );
    let v1 = v0 ^ (v0 >> 29u64);
    let v2 = v1.wrapping_mul(0x94d0_49bb_1331_11ebu64);
    (v2 ^ (v2 >> 31u64)) as u8
}

/// The datagram sent by stop-and-wait trials: an instrumented packet with a
/// zero timestamp when it can hold the header, else a deterministic pattern.
pub open spec fn spec_raw_packet(size: nat, run_id: u64, sequence: u64) -> Seq<u8> {
    if size >= HEADER_LEN {
        spec_packet(Header { run_id, sequence, sent_ns: 0 }, size)
    } else {
        Seq::new(size, |i: int| spec_small_pattern_byte(run_id, sequence, i as u64))
    }
}

fn small_pattern_byte(run_id: u64, sequence: u64, index: usize) -> (byte: u8)
    ensures
        byte == spec_small_pattern_byte(run_id, sequence, index as u64),
{
    let mut value = run_id ^ sequence.wrapping_mul(0x9e37_79b9_7f4a_7c15u64) ^ (
    index as u64).wrapping_mul(0xbf58_476d_1ce4_e5b9u64);
    value = value ^ (value >> 29u64);
    value = value.wrapping_mul(0x94d0_49bb_1331_11ebu64);
    (value ^ (value >> 31u64)) as u8
}

/// The datagram sent by stop-and-wait trials for `sequence`.
pub fn raw_packet(size: usize, run_id: u64, sequence: u64) -> (packet: Vec<u8>)
    ensures
        packet@ == spec_raw_packet(size as nat, run_id, sequence),
{
    if size >= HEADER_LEN {
        return encode(size, Header { run_id, sequence, sent_ns: 0 }).unwrap();
    }
    let mut packet: Vec<u8> = Vec::new();
    let mut index: usize = 0;
    while index < size
        invariant
            index <= size,
            size < HEADER_LEN,
            packet@ =~= Seq::new(
                index as nat,
                |i: int| spec_small_pattern_byte(run_id, sequence, i as u64),
            ),
        decreases size - index,
    {
        packet.push(small_pattern_byte(run_id, sequence, index));
        index = index + 1;
    }
    packet
}

/// One step of the xorshift generator that picks mixed payload sizes.
pub open spec fn xorshift(state: u64) -> u64 {
    let a = state ^ (state << 13u64);
    let b = a ^ (a >> 7u64);
    b ^ (b << 17u64)
}

/// The generator state after `n` steps from `state`.
pub open spec fn xorshift_n(state: u64, n: nat) -> u64
    decreases n,
{
    if n == 0 {
        state
    } else {
        xorshift(xorshift_n(state, (n - 1) as nat))
    }
}

/// The number of bits of payload in the packets of `sizes`.
pub open spec fn plan_bits(sizes: Seq<u16>) -> int
    decreases sizes.len(),
{
    if sizes.len() == 0 {
        0
    } else {
        plan_bits(sizes.drop_last()) + sizes.last() * 8
    }
}

/// The packet sizes of one load trial, in sending order.
pub struct PayloadPlan {
    pub sizes: Vec<u16>,
    /// The single payload size of a fixed-size plan.
    pub fixed_size: Option<usize>,
}

/// The packet count of a fixed-size plan: enough packets to carry
/// `target_bits`, and at least one.
pub open spec fn fixed_count(size: nat, target_bits: nat) -> nat {
    let count = (target_bits + size * 8 - 1) / (size * 8) as int;
    if count < 1 {
        1
    } else {
        count as nat
    }
}

impl PayloadPlan {
    /// Packets of `size` bytes carrying at least `target_bits` bits of
    /// payload (rounded up to whole packets; at least one packet).
    pub fn fixed(size: usize, target_bits: u64) -> (plan: Self)
        requires
            HEADER_LEN <= size <= u16::MAX,
        ensures
            plan.fixed_size == Some(size),
            plan.sizes@ == Seq::new(fixed_count(size as nat, target_bits as nat), |i: int| size as u16),
    {
        let bits_per_packet = (size as u64) * 8;
        let whole = target_bits / bits_per_packet;
        assert(whole * 256 <= target_bits) by (nonlinear_arith)
            requires
                whole == target_bits / bits_per_packet,
                bits_per_packet >= 256,
        ;
        assert(whole < u64::MAX);
        let count = whole + if target_bits % bits_per_packet == 0 {
            0
        } else {
            1
        };
        let count = if count < 1 { 1 } else { count };
        proof {
            let t = target_bits as int;
            let b = bits_per_packet as int;
            assert((t + b - 1) / b == t / b + if t % b == 0 { 0int } else { 1int }) by (nonlinear_arith)
                requires
                    b > 0,
                    t >= 0,
            {
                let q = t / b;
                let r = t % b;
                assert(t == q * b + r);
                if r == 0 {
                    assert(t + b - 1 == q * b + (b - 1));
                } else {
                    assert(t + b - 1 == (q + 1) * b + (r - 1));
                }
            }
        }
        let mut sizes: Vec<u16> = Vec::new();
        let mut i: u64 = 0;
        while i < count
            invariant
                i <= count,
                HEADER_LEN <= size <= u16::MAX,
                sizes@ =~= Seq::new(i as nat, |j: int| size as u16),
            decreases count - i,
        {
            sizes.push(size as u16);
            i = i + 1;
        }
        PayloadPlan { sizes, fixed_size: Some(size) }
    }

    /// Packets of the given `sizes`, each picked by an xorshift generator
    /// seeded with `seed` (zero counts as one), until the plan carries at
    /// least `target_bits` bits of payload. The last packet is the first one
    /// that reaches the budget.
    pub fn mixed(sizes: &[usize], target_bits: u64, seed: u64) -> (plan: Self)
        requires
            sizes@.len() > 0,
            forall|i: int| 0 <= i < sizes@.len() ==> HEADER_LEN <= #[trigger] sizes@[i] <= u16::MAX,
            target_bits + u16::MAX * 8 <= u64::MAX,
        ensures
            plan.fixed_size is None,
            plan_bits(plan.sizes@) >= target_bits,
            plan.sizes@.len() > 0 ==> plan_bits(plan.sizes@.drop_last()) < target_bits,
            forall|i: int|
                0 <= i < plan.sizes@.len() ==> #[trigger] plan.sizes@[i] == sizes@[(xorshift_n(
                    if seed == 0 { 1u64 } else { seed },
                    (i + 1) as nat,
                ) as usize) as int % sizes@.len() as int] as u16,
    {
        let ghost start: u64 = if seed == 0 { 1u64 } else { seed };
        let mut generated: Vec<u16> = Vec::new();
        let mut bits: u64 = 0;
        let mut state: u64 = if seed == 0 { 1 } else { seed };
        while bits < target_bits
            invariant
                sizes@.len() > 0,
                forall|i: int| 0 <= i < sizes@.len() ==> HEADER_LEN <= #[trigger] sizes@[i] <= u16::MAX,
                target_bits + u16::MAX * 8 <= u64::MAX,
                bits == plan_bits(generated@),
                bits < target_bits + u16::MAX * 8,
                state == xorshift_n(start, generated@.len() as nat),
                generated@.len() > 0 ==> plan_bits(generated@.drop_last()) < target_bits,
                forall|i: int|
                    0 <= i < generated@.len() ==> #[trigger] generated@[i] == sizes@[(xorshift_n(
                        start,
                        (i + 1) as nat,
                    ) as usize) as int % sizes@.len() as int] as u16,
            decreases target_bits + u16::MAX * 8 - bits,
        {
            let ghost before = generated@;
            state = state ^ (state << 13u64);
            state = state ^ (state >> 7u64);
            state = state ^ (state << 17u64);
            let size = sizes[(state as usize) % sizes.len()];
            generated.push(size as u16);
            assert(generated@.drop_last() =~= before);
            bits = bits + (size as u64) * 8;
        }
        PayloadPlan { sizes: generated, fixed_size: None }
    }
}

/// The rates of a stream sweep that held: the highest rate of the leading run
/// of reliable points, and the first unreliable point.
pub fn reliable_range(reliable: &[bool]) -> (range: (Option<usize>, Option<usize>))
    ensures
        match range.1 {
            Some(first) => first < reliable@.len() && !reliable@[first as int] && forall|i: int|
                0 <= i < first ==> reliable@[i],
            None => forall|i: int| 0 <= i < reliable@.len() ==> reliable@[i],
        },
        range.0 == match range.1 {
            Some(first) => if first == 0 { None } else { Some((first - 1) as usize) },
            None => if reliable@.len() == 0 { None } else { Some((reliable@.len() - 1) as usize) },
        },
{
    let n = reliable.len();
    let mut i: usize = 0;
    while i < n && reliable[i]
        invariant
            n == reliable@.len(),
            i <= n,
            forall|j: int| 0 <= j < i ==> reliable@[j],
        decreases n - i,
    {
        i = i + 1;
    }
    let highest = if i == 0 { None } else { Some(i - 1) };
    if i < n {
        (highest, Some(i))
    } else {
        (highest, None)
    }
}


/// The lengths of the intervals of a soak of `duration` seconds cut into
/// intervals of `interval` seconds: whole intervals, then what remains.
pub open spec fn spec_soak_intervals(duration: nat, interval: nat) -> Seq<u64>
    decreases duration,
{
    if duration == 0 || interval == 0 {
        Seq::empty()
    } else if duration <= interval {
        seq![duration as u64]
    } else {
        seq![interval as u64] + spec_soak_intervals((duration - interval) as nat, interval)
    }
}

/// Cut a soak of `duration` seconds into intervals of at most `interval`
/// seconds; each interval is measured and reported on its own.
pub fn soak_intervals(duration: u64, interval: u64) -> (lengths: Vec<u64>)
    requires
        interval > 0,
    ensures
        lengths@ == spec_soak_intervals(duration as nat, interval as nat),
{
    let mut lengths: Vec<u64> = Vec::new();
    let mut remaining = duration;
    while remaining > 0
        invariant
            interval > 0,
            remaining <= duration,
            lengths@ + spec_soak_intervals(remaining as nat, interval as nat)
                == spec_soak_intervals(duration as nat, interval as nat),
        decreases remaining,
    {
        let this_interval = if remaining < interval { remaining } else { interval };
        let ghost before = lengths@;
        lengths.push(this_interval);
        assert(spec_soak_intervals(remaining as nat, interval as nat) == seq![this_interval]
            + spec_soak_intervals((remaining - this_interval) as nat, interval as nat));
        assert(before + seq![this_interval] =~= lengths@);
        assert(before + (seq![this_interval] + spec_soak_intervals(
            (remaining - this_interval) as nat,
            interval as nat,
        )) =~= lengths@ + spec_soak_intervals((remaining - this_interval) as nat, interval as nat));
        remaining = remaining - this_interval;
    }
    assert(lengths@ + Seq::<u64>::empty() =~= lengths@);
    lengths
}

/// The intervals of a soak add up to its whole duration, and none is longer
/// than the interval asked for.
pub proof fn lemma_soak_intervals_cover(duration: nat, interval: nat)
    requires
        interval > 0,
        duration <= u64::MAX,
    ensures
        ({
            let s = spec_soak_intervals(duration, interval);
            &&& forall|i: int| 0 <= i < s.len() ==> 0 < #[trigger] s[i] <= interval
            &&& intervals_sum(s) == duration
        }),
    decreases duration,
{
    if duration > interval {
        lemma_soak_intervals_cover((duration - interval) as nat, interval);
        let rest = spec_soak_intervals((duration - interval) as nat, interval);
        let s = seq![interval as u64] + rest;
        assert(s.drop_first() =~= rest);
        lemma_intervals_sum_first(s);
    } else if duration > 0 {
        let s = seq![duration as u64];
        assert(s.drop_first() =~= Seq::<u64>::empty());
        lemma_intervals_sum_first(s);
    }
}

/// The total length of the intervals `s`.
pub open spec fn intervals_sum(s: Seq<u64>) -> int
    decreases s.len(),
{
    if s.len() == 0 {
        0
    } else {
        intervals_sum(s.drop_last()) + s.last()
    }
}

proof fn lemma_intervals_sum_first(s: Seq<u64>)
    requires
        s.len() > 0,
    ensures
        intervals_sum(s) == s[0] + intervals_sum(s.drop_first()),
    decreases s.len(),
{
    if s.len() > 1 {
        lemma_intervals_sum_first(s.drop_last());
        assert(s.drop_last().drop_first() =~= s.drop_first().drop_last());
    } else {
        assert(s.drop_first() =~= Seq::<u64>::empty());
        assert(s.drop_last() =~= Seq::<u64>::empty());
    }
}

/// Every payload size of a capacity search reached saturation.
pub fn saturation_everywhere(observed: &[bool]) -> (all: bool)
    ensures
        all == forall|i: int| 0 <= i < observed@.len() ==> #[trigger] observed@[i],
{
    let mut i: usize = 0;
    while i < observed.len()
        invariant
            i <= observed@.len(),
            forall|j: int| 0 <= j < i ==> #[trigger] observed@[j],
        decreases observed@.len() - i,
    {
        if !observed[i] {
            return false;
        }
        i = i + 1;
    }
    true
}

/// A planned packet that has not been sent.
pub const UNSENT: u8 = 0;
/// A sent packet whose reply is awaited.
pub const OUTSTANDING: u8 = 1;
/// A packet whose valid reply arrived.
pub const RECEIVED: u8 = 2;
/// A sent packet whose reply did not arrive within the timeout.
pub const EXPIRED: u8 = 3;
/// A packet that could not be sent.
pub const SEND_FAILED: u8 = 4;

/// How a valid reply relates to its packet's history.
#[derive(Clone, Copy, Debug, PartialEq, Eq, Structural)]
pub enum Receipt {
    /// First reply to an outstanding packet.
    Valid,
    /// First reply to a packet that had already timed out.
    Late,
    /// Another reply to a packet already answered.
    Duplicate,
    /// A reply to a packet that was never sent.
    Foreign,
}

/// The classification of a reply to a packet in state `previous`, after
/// which the packet is [`RECEIVED`].
pub open spec fn spec_receipt(previous: u8) -> Receipt {
    if previous == OUTSTANDING {
        Receipt::Valid
    } else if previous == EXPIRED {
        Receipt::Late
    } else if previous == RECEIVED {
        Receipt::Duplicate
    } else {
        Receipt::Foreign
    }
}

/// Classify a reply to a packet that was in state `previous`.
pub fn classify_receipt(previous: u8) -> (receipt: Receipt)
    ensures
        receipt == spec_receipt(previous),
{
    if previous == OUTSTANDING {
        Receipt::Valid
    } else if previous == EXPIRED {
        Receipt::Late
    } else if previous == RECEIVED {
        Receipt::Duplicate
    } else {
        Receipt::Foreign
    }
}

/// The number of entries of `states` equal to `state`.
pub open spec fn count_state(states: Seq<u8>, state: u8) -> nat
    decreases states.len(),
{
    if states.len() == 0 {
        0
    } else {
        count_state(states.drop_last(), state) + if states.last() == state {
            1nat
        } else {
            0nat
        }
    }
}

/// Changing one entry changes each count by at most the changed entry.
pub proof fn lemma_count_state_update(states: Seq<u8>, i: int, value: u8, state: u8)
    requires
        0 <= i < states.len(),
    ensures
        count_state(states.update(i, value), state) + (if states[i] == state {
            1int
        } else {
            0int
        }) == count_state(states, state) + (if value == state {
            1int
        } else {
            0int
        }),
    decreases states.len(),
{
    let updated = states.update(i, value);
    if i == states.len() - 1 {
        assert(updated.drop_last() =~= states.drop_last());
    } else {
        lemma_count_state_update(states.drop_last(), i, value, state);
        assert(updated.drop_last() =~= states.drop_last().update(i, value));
    }
}

/// Counts never exceed the length.
pub proof fn lemma_count_state_bound(states: Seq<u8>, state: u8)
    ensures
        count_state(states, state) <= states.len(),
    decreases states.len(),
{
    if states.len() > 0 {
        lemma_count_state_bound(states.drop_last(), state);
    }
}

/// A packet sent at `sent_ns` has timed out at `now_ns`.
pub open spec fn timed_out(now_ns: u64, sent_ns: u64, timeout_ns: u64) -> bool {
    (if now_ns >= sent_ns {
        now_ns - sent_ns
    } else {
        0
    }) >= timeout_ns
}

/// The per-packet state of one load trial, shared by its sender and receiver.
///
/// The count of outstanding packets, which bounds the sender's window, is
/// always exactly the number of packets in state [`OUTSTANDING`].
pub struct LoadLedger {
    states: Vec<u8>,
    sent_times: Vec<u64>,
    outstanding: usize,
    expiry_cursor: usize,
}

impl LoadLedger {
    /// The state of every planned packet.
    pub closed spec fn states(&self) -> Seq<u8> {
        self.states@
    }

    /// The send time of every planned packet (zero until sent).
    pub closed spec fn sent_times(&self) -> Seq<u64> {
        self.sent_times@
    }

    /// Packets before this index have been examined for timeouts.
    pub closed spec fn expiry_cursor(&self) -> nat {
        self.expiry_cursor as nat
    }

    /// The ledger's consistency.
    pub closed spec fn wf(&self) -> bool {
        &&& self.states@.len() == self.sent_times@.len()
        &&& self.outstanding == count_state(self.states@, OUTSTANDING)
        &&& self.expiry_cursor <= self.states@.len()
    }

    /// A ledger for `count` planned, unsent packets.
    pub fn new(count: usize) -> (ledger: Self)
        ensures
            ledger.wf(),
            ledger.states() == Seq::new(count as nat, |i: int| UNSENT),
            ledger.sent_times() == Seq::new(count as nat, |i: int| 0u64),
            ledger.expiry_cursor() == 0,
    {
        let mut states: Vec<u8> = Vec::new();
        let mut sent_times: Vec<u64> = Vec::new();
        let mut i: usize = 0;
        while i < count
            invariant
                i <= count,
                states@ =~= Seq::new(i as nat, |j: int| UNSENT),
                sent_times@ =~= Seq::new(i as nat, |j: int| 0u64),
                count_state(states@, OUTSTANDING) == 0,
            decreases count - i,
        {
            let ghost before = states@;
            states.push(UNSENT);
            sent_times.push(0);
            assert(states@.drop_last() =~= before);
            i = i + 1;
        }
        LoadLedger { states, sent_times, outstanding: 0, expiry_cursor: 0 }
    }

    /// The number of planned packets.
    pub fn len(&self) -> (count: usize)
        requires
            self.wf(),
        ensures
            count == self.states().len(),
    {
        self.states.len()
    }

    /// The number of packets awaiting a reply.
    pub fn outstanding(&self) -> (count: usize)
        requires
            self.wf(),
        ensures
            count == count_state(self.states(), OUTSTANDING),
    {
        self.outstanding
    }

    /// The send time recorded for `sequence`.
    pub fn sent_time(&self, sequence: usize) -> (sent_ns: u64)
        requires
            self.wf(),
            sequence < self.states().len(),
        ensures
            sent_ns == self.sent_times()[sequence as int],
    {
        self.sent_times[sequence]
    }

    /// The state of packet `sequence`.
    pub fn state(&self, sequence: usize) -> (state: u8)
        requires
            self.wf(),
            sequence < self.states().len(),
        ensures
            state == self.states()[sequence as int],
    {
        self.states[sequence]
    }

    /// Packet `sequence` is about to be sent at `sent_ns`; it is outstanding
    /// before it leaves, so that a fast reply cannot be taken as foreign.
    /// (A forged reply may already have marked it received.)
    pub fn mark_sent(&mut self, sequence: usize, sent_ns: u64)
        requires
            old(self).wf(),
            sequence < old(self).states().len(),
            old(self).states()[sequence as int] != OUTSTANDING,
        ensures
            final(self).wf(),
            final(self).states() == old(self).states().update(sequence as int, OUTSTANDING),
            final(self).sent_times() == old(self).sent_times().update(sequence as int, sent_ns),
            final(self).expiry_cursor() == old(self).expiry_cursor(),
    {
        proof {
            lemma_count_state_update(self.states@, sequence as int, OUTSTANDING, OUTSTANDING);
            lemma_count_state_bound(self.states@.update(sequence as int, OUTSTANDING), OUTSTANDING);
        }
        let count = self.states.len();
        self.sent_times.set(sequence, sent_ns);
        self.states.set(sequence, OUTSTANDING);
        self.outstanding = self.outstanding + 1;
    }

    /// Packet `sequence` could not be sent.
    pub fn mark_send_failed(&mut self, sequence: usize)
        requires
            old(self).wf(),
            sequence < old(self).states().len(),
        ensures
            final(self).wf(),
            final(self).states() == old(self).states().update(sequence as int, SEND_FAILED),
            final(self).sent_times() == old(self).sent_times(),
            final(self).expiry_cursor() == old(self).expiry_cursor(),
    {
        let previous = self.states[sequence];
        proof {
            lemma_count_state_update(self.states@, sequence as int, SEND_FAILED, OUTSTANDING);
        }
        self.states.set(sequence, SEND_FAILED);
        if previous == OUTSTANDING {
            self.outstanding = self.outstanding - 1;
        }
    }

    /// A valid reply to packet `sequence` arrived; the packet is received
    /// from now on.
    pub fn receive(&mut self, sequence: usize) -> (receipt: Receipt)
        requires
            old(self).wf(),
            sequence < old(self).states().len(),
        ensures
            final(self).wf(),
            receipt == spec_receipt(old(self).states()[sequence as int]),
            final(self).states() == old(self).states().update(sequence as int, RECEIVED),
            final(self).sent_times() == old(self).sent_times(),
            final(self).expiry_cursor() == old(self).expiry_cursor(),
    {
        let previous = self.states[sequence];
        proof {
            lemma_count_state_update(self.states@, sequence as int, RECEIVED, OUTSTANDING);
        }
        self.states.set(sequence, RECEIVED);
        if previous == OUTSTANDING {
            self.outstanding = self.outstanding - 1;
        }
        classify_receipt(previous)
    }

    /// Expire, in sending order, the outstanding packets before `sent_up_to`
    /// that have waited at least `timeout_ns` at `now_ns`, stopping at the
    /// first outstanding packet that has not yet timed out.
    pub fn expire_old(&mut self, sent_up_to: usize, now_ns: u64, timeout_ns: u64)
        requires
            old(self).wf(),
            sent_up_to <= old(self).states().len(),
        ensures
            final(self).wf(),
            final(self).sent_times() == old(self).sent_times(),
            old(self).expiry_cursor() <= final(self).expiry_cursor(),
            final(self).expiry_cursor() < sent_up_to ==> {
                &&& final(self).states()[final(self).expiry_cursor() as int] == OUTSTANDING
                &&& !timed_out(
                    now_ns,
                    old(self).sent_times()[final(self).expiry_cursor() as int],
                    timeout_ns,
                )
            },
            final(self).expiry_cursor() <= if old(self).expiry_cursor() >= sent_up_to {
                old(self).expiry_cursor()
            } else {
                sent_up_to as nat
            },
            forall|i: int|
                0 <= i < old(self).states().len() ==> #[trigger] final(self).states()[i] == if old(
                    self,
                ).expiry_cursor() <= i < final(self).expiry_cursor() && old(self).states()[i]
                    == OUTSTANDING {
                    EXPIRED
                } else {
                    old(self).states()[i]
                },
            forall|i: int|
                old(self).expiry_cursor() <= i < final(self).expiry_cursor() && old(
                    self,
                ).states()[i] == OUTSTANDING ==> timed_out(
                    now_ns,
                    old(self).sent_times()[i],
                    timeout_ns,
                ),
    {
        let ghost original = self.states@;
        let start = self.expiry_cursor;
        if start >= sent_up_to {
            return;
        }
        while self.expiry_cursor < sent_up_to
            invariant
                self.wf(),
                sent_up_to <= self.states@.len(),
                start <= self.expiry_cursor <= sent_up_to,
                self.states@.len() == original.len(),
                self.sent_times@ == old(self).sent_times@,
                start == old(self).expiry_cursor,
                original == old(self).states@,
                forall|i: int|
                    0 <= i < original.len() ==> #[trigger] self.states@[i] == if start <= i
                        < self.expiry_cursor && original[i] == OUTSTANDING {
                        EXPIRED
                    } else {
                        original[i]
                    },
                forall|i: int|
                    start <= i < self.expiry_cursor && original[i] == OUTSTANDING ==> timed_out(
                        now_ns,
                        self.sent_times@[i],
                        timeout_ns,
                    ),
            ensures
                self.wf(),
                start <= self.expiry_cursor,
                self.sent_times@ == old(self).sent_times@,
                self.expiry_cursor < sent_up_to ==> (self.states@[self.expiry_cursor as int]
                    == OUTSTANDING && !timed_out(
                    now_ns,
                    self.sent_times@[self.expiry_cursor as int],
                    timeout_ns,
                )),
                forall|i: int|
                    0 <= i < original.len() ==> #[trigger] self.states@[i] == if start <= i
                        < self.expiry_cursor && original[i] == OUTSTANDING {
                        EXPIRED
                    } else {
                        original[i]
                    },
                forall|i: int|
                    start <= i < self.expiry_cursor && original[i] == OUTSTANDING ==> timed_out(
                        now_ns,
                        self.sent_times@[i],
                        timeout_ns,
                    ),
            decreases sent_up_to - self.expiry_cursor,
        {
            let cursor = self.expiry_cursor;
            if self.states[cursor] == OUTSTANDING {
                let sent_ns = self.sent_times[cursor];
                if now_ns.saturating_sub(sent_ns) < timeout_ns {
                    break;
                }
                proof {
                    lemma_count_state_update(self.states@, cursor as int, EXPIRED, OUTSTANDING);
                }
                self.states.set(cursor, EXPIRED);
                self.outstanding = self.outstanding - 1;
            }
            self.expiry_cursor = cursor + 1;
        }
    }

    /// The number of payload bytes in packets that were sent (outstanding,
    /// answered or expired; `sizes` are the planned sizes), and in packets
    /// whose valid reply arrived.
    pub fn payload_bytes(&self, sizes: &[u16]) -> (totals: (u64, u64))
        requires
            self.wf(),
            sizes@.len() == self.states().len(),
            sizes@.len() * 0x1_0000 <= u64::MAX,
        ensures
            totals.0 == sent_payload(self.states(), sizes@),
            totals.1 == received_payload(self.states(), sizes@),
    {
        let n = sizes.len();
        let mut sent: u64 = 0;
        let mut valid: u64 = 0;
        let mut i: usize = 0;
        while i < n
            invariant
                n == sizes@.len(),
                n == self.states@.len(),
                n * 0x1_0000 <= u64::MAX,
                i <= n,
                sent == sent_payload(self.states@.subrange(0, i as int), sizes@.subrange(0, i as int)),
                valid == received_payload(self.states@.subrange(0, i as int), sizes@.subrange(0, i as int)),
                sent <= i * 0x1_0000,
                valid <= i * 0x1_0000,
            decreases n - i,
        {
            let ghost (s0, z0) = (self.states@.subrange(0, i as int), sizes@.subrange(0, i as int));
            let ghost (s1, z1) = (
                self.states@.subrange(0, i + 1),
                sizes@.subrange(0, i + 1),
            );
            assert(s1.drop_last() =~= s0);
            assert(z1.drop_last() =~= z0);
            assert(s1.last() == self.states@[i as int]);
            assert(z1.last() == sizes@[i as int]);
            proof {
                assert((i + 1) * 0x1_0000 <= n * 0x1_0000) by (nonlinear_arith)
                    requires
                        i + 1 <= n,
                ;
            }
            let state = self.states[i];
            if state == OUTSTANDING || state == RECEIVED || state == EXPIRED {
                sent = sent + sizes[i] as u64;
            }
            if self.states[i] == RECEIVED {
                valid = valid + sizes[i] as u64;
            }
            i = i + 1;
        }
        assert(self.states@.subrange(0, n as int) =~= self.states@);
        assert(sizes@.subrange(0, n as int) =~= sizes@);
        (sent, valid)
    }
}

/// A packet in `state` left the host: it is outstanding, answered or
/// expired.
pub open spec fn was_sent(state: u8) -> bool {
    state == OUTSTANDING || state == RECEIVED || state == EXPIRED
}

/// The sum of `sizes[i]` over the packets that were sent.
pub open spec fn sent_payload(states: Seq<u8>, sizes: Seq<u16>) -> int
    decreases states.len(),
{
    if states.len() == 0 || sizes.len() == 0 {
        0
    } else {
        sent_payload(states.drop_last(), sizes.drop_last()) + if was_sent(states.last()) {
            sizes.last() as int
        } else {
            0
        }
    }
}

/// The sum of `sizes[i]` over the packets whose valid reply arrived.
pub open spec fn received_payload(states: Seq<u8>, sizes: Seq<u16>) -> int
    decreases states.len(),
{
    if states.len() == 0 || sizes.len() == 0 {
        0
    } else {
        received_payload(states.drop_last(), sizes.drop_last()) + if states.last() == RECEIVED {
            sizes.last() as int
        } else {
            0
        }
    }
}


/// What a reply in a load trial turned out to be before its packet's state
/// is consulted.
#[derive(Clone, Copy, Debug, PartialEq, Eq, Structural)]
pub enum ReplyCheck {
    /// Not a well-formed benchmark datagram of the expected size and content.
    Corrupt,
    /// Another run's datagram, or a sequence number outside the plan.
    Foreign,
    /// A well-formed reply to planned packet `header.sequence`.
    Accepted(Header),
}

/// The check of reply `packet` in a trial of `run_id` whose plan has packet
/// sizes `sizes`.
pub open spec fn spec_check_reply(packet: Seq<u8>, run_id: u64, sizes: Seq<u16>) -> ReplyCheck {
    match spec_decode(packet) {
        Err(_) => ReplyCheck::Corrupt,
        Ok(header) => if header.run_id != run_id || header.sequence >= sizes.len() {
            ReplyCheck::Foreign
        } else if packet.len() != sizes[header.sequence as int] || !spec_payload_valid(
            packet,
            header,
        ) {
            ReplyCheck::Corrupt
        } else {
            ReplyCheck::Accepted(header)
        },
    }
}

/// Check one reply of a load trial.
pub fn check_reply(packet: &[u8], run_id: u64, sizes: &[u16]) -> (check: ReplyCheck)
    ensures
        check == spec_check_reply(packet@, run_id, sizes@),
{
    match decode(packet) {
        Err(_) => ReplyCheck::Corrupt,
        Ok(header) => {
            if header.run_id != run_id || header.sequence >= sizes.len() as u64 {
                return ReplyCheck::Foreign;
            }
            let index = header.sequence as usize;
            if packet.len() != sizes[index] as usize || !validate_payload(packet, header) {
                ReplyCheck::Corrupt
            } else {
                ReplyCheck::Accepted(header)
            }
        },
    }
}

/// Each counter a receiver may bump can still grow.
pub open spec fn receive_room(c: PacketCounters) -> bool {
    &&& c.valid_replies < u64::MAX
    &&& c.late < u64::MAX
    &&& c.duplicates < u64::MAX
    &&& c.reordered < u64::MAX
    &&& c.corrupt < u64::MAX
    &&& c.foreign < u64::MAX
}

/// Whether every counter a receiver may bump can still grow.
pub fn has_receive_room(c: &PacketCounters) -> (room: bool)
    ensures
        room == receive_room(*c),
{
    c.valid_replies < u64::MAX && c.late < u64::MAX && c.duplicates < u64::MAX && c.reordered
        < u64::MAX && c.corrupt < u64::MAX && c.foreign < u64::MAX
}

/// The receiver's account of one load trial.
pub struct LoadTally {
    pub counters: PacketCounters,
    /// Round-trip times of the replies counted as valid.
    pub samples: Vec<u64>,
    /// Highest sequence number validly answered so far.
    pub maximum_sequence: Option<u64>,
}

impl LoadTally {
    /// The account is consistent: one round-trip sample per valid reply,
    /// and no more late or reordered replies than valid ones.
    pub open spec fn counts_consistent(&self) -> bool {
        &&& self.samples@.len() == self.counters.valid_replies
        &&& self.counters.late <= self.counters.valid_replies
        &&& self.counters.reordered <= self.counters.valid_replies
    }

    /// The counters of the whole trial: the receiver's counts, with the
    /// `planned` packets, the `sent` ones and the `send_errors`, and every
    /// sent packet without a valid reply counted as missing.
    pub fn trial_counters(&self, planned: u64, sent: u64, send_errors: u64) -> (counters:
        PacketCounters)
        ensures
            counters == (PacketCounters {
                planned,
                sent,
                send_errors,
                missing: (if sent >= self.counters.valid_replies {
                    sent - self.counters.valid_replies
                } else {
                    0
                }) as u64,
                ..self.counters
            }),
    {
        let mut counters = self.counters;
        counters.planned = planned;
        counters.sent = sent;
        counters.send_errors = send_errors;
        counters.missing = sent.saturating_sub(counters.valid_replies);
        counters
    }

    /// An empty account.
    pub fn new() -> (tally: Self)
        ensures
            tally.counts_consistent(),
            tally.counters == PacketCounters::spec_zero(),
            tally.samples@ == Seq::<u64>::empty(),
            tally.maximum_sequence is None,
    {
        LoadTally { counters: PacketCounters::default(), samples: Vec::new(), maximum_sequence: None }
    }

    /// A reply failed its check.
    pub fn record_check(&mut self, check: ReplyCheck)
        requires
            receive_room(old(self).counters),
            !(check is Accepted),
        ensures
            old(self).counts_consistent() ==> final(self).counts_consistent(),
            final(self).counters == (if check is Corrupt {
                PacketCounters { corrupt: (old(self).counters.corrupt + 1) as u64, ..old(self).counters }
            } else {
                PacketCounters { foreign: (old(self).counters.foreign + 1) as u64, ..old(self).counters }
            }),
            final(self).samples@ == old(self).samples@,
            final(self).maximum_sequence == old(self).maximum_sequence,
    {
        match check {
            ReplyCheck::Corrupt => self.counters.corrupt = self.counters.corrupt + 1,
            _ => self.counters.foreign = self.counters.foreign + 1,
        }
    }

    /// A reply to packet `sequence` passed its check and was classified as
    /// `receipt`, `rtt_ns` after its packet was sent. A valid reply slower
    /// than `timeout_ns` counts as late; a reply to a lower sequence than one
    /// already answered counts as reordered.
    pub fn record_receipt(&mut self, receipt: Receipt, sequence: u64, rtt_ns: u64, timeout_ns: u64)
        requires
            receive_room(old(self).counters),
        ensures
            old(self).counts_consistent() ==> final(self).counts_consistent(),
            receipt is Duplicate ==> {
                &&& final(self).counters == (PacketCounters {
                    duplicates: (old(self).counters.duplicates + 1) as u64,
                    ..old(self).counters
                })
                &&& final(self).samples@ == old(self).samples@
                &&& final(self).maximum_sequence == old(self).maximum_sequence
            },
            receipt is Foreign ==> {
                &&& final(self).counters == (PacketCounters {
                    foreign: (old(self).counters.foreign + 1) as u64,
                    ..old(self).counters
                })
                &&& final(self).samples@ == old(self).samples@
                &&& final(self).maximum_sequence == old(self).maximum_sequence
            },
            (receipt is Valid || receipt is Late) ==> {
                let reordered = old(self).maximum_sequence matches Some(m) && sequence < m;
                &&& final(self).counters == (PacketCounters {
                    valid_replies: (old(self).counters.valid_replies + 1) as u64,
                    late: (old(self).counters.late + if receipt is Late || rtt_ns > timeout_ns {
                        1int
                    } else {
                        0int
                    }) as u64,
                    reordered: (old(self).counters.reordered + if reordered {
                        1int
                    } else {
                        0int
                    }) as u64,
                    ..old(self).counters
                })
                &&& final(self).samples@ == old(self).samples@.push(rtt_ns)
                &&& final(self).maximum_sequence == Some(
                    match old(self).maximum_sequence {
                        Some(m) => if m > sequence {
                            m
                        } else {
                            sequence
                        },
                        None => sequence,
                    },
                )
            },
    {
        match receipt {
            Receipt::Duplicate => {
                self.counters.duplicates = self.counters.duplicates + 1;
                return;
            },
            Receipt::Foreign => {
                self.counters.foreign = self.counters.foreign + 1;
                return;
            },
            Receipt::Valid => {
                self.counters.valid_replies = self.counters.valid_replies + 1;
                if rtt_ns > timeout_ns {
                    self.counters.late = self.counters.late + 1;
                }
            },
            Receipt::Late => {
                self.counters.valid_replies = self.counters.valid_replies + 1;
                self.counters.late = self.counters.late + 1;
            },
        }
        match self.maximum_sequence {
            Some(maximum) => {
                if sequence < maximum {
                    self.counters.reordered = self.counters.reordered + 1;
                } else {
                    self.maximum_sequence = Some(sequence);
                }
            },
            None => self.maximum_sequence = Some(sequence),
        }
        self.samples.push(rtt_ns);
    }
}


/// What a reply during a burst turned out to be.
#[derive(Clone, Copy, Debug, PartialEq, Eq, Structural)]
pub enum BurstReply {
    Corrupt,
    Foreign,
    Duplicate,
    /// The first valid reply to the burst's packet number `offset`.
    New(usize),
}

/// The classification of reply `packet` while a burst of sequences
/// `first..end` of `run_id` with payloads of `size` bytes is in flight and the
/// packets marked 1 in `seen` were already answered.
pub open spec fn spec_burst_reply(
    packet: Seq<u8>,
    run_id: u64,
    first: u64,
    end: u64,
    size: nat,
    seen: Seq<u8>,
) -> BurstReply {
    match spec_decode(packet) {
        Err(_) => BurstReply::Corrupt,
        Ok(header) => if header.run_id != run_id || header.sequence < first || header.sequence
            >= end {
            BurstReply::Foreign
        } else if packet.len() != size || !spec_payload_valid(packet, header) {
            BurstReply::Corrupt
        } else if seen[header.sequence - first] == 1 {
            BurstReply::Duplicate
        } else {
            BurstReply::New((header.sequence - first) as usize)
        },
    }
}

/// The account of the burst workload of one payload size and burst length.
pub struct BurstTracker {
    pub run_id: u64,
    pub size: usize,
    pub counters: PacketCounters,
    pub complete_bursts: u64,
    /// Round-trip times of the valid replies.
    pub samples: Vec<u64>,
    pub first_sequence: u64,
    pub end_sequence: u64,
    pub sent_times: Vec<u64>,
    pub seen: Vec<u8>,
    pub received: usize,
    pub maximum_offset: Option<usize>,
}

impl BurstTracker {
    /// The account is consistent: one round-trip sample per valid reply,
    /// and no more late or reordered replies than valid ones.
    pub open spec fn counts_consistent(&self) -> bool {
        &&& self.samples@.len() == self.counters.valid_replies
        &&& self.counters.late <= self.counters.valid_replies
        &&& self.counters.reordered <= self.counters.valid_replies
    }

    /// The first sequence number of the current burst.
    pub closed spec fn first_sequence(&self) -> u64 {
        self.first_sequence
    }

    /// One past the last sequence number of the current burst.
    pub closed spec fn end_sequence(&self) -> u64 {
        self.end_sequence
    }

    /// The current burst's packets, 1 where a valid reply arrived.
    pub closed spec fn seen(&self) -> Seq<u8> {
        self.seen@
    }

    /// Send times of the current burst's packets so far (0 where sending
    /// failed).
    pub closed spec fn sent_times(&self) -> Seq<u64> {
        self.sent_times@
    }

    /// The number of packets in the current burst.
    pub closed spec fn burst_len(&self) -> nat {
        self.seen@.len()
    }

    /// The highest packet number answered in the current burst.
    pub closed spec fn maximum_offset(&self) -> Option<usize> {
        self.maximum_offset
    }

    /// The tracker's consistency.
    pub closed spec fn wf(&self) -> bool {
        &&& self.end_sequence - self.first_sequence == self.seen@.len()
        &&& self.sent_times@.len() <= self.seen@.len()
        &&& self.received == count_state(self.seen@, 1)
        &&& self.size >= HEADER_LEN
    }

    /// A tracker for bursts of `size`-byte datagrams of run `run_id`.
    pub fn new(run_id: u64, size: usize) -> (tracker: Self)
        requires
            size >= HEADER_LEN,
        ensures
            tracker.counts_consistent(),
            tracker.wf(),
            tracker.run_id == run_id,
            tracker.size == size,
            tracker.counters == PacketCounters::spec_zero(),
            tracker.complete_bursts == 0,
            tracker.samples@ == Seq::<u64>::empty(),
            tracker.burst_len() == 0,
    {
        BurstTracker {
            run_id,
            size,
            counters: PacketCounters::default(),
            complete_bursts: 0,
            samples: Vec::new(),
            first_sequence: 0,
            end_sequence: 0,
            sent_times: Vec::new(),
            seen: Vec::new(),
            received: 0,
            maximum_offset: None,
        }
    }

    /// A burst of `burst_packets` packets numbered from `first_sequence` is
    /// about to be sent.
    pub fn begin_burst(&mut self, first_sequence: u64, burst_packets: usize)
        requires
            old(self).wf(),
            first_sequence + burst_packets <= u64::MAX,
            old(self).counters.planned + burst_packets <= u64::MAX,
        ensures
            old(self).counts_consistent() ==> final(self).counts_consistent(),
            final(self).wf(),
            final(self).first_sequence() == first_sequence,
            final(self).end_sequence() == first_sequence + burst_packets,
            final(self).seen() == Seq::new(burst_packets as nat, |i: int| 0u8),
            final(self).sent_times() == Seq::<u64>::empty(),
            final(self).maximum_offset() is None,
            final(self).counters == (PacketCounters {
                planned: (old(self).counters.planned + burst_packets) as u64,
                ..old(self).counters
            }),
            final(self).run_id == old(self).run_id,
            final(self).size == old(self).size,
            final(self).complete_bursts == old(self).complete_bursts,
            final(self).samples@ == old(self).samples@,
    {
        let mut seen: Vec<u8> = Vec::new();
        let mut i: usize = 0;
        while i < burst_packets
            invariant
                i <= burst_packets,
                seen@ =~= Seq::new(i as nat, |j: int| 0u8),
                count_state(seen@, 1) == 0,
            decreases burst_packets - i,
        {
            let ghost before = seen@;
            seen.push(0);
            assert(seen@.drop_last() =~= before);
            i = i + 1;
        }
        self.seen = seen;
        self.sent_times = Vec::new();
        self.received = 0;
        self.maximum_offset = None;
        self.first_sequence = first_sequence;
        self.end_sequence = first_sequence + burst_packets as u64;
        self.counters.planned = self.counters.planned + burst_packets as u64;
    }

    /// The burst's next packet was sent at `sent_ns`, or sending it failed.
    pub fn record_send(&mut self, sent: bool, sent_ns: u64)
        requires
            old(self).wf(),
            old(self).sent_times().len() < old(self).burst_len(),
            old(self).counters.sent < u64::MAX,
            old(self).counters.send_errors < u64::MAX,
        ensures
            old(self).counts_consistent() ==> final(self).counts_consistent(),
            final(self).wf(),
            final(self).sent_times() == old(self).sent_times().push(if sent { sent_ns } else { 0 }),
            final(self).counters == (if sent {
                PacketCounters { sent: (old(self).counters.sent + 1) as u64, ..old(self).counters }
            } else {
                PacketCounters {
                    send_errors: (old(self).counters.send_errors + 1) as u64,
                    ..old(self).counters
                }
            }),
            final(self).seen() == old(self).seen(),
            final(self).first_sequence() == old(self).first_sequence(),
            final(self).end_sequence() == old(self).end_sequence(),
            final(self).maximum_offset() == old(self).maximum_offset(),
            final(self).run_id == old(self).run_id,
            final(self).size == old(self).size,
            final(self).complete_bursts == old(self).complete_bursts,
            final(self).samples@ == old(self).samples@,
    {
        if sent {
            self.counters.sent = self.counters.sent + 1;
            self.sent_times.push(sent_ns);
        } else {
            self.counters.send_errors = self.counters.send_errors + 1;
            self.sent_times.push(0);
        }
    }

    /// Every packet of the current burst was answered.
    pub fn burst_complete(&self) -> (complete: bool)
        requires
            self.wf(),
        ensures
            complete == (count_state(self.seen(), 1) == self.burst_len()),
    {
        self.received == self.seen.len()
    }

    /// A reply `packet` arrived at `now_ns` after the whole burst was sent.
    pub fn record_reply(&mut self, packet: &[u8], now_ns: u64) -> (reply: BurstReply)
        requires
            old(self).wf(),
            old(self).sent_times().len() == old(self).burst_len(),
            receive_room(old(self).counters),
        ensures
            old(self).counts_consistent() ==> final(self).counts_consistent(),
            final(self).wf(),
            reply == spec_burst_reply(
                packet@,
                old(self).run_id,
                old(self).first_sequence(),
                old(self).end_sequence(),
                old(self).size as nat,
                old(self).seen(),
            ),
            final(self).run_id == old(self).run_id,
            final(self).size == old(self).size,
            final(self).complete_bursts == old(self).complete_bursts,
            final(self).first_sequence() == old(self).first_sequence(),
            final(self).end_sequence() == old(self).end_sequence(),
            final(self).sent_times() == old(self).sent_times(),
            reply is Corrupt ==> final(self).counters == (PacketCounters {
                corrupt: (old(self).counters.corrupt + 1) as u64,
                ..old(self).counters
            }),
            reply is Foreign ==> final(self).counters == (PacketCounters {
                foreign: (old(self).counters.foreign + 1) as u64,
                ..old(self).counters
            }),
            reply is Duplicate ==> final(self).counters == (PacketCounters {
                duplicates: (old(self).counters.duplicates + 1) as u64,
                ..old(self).counters
            }),
            !(reply is New) ==> {
                &&& final(self).seen() == old(self).seen()
                &&& final(self).samples@ == old(self).samples@
                &&& final(self).maximum_offset() == old(self).maximum_offset()
            },
            reply matches BurstReply::New(offset) ==> {
                let reordered = old(self).maximum_offset() matches Some(m) && offset < m;
                let sent_ns = old(self).sent_times()[offset as int];
                &&& final(self).seen() == old(self).seen().update(offset as int, 1u8)
                &&& final(self).counters == (PacketCounters {
                    valid_replies: (old(self).counters.valid_replies + 1) as u64,
                    reordered: (old(self).counters.reordered + if reordered {
                        1int
                    } else {
                        0int
                    }) as u64,
                    ..old(self).counters
                })
                &&& final(self).samples@ == old(self).samples@.push(
                    if now_ns >= sent_ns { (now_ns - sent_ns) as u64 } else { 0 },
                )
                &&& final(self).maximum_offset() == Some(
                    match old(self).maximum_offset() {
                        Some(m) => if m > offset { m } else { offset as usize },
                        None => offset as usize,
                    },
                )
            },
    {
        let header = match decode(packet) {
            Err(_) => {
                self.counters.corrupt = self.counters.corrupt + 1;
                return BurstReply::Corrupt;
            },
            Ok(header) => header,
        };
        if header.run_id != self.run_id || header.sequence < self.first_sequence || header.sequence
            >= self.end_sequence {
            self.counters.foreign = self.counters.foreign + 1;
            return BurstReply::Foreign;
        }
        let count = self.seen.len();
        let offset = (header.sequence - self.first_sequence) as usize;
        if packet.len() != self.size || !validate_payload(packet, header) {
            self.counters.corrupt = self.counters.corrupt + 1;
            return BurstReply::Corrupt;
        }
        if self.seen[offset] == 1 {
            self.counters.duplicates = self.counters.duplicates + 1;
            return BurstReply::Duplicate;
        }
        proof {
            lemma_count_state_update(self.seen@, offset as int, 1u8, 1u8);
            lemma_count_state_bound(self.seen@.update(offset as int, 1u8), 1u8);
        }
        self.seen.set(offset, 1);
        self.received = self.received + 1;
        self.counters.valid_replies = self.counters.valid_replies + 1;
        match self.maximum_offset {
            Some(maximum) => {
                if offset < maximum {
                    self.counters.reordered = self.counters.reordered + 1;
                } else {
                    self.maximum_offset = Some(offset);
                }
            },
            None => self.maximum_offset = Some(offset),
        }
        let sample = now_ns.saturating_sub(self.sent_times[offset]);
        self.samples.push(sample);
        BurstReply::New(offset)
    }

    /// The current burst is over; count it if every packet was answered.
    pub fn end_burst(&mut self)
        requires
            old(self).wf(),
            old(self).complete_bursts < u64::MAX,
        ensures
            old(self).counts_consistent() ==> final(self).counts_consistent(),
            final(self).wf(),
            final(self).complete_bursts == old(self).complete_bursts + if count_state(
                old(self).seen(),
                1,
            ) == old(self).burst_len() {
                1int
            } else {
                0int
            },
            final(self).counters == old(self).counters,
            final(self).samples@ == old(self).samples@,
    {
        if self.received == self.seen.len() {
            self.complete_bursts = self.complete_bursts + 1;
        }
    }

    /// All bursts are over: every sent packet without a valid reply is
    /// missing.
    pub fn finish(&mut self)
        requires
            old(self).wf(),
        ensures
            old(self).counts_consistent() ==> final(self).counts_consistent(),
            final(self).wf(),
            final(self).counters == (PacketCounters {
                missing: (if old(self).counters.sent >= old(self).counters.valid_replies {
                    old(self).counters.sent - old(self).counters.valid_replies
                } else {
                    0
                }) as u64,
                ..old(self).counters
            }),
            final(self).complete_bursts == old(self).complete_bursts,
            final(self).samples@ == old(self).samples@,
    {
        self.counters.missing = self.counters.sent.saturating_sub(self.counters.valid_replies);
    }
}

proof fn lemma_xorshift_step_injective(a: u64, b: u64)
    ensures
        xorshift(a) == xorshift(b) ==> a == b,
{
    let a1 = a ^ (a << 13u64);
    let b1 = b ^ (b << 13u64);
    let a2 = a1 ^ (a1 >> 7u64);
    let b2 = b1 ^ (b1 >> 7u64);
    assert(a2 ^ (a2 << 17u64) == b2 ^ (b2 << 17u64) ==> a2 == b2) by (bit_vector);
    assert(a1 ^ (a1 >> 7u64) == b1 ^ (b1 >> 7u64) ==> a1 == b1) by (bit_vector);
    assert(a ^ (a << 13u64) == b ^ (b << 13u64) ==> a == b) by (bit_vector);
}

/// The generator step `x ^= x << 13; x ^= x >> 7; x ^= x << 17` loses no
/// state: two different states never step to the same one, so the size
/// sequence of a mixed plan never collapses onto a fixed state, and zero is
/// the only state that steps to zero.
pub proof fn lemma_xorshift_injective(a: u64, b: u64)
    ensures
        xorshift(a) == xorshift(b) ==> a == b,
        xorshift(a) == 0 <==> a == 0,
{
    lemma_xorshift_step_injective(a, b);
    lemma_xorshift_step_injective(a, 0);
    let z = 0u64;
    assert((z ^ (z << 13u64)) == 0u64 && (0u64 ^ (0u64 >> 7u64)) == 0u64 && (0u64 ^ (0u64
        << 17u64)) == 0u64) by (bit_vector)
        requires
            z == 0u64,
    ;
    assert(xorshift(0) == 0);
}

/// A burst reply is counted as a new valid reply only when it decodes, belongs
/// to this run and burst, has the burst's size, carries the pattern of its
/// header in every payload byte, and answers a packet not yet answered; the
/// offset is its place in the burst.
pub proof fn lemma_burst_new_only_for_valid_replies(
    packet: Seq<u8>,
    run_id: u64,
    first: u64,
    end: u64,
    size: nat,
    seen: Seq<u8>,
)
    ensures
        spec_burst_reply(packet, run_id, first, end, size, seen) matches BurstReply::New(offset)
            ==> {
            let h = spec_decode(packet)->Ok_0;
            &&& spec_decode(packet) is Ok
            &&& h.run_id == run_id
            &&& first <= h.sequence < end
            &&& packet.len() == size
            &&& forall|i: int|
                HEADER_LEN <= i < packet.len() ==> packet[i] == spec_pattern_byte(
                    h.run_id,
                    h.sequence,
                    (i - HEADER_LEN) as u64,
                )
            &&& seen[h.sequence - first] != 1
            &&& offset == (h.sequence - first) as usize
        },
{
}

/// A decoded reply of this run and burst whose payload byte `i` differs from
/// its header's pattern is counted as corrupt.
pub proof fn lemma_burst_corrupt_payload_is_refused(
    packet: Seq<u8>,
    run_id: u64,
    first: u64,
    end: u64,
    size: nat,
    seen: Seq<u8>,
    i: int,
)
    requires
        spec_decode(packet) is Ok,
        spec_decode(packet)->Ok_0.run_id == run_id,
        first <= spec_decode(packet)->Ok_0.sequence < end,
        HEADER_LEN <= i < packet.len(),
        packet[i] != spec_pattern_byte(
            run_id,
            spec_decode(packet)->Ok_0.sequence,
            (i - HEADER_LEN) as u64,
        ),
    ensures
        spec_burst_reply(packet, run_id, first, end, size, seen) == BurstReply::Corrupt,
{
}

/// A load-trial reply is accepted only when it decodes, belongs to this run,
/// names a planned packet, has that packet's size and carries the pattern of
/// its header in every payload byte.
pub proof fn lemma_load_reply_accepted_only_when_valid(
    packet: Seq<u8>,
    run_id: u64,
    sizes: Seq<u16>,
)
    ensures
        spec_check_reply(packet, run_id, sizes) matches ReplyCheck::Accepted(h) ==> {
            &&& spec_decode(packet) == Ok::<Header, &'static str>(h)
            &&& h.run_id == run_id
            &&& h.sequence < sizes.len()
            &&& packet.len() == sizes[h.sequence as int]
            &&& forall|i: int|
                HEADER_LEN <= i < packet.len() ==> packet[i] == spec_pattern_byte(
                    h.run_id,
                    h.sequence,
                    (i - HEADER_LEN) as u64,
                )
        },
{
}

} // verus!
