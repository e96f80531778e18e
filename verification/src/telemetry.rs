//! The host benchmark's view of the firmware's profiling telemetry.
use vstd::prelude::*;

use crate::profiling::{
    le_u32_bytes, le_u64_at, le_u64_bytes, record_bytes, ProfileRecord, RAM_BYTES,
};
use crate::update_header::le_u32_at;
use crate::{PROFILING_MAGIC, PROFILING_WIRE_SIZE};

verus! {

/// Request byte asking the firmware to reset its account.
pub const RESET_REQUEST: u8 = 0x52;

/// Request byte asking the firmware for a snapshot.
pub const SNAPSHOT_REQUEST: u8 = 0x53;

/// The exact rational `numerator / denominator`, with `denominator > 0`.
#[derive(Clone, Copy, Debug, PartialEq, Eq, Structural)]
pub struct Ratio {
    pub numerator: u128,
    pub denominator: u128,
}

/// Decoded telemetry, with the two derived rates kept as exact ratios.
#[derive(Clone, Copy, Debug, PartialEq, Eq, Structural)]
pub struct ProfileMetrics {
    pub cpu_hz: u32,
    pub time_ticks_hz: u32,
    pub busy_cycles: u64,
    pub elapsed_ticks: u64,
    pub executor_polls: u64,
    /// Busy share of the CPU, in percent; zero when no time elapsed.
    pub executor_cpu_percent: Ratio,
    /// Busy cycles per validly echoed packet; zero when none was valid.
    pub cycles_per_valid_packet: Ratio,
    pub stack_high_water_bytes: u32,
    pub stack_capacity_bytes: u32,
    pub static_ram_bytes: u32,
}

/// Why a telemetry record was refused.
#[derive(Clone, Copy, Debug, PartialEq, Eq, Structural)]
pub enum TelemetryError {
    InvalidMetricValues,
}

/// The record that the 48 bytes `b` carry.
pub open spec fn record_of(b: Seq<u8>) -> ProfileRecord {
    ProfileRecord {
        cpu_hz: le_u32_at(b, 8) as u32,
        time_ticks_hz: le_u32_at(b, 12) as u32,
        busy_cycles: le_u64_at(b, 16) as u64,
        elapsed_ticks: le_u64_at(b, 24) as u64,
        executor_polls: le_u64_at(b, 32) as u64,
        stack_high_water_bytes: le_u32_at(b, 40) as u32,
        stack_capacity_bytes: le_u32_at(b, 44) as u32,
    }
}

/// A record whose values the host accepts.
pub open spec fn record_plausible(r: ProfileRecord) -> bool {
    r.cpu_hz != 0 && r.time_ticks_hz != 0 && r.stack_capacity_bytes <= RAM_BYTES
}

/// The metrics the host derives from an accepted record.
pub open spec fn spec_metrics(r: ProfileRecord, valid_packets: u64) -> ProfileMetrics {
    ProfileMetrics {
        cpu_hz: r.cpu_hz,
        time_ticks_hz: r.time_ticks_hz,
        busy_cycles: r.busy_cycles,
        elapsed_ticks: r.elapsed_ticks,
        executor_polls: r.executor_polls,
        executor_cpu_percent: if r.elapsed_ticks == 0 {
            Ratio { numerator: 0, denominator: 1 }
        } else {
            Ratio {
                numerator: (r.busy_cycles * r.time_ticks_hz * 100) as u128,
                denominator: (r.cpu_hz * r.elapsed_ticks) as u128,
            }
        },
        cycles_per_valid_packet: if valid_packets == 0 {
            Ratio { numerator: 0, denominator: 1 }
        } else {
            Ratio { numerator: r.busy_cycles as u128, denominator: valid_packets as u128 }
        },
        stack_high_water_bytes: r.stack_high_water_bytes,
        stack_capacity_bytes: r.stack_capacity_bytes,
        static_ram_bytes: (RAM_BYTES - r.stack_capacity_bytes) as u32,
    }
}

/// The little-endian `u32` at `offset`.
pub fn u32_at(bytes: &[u8], offset: usize) -> (value: u32)
    requires
        offset + 4 <= bytes@.len(),
    ensures
        value == le_u32_at(bytes@, offset as int),
{
    let n = bytes.len();
    bytes[offset] as u32 + (bytes[offset + 1] as u32) * 0x100 + (bytes[offset + 2] as u32)
        * 0x1_0000 + (bytes[offset + 3] as u32) * 0x100_0000
}

/// The little-endian `u64` at `offset`.
pub fn u64_at(bytes: &[u8], offset: usize) -> (value: u64)
    requires
        offset + 8 <= bytes@.len(),
    ensures
        value == le_u64_at(bytes@, offset as int),
{
    let n = bytes.len();
    u32_at(bytes, offset) as u64 + (u32_at(bytes, offset + 4) as u64) * 0x1_0000_0000
}

/// Decode a profiling reply and derive the executor's CPU share and the
/// cycles spent per validly echoed packet.
pub fn decode(bytes: &[u8; PROFILING_WIRE_SIZE], valid_packets: u64) -> (result: Result<
    ProfileMetrics,
    TelemetryError,
>)
    ensures
        result is Err <==> !record_plausible(record_of(bytes@)),
        result matches Ok(metrics) ==> metrics == spec_metrics(record_of(bytes@), valid_packets),
{
    let slice = bytes.as_slice();
    let cpu_hz = u32_at(slice, 8);
    let time_ticks_hz = u32_at(slice, 12);
    let busy_cycles = u64_at(slice, 16);
    let elapsed_ticks = u64_at(slice, 24);
    let executor_polls = u64_at(slice, 32);
    let stack_high_water_bytes = u32_at(slice, 40);
    let stack_capacity_bytes = u32_at(slice, 44);
    if cpu_hz == 0 || time_ticks_hz == 0 || stack_capacity_bytes > RAM_BYTES {
        return Err(TelemetryError::InvalidMetricValues);
    }
    let executor_cpu_percent = if elapsed_ticks == 0 {
        Ratio { numerator: 0, denominator: 1 }
    } else {
        proof {
            assert(busy_cycles as int * time_ticks_hz as int <= u64::MAX as int * u32::MAX as int)
                by (nonlinear_arith);
            assert(cpu_hz as int * elapsed_ticks as int <= u32::MAX as int * u64::MAX as int)
                by (nonlinear_arith);
            assert(cpu_hz as int * elapsed_ticks as int > 0) by (nonlinear_arith)
                requires
                    cpu_hz > 0,
                    elapsed_ticks > 0,
            ;
        }
        Ratio {
            numerator: busy_cycles as u128 * time_ticks_hz as u128 * 100,
            denominator: cpu_hz as u128 * elapsed_ticks as u128,
        }
    };
    let cycles_per_valid_packet = if valid_packets == 0 {
        Ratio { numerator: 0, denominator: 1 }
    } else {
        Ratio { numerator: busy_cycles as u128, denominator: valid_packets as u128 }
    };
    Ok(
        ProfileMetrics {
            cpu_hz,
            time_ticks_hz,
            busy_cycles,
            elapsed_ticks,
            executor_polls,
            executor_cpu_percent,
            cycles_per_valid_packet,
            stack_high_water_bytes,
            stack_capacity_bytes,
            static_ram_bytes: RAM_BYTES - stack_capacity_bytes,
        },
    )
}

/// The nine-byte request for `operation` ([`RESET_REQUEST`] or
/// [`SNAPSHOT_REQUEST`]).
pub fn profile_request(operation: u8) -> (request: [u8; 9])
    ensures
        request@ == PROFILING_MAGIC@.push(operation),
{
    let mut request = [0u8; 9];
    let mut i: usize = 0;
    while i < 8
        invariant
            i <= 8,
            request@[8] == 0,
            forall|j: int| 0 <= j < i ==> request@[j] == PROFILING_MAGIC@[j],
        decreases 8 - i,
    {
        request[i] = PROFILING_MAGIC[i];
        i = i + 1;
    }
    request[8] = operation;
    assert(request@ =~= PROFILING_MAGIC@.push(operation));
    request
}

/// Whether `received` bytes of a reply form a profiling record: exactly one
/// record long and starting with the profiling marker.
pub fn is_profile_reply(reply: &[u8; PROFILING_WIRE_SIZE], received: usize) -> (accepted: bool)
    ensures
        accepted == (received == PROFILING_WIRE_SIZE && reply@.subrange(0, 8) == PROFILING_MAGIC@),
{
    if received != PROFILING_WIRE_SIZE {
        return false;
    }
    let mut i: usize = 0;
    while i < 8
        invariant
            i <= 8,
            forall|j: int| 0 <= j < i ==> reply@[j] == PROFILING_MAGIC@[j],
        decreases 8 - i,
    {
        if reply[i] != PROFILING_MAGIC[i] {
            assert(reply@.subrange(0, 8)[i as int] != PROFILING_MAGIC@[i as int]);
            return false;
        }
        i = i + 1;
    }
    assert(reply@.subrange(0, 8) =~= PROFILING_MAGIC@);
    true
}

pub(crate) proof fn lemma_le_u32_roundtrip(s: Seq<u8>, at: int, x: u32)
    requires
        0 <= at,
        at + 4 <= s.len(),
        forall|i: int| 0 <= i < 4 ==> s[at + i] == #[trigger] le_u32_bytes(x)[i],
    ensures
        le_u32_at(s, at) == x,
{
    assert(s[at] == le_u32_bytes(x)[0]);
    assert(s[at + 1] == le_u32_bytes(x)[1]);
    assert(s[at + 2] == le_u32_bytes(x)[2]);
    assert(s[at + 3] == le_u32_bytes(x)[3]);
}

pub(crate) proof fn lemma_le_u64_roundtrip(s: Seq<u8>, at: int, x: u64)
    requires
        0 <= at,
        at + 8 <= s.len(),
        forall|i: int| 0 <= i < 8 ==> s[at + i] == #[trigger] le_u64_bytes(x)[i],
    ensures
        le_u64_at(s, at) == x,
{
    let lo = (x % 0x1_0000_0000) as u32;
    let hi = (x / 0x1_0000_0000) as u32;
    assert(x == lo + hi * 0x1_0000_0000);
    assert forall|i: int| 0 <= i < 4 implies s[at + i] == #[trigger] le_u32_bytes(lo)[i] by {
        assert(le_u64_bytes(x)[i] == le_u32_bytes(lo)[i]);
    }
    assert forall|i: int| 0 <= i < 4 implies s[(at + 4) + i] == #[trigger] le_u32_bytes(hi)[i] by {
        assert(le_u64_bytes(x)[4 + i] == le_u32_bytes(hi)[i]);
        assert(s[at + (4 + i)] == le_u64_bytes(x)[4 + i]);
    }
    lemma_le_u32_roundtrip(s, at, lo);
    lemma_le_u32_roundtrip(s, at + 4, hi);
}

/// The host reads back exactly the record the firmware encoded.
#[verifier::spinoff_prover]
pub proof fn lemma_record_roundtrip(r: ProfileRecord)
    ensures
        record_bytes(r).len() == PROFILING_WIRE_SIZE,
        record_bytes(r).subrange(0, 8) == PROFILING_MAGIC@,
        record_of(record_bytes(r)) == r,
{
    let m = PROFILING_MAGIC@;
    let c = le_u32_bytes(r.cpu_hz);
    let t = le_u32_bytes(r.time_ticks_hz);
    let busy = le_u64_bytes(r.busy_cycles);
    let el = le_u64_bytes(r.elapsed_ticks);
    let po = le_u64_bytes(r.executor_polls);
    let hw = le_u32_bytes(r.stack_high_water_bytes);
    let cap = le_u32_bytes(r.stack_capacity_bytes);
    let b = record_bytes(r);
    assert(b == m + c + t + busy + el + po + hw + cap);
    assert(b.len() == 48);
    assert(b.subrange(0, 8) =~= m);
    assert forall|i: int| 0 <= i < 4 implies b[8 + i] == #[trigger] c[i] by {}
    assert forall|i: int| 0 <= i < 4 implies b[12 + i] == #[trigger] t[i] by {}
    assert forall|i: int| 0 <= i < 8 implies b[16 + i] == #[trigger] busy[i] by {}
    assert forall|i: int| 0 <= i < 8 implies b[24 + i] == #[trigger] el[i] by {}
    assert forall|i: int| 0 <= i < 8 implies b[32 + i] == #[trigger] po[i] by {}
    assert forall|i: int| 0 <= i < 4 implies b[40 + i] == #[trigger] hw[i] by {}
    assert forall|i: int| 0 <= i < 4 implies b[44 + i] == #[trigger] cap[i] by {}
    lemma_le_u32_roundtrip(b, 8, r.cpu_hz);
    lemma_le_u32_roundtrip(b, 12, r.time_ticks_hz);
    lemma_le_u64_roundtrip(b, 16, r.busy_cycles);
    lemma_le_u64_roundtrip(b, 24, r.elapsed_ticks);
    lemma_le_u64_roundtrip(b, 32, r.executor_polls);
    lemma_le_u32_roundtrip(b, 40, r.stack_high_water_bytes);
    lemma_le_u32_roundtrip(b, 44, r.stack_capacity_bytes);
}

/// For an accepted record over a nonzero interval, the CPU share is the busy
/// time over the elapsed wall time, in percent:
/// `busy_cycles / cpu_hz` seconds busy out of `elapsed_ticks / time_ticks_hz`
/// seconds. The ratio therefore halves when the elapsed time doubles. The
/// cycles per valid packet are the busy cycles divided by the packets.
pub proof fn lemma_cpu_share_is_busy_over_elapsed(r: ProfileRecord, valid_packets: u64)
    requires
        record_plausible(r),
    ensures
        ({
            let m = spec_metrics(r, valid_packets);
            let p = m.executor_cpu_percent;
            let c = m.cycles_per_valid_packet;
            &&& p.denominator > 0
            &&& c.denominator > 0
            &&& r.elapsed_ticks > 0 ==> p.numerator as int * (r.cpu_hz as int * r.elapsed_ticks as int)
                == r.busy_cycles as int * r.time_ticks_hz as int * 100 * p.denominator as int
            &&& r.elapsed_ticks == 0 ==> p.numerator == 0
            &&& valid_packets > 0 ==> c.numerator as int * valid_packets as int
                == r.busy_cycles as int * c.denominator as int
            &&& valid_packets == 0 ==> c.numerator == 0
        }),
{
    if r.elapsed_ticks > 0 {
        let n = r.busy_cycles as int * r.time_ticks_hz as int * 100;
        let d = r.cpu_hz as int * r.elapsed_ticks as int;
        assert(0 <= n <= u64::MAX as int * u32::MAX as int * 100) by (nonlinear_arith)
            requires
                n == r.busy_cycles as int * r.time_ticks_hz as int * 100,
        ;
        assert(0 < d <= u32::MAX as int * u64::MAX as int) by (nonlinear_arith)
            requires
                d == r.cpu_hz as int * r.elapsed_ticks as int,
                r.cpu_hz > 0,
                r.elapsed_ticks > 0,
        ;
        let p = spec_metrics(r, valid_packets).executor_cpu_percent;
        assert(p.numerator == n);
        assert(p.denominator == d);
        assert(p.numerator as int * d == n * p.denominator as int) by (nonlinear_arith)
            requires
                p.numerator == n,
                p.denominator == d,
        ;
    }
}

} // verus!
