//! CPU and stack instrumentation of benchmark-only firmware, and the 48-byte
//! telemetry record that carries it to the host benchmark.
//!
//! The firmware times the executor's busy intervals with the Cortex-M7 cycle
//! counter; [`ExecutorLoad`] keeps that account. The host decodes the record
//! with [`decode_telemetry`].
use vstd::prelude::*;

use crate::telemetry::{lemma_le_u32_roundtrip, lemma_le_u64_roundtrip};
use crate::update_header::le_u32_at;
use crate::{PROFILING_MAGIC, PROFILING_WIRE_SIZE};

verus! {

/// Core clock of the profiling firmware.
pub const CPU_HZ: u32 = 400_000_000;

/// Tick rate of the firmware's wall clock.
pub const TIME_TICKS_HZ: u32 = 32_768;

/// Word written over the unused stack at reset.
pub const STACK_PAINT: u32 = 0xCCCC_CCCC;

/// RAM available to static data and the stack together.
pub const RAM_BYTES: u32 = 128 * 1024;

/// Busy-time account of the executor since the last reset.
pub struct ExecutorLoad {
    /// Cycles spent in closed busy intervals.
    pub busy_cycles: u64,
    /// Executor polls started.
    pub polls: u64,
    /// Cycle counter value at which the open busy interval began, if any.
    pub active_since: Option<u32>,
    /// Wall-clock ticks at the last reset.
    pub reset_ticks: u64,
}

/// Cycles elapsed from `start` to `now` on the wrapping 32-bit cycle counter.
pub open spec fn cycles_between(start: u32, now: u32) -> u64 {
    now.wrapping_sub(start) as u64
}

/// The values one profiling record reports.
#[derive(Clone, Copy, Debug, PartialEq, Eq, Structural)]
pub struct ProfileRecord {
    pub cpu_hz: u32,
    pub time_ticks_hz: u32,
    pub busy_cycles: u64,
    pub elapsed_ticks: u64,
    pub executor_polls: u64,
    pub stack_high_water_bytes: u32,
    pub stack_capacity_bytes: u32,
}

impl ExecutorLoad {
    /// A fresh account whose busy interval starts at cycle `now_cycles`.
    pub fn reset(now_cycles: u32, now_ticks: u64) -> (load: Self)
        ensures
            load.busy_cycles == 0,
            load.polls == 0,
            load.active_since == Some(now_cycles),
            load.reset_ticks == now_ticks,
    {
        ExecutorLoad { busy_cycles: 0, polls: 0, active_since: Some(now_cycles), reset_ticks: now_ticks }
    }

    /// The executor starts a poll at cycle `now`. A still-open busy interval
    /// is closed first, so no time is lost and the 32-bit counter cannot wrap
    /// between samples.
    pub fn poll_start(&mut self, now: u32)
        requires
            old(self).busy_cycles + match old(self).active_since {
                Some(start) => cycles_between(start, now) as int,
                None => 0,
            } <= u64::MAX,
            old(self).polls < u64::MAX,
        ensures
            final(self).busy_cycles == old(self).busy_cycles + match old(self).active_since {
                Some(start) => cycles_between(start, now) as int,
                None => 0,
            },
            final(self).active_since == Some(now),
            final(self).polls == old(self).polls + 1,
            final(self).reset_ticks == old(self).reset_ticks,
    {
        if let Some(start) = self.active_since {
            self.busy_cycles = self.busy_cycles + now.wrapping_sub(start) as u64;
        }
        self.active_since = Some(now);
        self.polls = self.polls + 1;
    }

    /// The executor becomes idle at cycle `now`, closing any busy interval.
    pub fn executor_idle(&mut self, now: u32)
        requires
            old(self).busy_cycles + match old(self).active_since {
                Some(start) => cycles_between(start, now) as int,
                None => 0,
            } <= u64::MAX,
        ensures
            final(self).busy_cycles == old(self).busy_cycles + match old(self).active_since {
                Some(start) => cycles_between(start, now) as int,
                None => 0,
            },
            final(self).active_since is None,
            final(self).polls == old(self).polls,
            final(self).reset_ticks == old(self).reset_ticks,
    {
        if let Some(start) = self.active_since {
            self.busy_cycles = self.busy_cycles + now.wrapping_sub(start) as u64;
            self.active_since = None;
        }
    }

    /// The record reported at cycle `now_cycles` and tick `now_ticks`, with
    /// the stack figures measured by [`stack_high_water`].
    pub fn snapshot(
        &self,
        now_cycles: u32,
        now_ticks: u64,
        stack_high_water_bytes: u32,
        stack_capacity_bytes: u32,
    ) -> (record: ProfileRecord)
        requires
            self.busy_cycles + match self.active_since {
                Some(start) => cycles_between(start, now_cycles) as int,
                None => 0,
            } <= u64::MAX,
        ensures
            record.cpu_hz == CPU_HZ,
            record.time_ticks_hz == TIME_TICKS_HZ,
            record.busy_cycles == self.busy_cycles + match self.active_since {
                Some(start) => cycles_between(start, now_cycles) as int,
                None => 0,
            },
            record.elapsed_ticks == if now_ticks >= self.reset_ticks {
                now_ticks - self.reset_ticks
            } else {
                0
            },
            record.executor_polls == self.polls,
            record.stack_high_water_bytes == stack_high_water_bytes,
            record.stack_capacity_bytes == stack_capacity_bytes,
    {
        let active = match self.active_since {
            Some(start) => now_cycles.wrapping_sub(start) as u64,
            None => 0,
        };
        ProfileRecord {
            cpu_hz: CPU_HZ,
            time_ticks_hz: TIME_TICKS_HZ,
            busy_cycles: self.busy_cycles + active,
            elapsed_ticks: now_ticks.saturating_sub(self.reset_ticks),
            executor_polls: self.polls,
            stack_high_water_bytes,
            stack_capacity_bytes,
        }
    }
}

/// Stack use from the painted stack area `words`, listed from its lowest
/// address up: the words above the lowest overwritten one are in use.
/// Returns the used and the total size in bytes.
pub fn stack_high_water(words: &[u32]) -> (usage: (u32, u32))
    requires
        words@.len() * 4 <= u32::MAX,
    ensures
        usage.1 == words@.len() * 4,
        usage.0 % 4 == 0,
        usage.0 <= usage.1,
        forall|i: int| 0 <= i < words@.len() - usage.0 / 4 ==> words@[i] == STACK_PAINT,
        usage.0 > 0 ==> words@[words@.len() - usage.0 / 4] != STACK_PAINT,
{
    let n = words.len();
    let mut cursor: usize = 0;
    while cursor < n && words[cursor] == STACK_PAINT
        invariant
            n == words@.len(),
            cursor <= n,
            forall|i: int| 0 <= i < cursor ==> words@[i] == STACK_PAINT,
        decreases n - cursor,
    {
        cursor = cursor + 1;
    }
    assert(cursor < n ==> words@[cursor as int] != STACK_PAINT);
    (((n - cursor) * 4) as u32, (n * 4) as u32)
}

/// The four little-endian bytes of `x`.
pub open spec fn le_u32_bytes(x: u32) -> Seq<u8> {
    seq![
        (x % 0x100) as u8,
        (x / 0x100 % 0x100) as u8,
        (x / 0x1_0000 % 0x100) as u8,
        (x / 0x100_0000 % 0x100) as u8,
    ]
}

/// The eight little-endian bytes of `x`.
pub open spec fn le_u64_bytes(x: u64) -> Seq<u8> {
    le_u32_bytes((x % 0x1_0000_0000) as u32) + le_u32_bytes((x / 0x1_0000_0000) as u32)
}

/// The value of the eight little-endian bytes of `s` that start at `at`.
pub open spec fn le_u64_at(s: Seq<u8>, at: int) -> int {
    le_u32_at(s, at) + le_u32_at(s, at + 4) * 0x1_0000_0000
}

/// The 48 bytes of a profiling record.
pub open spec fn record_bytes(r: ProfileRecord) -> Seq<u8> {
    PROFILING_MAGIC@ + le_u32_bytes(r.cpu_hz) + le_u32_bytes(r.time_ticks_hz) + le_u64_bytes(
        r.busy_cycles,
    ) + le_u64_bytes(r.elapsed_ticks) + le_u64_bytes(r.executor_polls) + le_u32_bytes(
        r.stack_high_water_bytes,
    ) + le_u32_bytes(r.stack_capacity_bytes)
}

/// Store `value` little-endian at `offset`; the other bytes stay, and the
/// four bytes read back as `value`.
pub fn put_u32(output: &mut [u8; PROFILING_WIRE_SIZE], offset: usize, value: u32)
    requires
        offset + 4 <= PROFILING_WIRE_SIZE,
    ensures
        final(output)@ == old(output)@.subrange(0, offset as int) + le_u32_bytes(value) + old(
            output,
        )@.subrange(offset + 4, PROFILING_WIRE_SIZE as int),
        le_u32_at(final(output)@, offset as int) == value,
{
    output[offset] = (value % 0x100) as u8;
    output[offset + 1] = (value / 0x100 % 0x100) as u8;
    output[offset + 2] = (value / 0x1_0000 % 0x100) as u8;
    output[offset + 3] = (value / 0x100_0000 % 0x100) as u8;
    assert(output@ =~= old(output)@.subrange(0, offset as int) + le_u32_bytes(value) + old(
        output,
    )@.subrange(offset + 4, PROFILING_WIRE_SIZE as int));
    proof {
        lemma_le_u32_roundtrip(output@, offset as int, value);
    }
}

/// Store `value` little-endian at `offset`; the other bytes stay, and the
/// eight bytes read back as `value`.
pub fn put_u64(output: &mut [u8; PROFILING_WIRE_SIZE], offset: usize, value: u64)
    requires
        offset + 8 <= PROFILING_WIRE_SIZE,
    ensures
        final(output)@ == old(output)@.subrange(0, offset as int) + le_u64_bytes(value) + old(
            output,
        )@.subrange(offset + 8, PROFILING_WIRE_SIZE as int),
        le_u64_at(final(output)@, offset as int) == value,
{
    put_u32(output, offset, (value % 0x1_0000_0000) as u32);
    put_u32(output, offset + 4, (value / 0x1_0000_0000) as u32);
    assert(output@ =~= old(output)@.subrange(0, offset as int) + le_u64_bytes(value) + old(
        output,
    )@.subrange(offset + 8, PROFILING_WIRE_SIZE as int));
    proof {
        lemma_le_u64_roundtrip(output@, offset as int, value);
    }
}

/// Encode one profiling record for the wire.
pub fn encode_snapshot(record: &ProfileRecord) -> (output: [u8; PROFILING_WIRE_SIZE])
    ensures
        output@ == record_bytes(*record),
{
    let mut output = [0u8; PROFILING_WIRE_SIZE];
    let mut i: usize = 0;
    while i < 8
        invariant
            i <= 8,
            forall|j: int| 0 <= j < i ==> output@[j] == PROFILING_MAGIC@[j],
        decreases 8 - i,
    {
        output[i] = PROFILING_MAGIC[i];
        i = i + 1;
    }
    let ghost r = *record;
    assert(output@.subrange(0, 8) =~= PROFILING_MAGIC@);
    let ghost b0 = PROFILING_MAGIC@;
    put_u32(&mut output, 8, record.cpu_hz);
    let ghost b1 = b0 + le_u32_bytes(r.cpu_hz);
    assert(output@.subrange(0, 12) =~= b1);
    put_u32(&mut output, 12, record.time_ticks_hz);
    let ghost b2 = b1 + le_u32_bytes(r.time_ticks_hz);
    assert(output@.subrange(0, 16) =~= b2);
    put_u64(&mut output, 16, record.busy_cycles);
    let ghost b3 = b2 + le_u64_bytes(r.busy_cycles);
    assert(output@.subrange(0, 24) =~= b3);
    put_u64(&mut output, 24, record.elapsed_ticks);
    let ghost b4 = b3 + le_u64_bytes(r.elapsed_ticks);
    assert(output@.subrange(0, 32) =~= b4);
    put_u64(&mut output, 32, record.executor_polls);
    let ghost b5 = b4 + le_u64_bytes(r.executor_polls);
    assert(output@.subrange(0, 40) =~= b5);
    put_u32(&mut output, 40, record.stack_high_water_bytes);
    let ghost b6 = b5 + le_u32_bytes(r.stack_high_water_bytes);
    assert(output@.subrange(0, 44) =~= b6);
    put_u32(&mut output, 44, record.stack_capacity_bytes);
    assert(output@.subrange(0, 48) =~= b6 + le_u32_bytes(r.stack_capacity_bytes));
    assert(output@ =~= record_bytes(*record));
    output
}

/// What a profiling request asks for.
#[derive(Clone, Copy, Debug, PartialEq, Eq, Structural)]
pub enum ProfileOperation {
    /// Reset the account, then reply with a snapshot.
    Reset,
    /// Reply with a snapshot.
    Snapshot,
}

/// The operation that the first `length` bytes of `request` ask for: at
/// least nine bytes starting with the profiling marker, then `R` to reset or
/// anything else for a snapshot. Other datagrams are ignored.
pub fn profile_operation(request: &[u8], length: usize) -> (operation: Option<ProfileOperation>)
    requires
        length <= request@.len(),
    ensures
        operation is Some <==> (length >= 9 && request@.subrange(0, 8) == PROFILING_MAGIC@),
        operation == Some(ProfileOperation::Reset) <==> (length >= 9 && request@.subrange(0, 8)
            == PROFILING_MAGIC@ && request@[8] == 0x52u8),
{
    if length < 9 {
        return None;
    }
    let mut i: usize = 0;
    while i < 8
        invariant
            9 <= length <= request@.len(),
            i <= 8,
            forall|j: int| 0 <= j < i ==> request@[j] == PROFILING_MAGIC@[j],
        decreases 8 - i,
    {
        if request[i] != PROFILING_MAGIC[i] {
            assert(request@.subrange(0, 8)[i as int] != PROFILING_MAGIC@[i as int]);
            return None;
        }
        i = i + 1;
    }
    assert(request@.subrange(0, 8) =~= PROFILING_MAGIC@);
    if request[8] == 0x52u8 {
        Some(ProfileOperation::Reset)
    } else {
        Some(ProfileOperation::Snapshot)
    }
}

} // verus!
