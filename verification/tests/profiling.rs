//! The firmware's CPU-load account, stack watermark and profiling replies.

use nucleo_h723zg_udp_echo::profiling::{
    encode_snapshot, profile_operation, put_u32, put_u64, stack_high_water, ExecutorLoad,
    ProfileOperation,
    ProfileRecord, CPU_HZ, STACK_PAINT, TIME_TICKS_HZ,
};
use nucleo_h723zg_udp_echo::telemetry::{u32_at, u64_at};
use nucleo_h723zg_udp_echo::PROFILING_MAGIC;

#[test]
fn busy_time_accumulates_between_poll_and_idle() {
    let mut load = ExecutorLoad::reset(1_000, 50);
    load.executor_idle(1_600);
    assert_eq!(load.busy_cycles, 600);
    assert_eq!(load.active_since, None);

    load.poll_start(2_000);
    assert_eq!(load.polls, 1);
    load.poll_start(2_500);
    assert_eq!(load.busy_cycles, 1_100);
    assert_eq!(load.polls, 2);
    load.executor_idle(3_000);
    assert_eq!(load.busy_cycles, 1_600);

    let record = load.snapshot(9_000, 150, 256, 4_096);
    assert_eq!(
        record,
        ProfileRecord {
            cpu_hz: CPU_HZ,
            time_ticks_hz: TIME_TICKS_HZ,
            busy_cycles: 1_600,
            elapsed_ticks: 100,
            executor_polls: 2,
            stack_high_water_bytes: 256,
            stack_capacity_bytes: 4_096,
        }
    );
}

#[test]
fn the_cycle_counter_may_wrap_during_a_poll() {
    let mut load = ExecutorLoad::reset(u32::MAX - 9, 0);
    load.executor_idle(10);
    assert_eq!(load.busy_cycles, 20);
}

#[test]
fn a_snapshot_counts_the_poll_in_progress() {
    let load = ExecutorLoad::reset(100, 10);
    let record = load.snapshot(400, 5, 0, 0);
    assert_eq!(record.busy_cycles, 300);
    // A tick counter behind the reset gives no negative elapsed time.
    assert_eq!(record.elapsed_ticks, 0);
}

#[test]
fn the_watermark_is_the_stack_below_the_first_overwritten_word() {
    let mut words = vec![STACK_PAINT; 16];
    assert_eq!(stack_high_water(&words), (0, 64));
    words[10] = 0;
    assert_eq!(stack_high_water(&words), (24, 64));
    words[0] = 1;
    assert_eq!(stack_high_water(&words), (64, 64));
    assert_eq!(stack_high_water(&[]), (0, 0));
}

#[test]
fn a_snapshot_is_sent_as_little_endian_fields_after_the_marker() {
    let record = ProfileRecord {
        cpu_hz: 400_000_000,
        time_ticks_hz: 32_768,
        busy_cycles: 0x0102_0304_0506_0708,
        elapsed_ticks: 1_000,
        executor_polls: 2_048,
        stack_high_water_bytes: 100_000,
        stack_capacity_bytes: 131_072,
    };
    let bytes = encode_snapshot(&record);
    assert_eq!(bytes[..8], PROFILING_MAGIC);
    assert_eq!(bytes[8..12], 400_000_000u32.to_le_bytes());
    assert_eq!(bytes[12..16], 32_768u32.to_le_bytes());
    assert_eq!(bytes[16..24], [8, 7, 6, 5, 4, 3, 2, 1]);
    assert_eq!(bytes[24..32], 1_000u64.to_le_bytes());
    assert_eq!(bytes[32..40], 2_048u64.to_le_bytes());
    assert_eq!(bytes[40..44], 100_000u32.to_le_bytes());
    assert_eq!(bytes[44..48], 131_072u32.to_le_bytes());
}

#[test]
fn requests_need_the_marker_and_an_operation_byte() {
    let mut request = [0u8; 16];
    request[..8].copy_from_slice(&PROFILING_MAGIC);
    request[8] = b'R';
    assert_eq!(profile_operation(&request, 9), Some(ProfileOperation::Reset));
    request[8] = b'S';
    assert_eq!(profile_operation(&request, 16), Some(ProfileOperation::Snapshot));
    assert_eq!(profile_operation(&request, 8), None);
    request[3] ^= 1;
    assert_eq!(profile_operation(&request, 9), None);
}

#[test]
fn stored_fields_read_back_and_leave_the_rest() {
    let mut record = [0xaau8; 48];
    put_u32(&mut record, 40, 0x1234_5678);
    assert_eq!(u32_at(&record, 40), 0x1234_5678);
    assert_eq!(record[40..44], [0x78, 0x56, 0x34, 0x12]);
    assert!(record[..40].iter().chain(record[44..].iter()).all(|b| *b == 0xaa));
    put_u64(&mut record, 16, 0x0102_0304_0506_0708);
    assert_eq!(u64_at(&record, 16), 0x0102_0304_0506_0708);
    assert_eq!(u32_at(&record, 40), 0x1234_5678);
}
