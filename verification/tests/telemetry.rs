use nucleo_h723zg_udp_echo::profiling::{encode_snapshot, ExecutorLoad, ProfileRecord};
use nucleo_h723zg_udp_echo::telemetry::{decode, is_profile_reply, Ratio, TelemetryError};
use nucleo_h723zg_udp_echo::PROFILING_MAGIC;

const RESPONSE_SIZE: usize = 48;
const MAGIC: &[u8; 8] = &PROFILING_MAGIC;

fn value(ratio: Ratio) -> f64 {
    ratio.numerator as f64 / ratio.denominator as f64
}

#[test]
fn telemetry_decode_calculates_cpu_and_memory() {
    let mut bytes = [0u8; RESPONSE_SIZE];
    bytes[..8].copy_from_slice(MAGIC);
    bytes[8..12].copy_from_slice(&400_000_000u32.to_le_bytes());
    bytes[12..16].copy_from_slice(&32_768u32.to_le_bytes());
    bytes[16..24].copy_from_slice(&200_000_000u64.to_le_bytes());
    bytes[24..32].copy_from_slice(&32_768u64.to_le_bytes());
    bytes[32..40].copy_from_slice(&1_000u64.to_le_bytes());
    bytes[40..44].copy_from_slice(&2_048u32.to_le_bytes());
    bytes[44..48].copy_from_slice(&100_000u32.to_le_bytes());
    let metrics = decode(&bytes, 1_000).unwrap();
    assert_eq!(value(metrics.executor_cpu_percent), 50.0);
    assert_eq!(value(metrics.cycles_per_valid_packet), 200_000.0);
    assert_eq!(metrics.static_ram_bytes, 31_072);
}

#[test]
fn reset_reply_may_have_zero_elapsed_time() {
    let mut bytes = [0u8; RESPONSE_SIZE];
    bytes[..8].copy_from_slice(MAGIC);
    bytes[8..12].copy_from_slice(&400_000_000u32.to_le_bytes());
    bytes[12..16].copy_from_slice(&32_768u32.to_le_bytes());
    bytes[44..48].copy_from_slice(&100_000u32.to_le_bytes());

    let metrics = decode(&bytes, 0).unwrap();
    assert_eq!(value(metrics.executor_cpu_percent), 0.0);
}

#[test]
fn implausible_telemetry_is_refused() {
    let mut bytes = [0u8; RESPONSE_SIZE];
    bytes[..8].copy_from_slice(MAGIC);
    bytes[12..16].copy_from_slice(&32_768u32.to_le_bytes());
    assert_eq!(decode(&bytes, 0), Err(TelemetryError::InvalidMetricValues));

    bytes[8..12].copy_from_slice(&400_000_000u32.to_le_bytes());
    bytes[44..48].copy_from_slice(&(128 * 1024 + 1u32).to_le_bytes());
    assert_eq!(decode(&bytes, 0), Err(TelemetryError::InvalidMetricValues));
}

#[test]
fn firmware_record_decodes_on_the_host() {
    let mut load = ExecutorLoad::reset(1_000, 50);
    load.poll_start(3_000);
    load.executor_idle(5_000);
    load.poll_start(u32::MAX - 9);
    let record = load.snapshot(10, 32_818, 2_048, 100_000);
    assert_eq!(record.busy_cycles, 4_000 + 20);
    assert_eq!(record.elapsed_ticks, 32_768);
    assert_eq!(record.executor_polls, 2);
    let bytes = encode_snapshot(&record);
    assert!(is_profile_reply(&bytes, 48));
    assert!(!is_profile_reply(&bytes, 47));
    let metrics = decode(&bytes, 4).unwrap();
    assert_eq!(metrics.busy_cycles, record.busy_cycles);
    assert_eq!(metrics.elapsed_ticks, 32_768);
    assert_eq!(metrics.executor_polls, 2);
    assert_eq!(metrics.stack_high_water_bytes, 2_048);
    assert_eq!(
        metrics.cycles_per_valid_packet,
        Ratio { numerator: 4_020, denominator: 4 }
    );
    let _: ProfileRecord = record;
}
