//! Order statistics of round-trip samples.

use nucleo_h723zg_udp_echo::stats::{order_stats, OrderStats};

#[test]
fn empty_summary_is_zeroed() {
    assert_eq!(order_stats(&[]).samples, 0);
    assert_eq!(
        order_stats(&[]),
        OrderStats {
            samples: 0,
            min_ns: 0,
            p50_ns: 0,
            p90_ns: 0,
            p95_ns: 0,
            p99_ns: 0,
            p999_ns: 0,
            max_ns: 0,
        }
    );
}

#[test]
fn percentiles_and_mean_are_deterministic() {
    let result = order_stats(&[50, 10, 40, 20, 30]);
    assert_eq!(result.min_ns, 10);
    assert_eq!(result.p50_ns, 30);
    assert_eq!(result.p90_ns, 50);
    assert_eq!(result.max_ns, 50);
    assert_eq!(result.samples, 5);
}

#[test]
fn percentiles_round_their_position_up() {
    // Eleven samples: positions 5, 9, 10, 10 and 10 of 0..=10.
    let samples: Vec<u64> = (0..11).rev().map(|i| i * 100).collect();
    let result = order_stats(&samples);
    assert_eq!(result.p50_ns, 500);
    assert_eq!(result.p90_ns, 900);
    assert_eq!(result.p95_ns, 1000);
    assert_eq!(result.p99_ns, 1000);
    assert_eq!(result.p999_ns, 1000);

    // 1001 samples: position 999 for the 99.9th percentile.
    let samples: Vec<u64> = (0..1001).collect();
    let result = order_stats(&samples);
    assert_eq!(result.p50_ns, 500);
    assert_eq!(result.p90_ns, 900);
    assert_eq!(result.p99_ns, 990);
    assert_eq!(result.p999_ns, 999);
    assert_eq!(result.max_ns, 1000);
}

#[test]
fn percentile_positions_agree_with_the_floating_point_rule() {
    for count in 1usize..2_000 {
        let samples: Vec<u64> = (0..count as u64).collect();
        let result = order_stats(&samples);
        let position = |fraction: f64| ((count - 1) as f64 * fraction).ceil() as u64;
        assert_eq!(result.p50_ns, position(0.50));
        assert_eq!(result.p90_ns, position(0.90));
        assert_eq!(result.p95_ns, position(0.95));
        assert_eq!(result.p99_ns, position(0.99));
        assert_eq!(result.p999_ns, position(0.999));
    }
}

#[test]
fn duplicate_samples_are_kept() {
    let result = order_stats(&[7, 7, 7, 1]);
    assert_eq!(result.samples, 4);
    assert_eq!(result.min_ns, 1);
    assert_eq!(result.p50_ns, 7);
    assert_eq!(result.max_ns, 7);
}
