use nucleo_h723zg_udp_echo::bench_protocol::{decode, encode, Header, HEADER_LEN};
use nucleo_h723zg_udp_echo::counters::PacketCounters;
use nucleo_h723zg_udp_echo::bench_runner::{
    check_reply, classify_receipt, has_receive_room, raw_packet, reliable_range,
    saturation_everywhere, soak_intervals, BurstReply, BurstTracker,
    LoadLedger, LoadTally, PayloadPlan, Receipt, ReplyCheck, EXPIRED, OUTSTANDING, RECEIVED,
    SEND_FAILED, UNSENT,
};

#[test]
fn deterministic_small_packets_change_with_sequence() {
    assert_ne!(raw_packet(8, 1, 1), raw_packet(8, 1, 2));
    assert_eq!(raw_packet(8, 1, 1), raw_packet(8, 1, 1));
}

#[test]
fn instrumented_raw_packets_carry_a_zero_timestamp() {
    let packet = raw_packet(64, 9, 3);
    assert_eq!(packet.len(), 64);
    assert_eq!(
        decode(&packet),
        Ok(Header {
            run_id: 9,
            sequence: 3,
            sent_ns: 0
        })
    );
    assert_eq!(raw_packet(0, 1, 1), Vec::<u8>::new());
}

#[test]
fn payload_plan_hits_requested_bit_budget() {
    let plan = PayloadPlan::mixed(&[64, 512, 1472], 1_000_000, 7);
    let bits = plan
        .sizes
        .iter()
        .map(|size| u64::from(*size) * 8)
        .sum::<u64>();
    assert!(bits >= 1_000_000);
    assert!(bits < 1_000_000 + 1472 * 8);
    assert!(plan.fixed_size.is_none());
    assert!(plan.sizes.iter().all(|size| [64, 512, 1472].contains(size)));
}

#[test]
fn mixed_plan_is_reproducible_from_its_seed() {
    let first = PayloadPlan::mixed(&[64, 512, 1472], 100_000, 11);
    let second = PayloadPlan::mixed(&[64, 512, 1472], 100_000, 11);
    assert_eq!(first.sizes, second.sizes);
    let zero = PayloadPlan::mixed(&[64, 512], 10_000, 0);
    let one = PayloadPlan::mixed(&[64, 512], 10_000, 1);
    assert_eq!(zero.sizes, one.sizes);
    assert!(PayloadPlan::mixed(&[64], 0, 5).sizes.is_empty());
}

#[test]
fn fixed_plan_rounds_up_to_whole_packets() {
    let plan = PayloadPlan::fixed(100, 8_001);
    assert_eq!(plan.sizes, vec![100u16; 11]);
    assert_eq!(plan.fixed_size, Some(100));
    assert_eq!(PayloadPlan::fixed(100, 8_000).sizes.len(), 10);
    assert_eq!(PayloadPlan::fixed(64, 0).sizes.len(), 1);
}

#[test]
fn sequence_accounting_classifies_valid_late_duplicate_and_foreign() {
    assert_eq!(classify_receipt(OUTSTANDING), Receipt::Valid);
    assert_eq!(classify_receipt(RECEIVED), Receipt::Duplicate);
    assert_eq!(classify_receipt(EXPIRED), Receipt::Late);
    assert_eq!(classify_receipt(UNSENT), Receipt::Foreign);
    assert_eq!(classify_receipt(SEND_FAILED), Receipt::Foreign);

    let mut ledger = LoadLedger::new(3);
    ledger.mark_sent(0, 100);
    assert_eq!(ledger.outstanding(), 1);
    assert_eq!(ledger.receive(0), Receipt::Valid);
    assert_eq!(ledger.outstanding(), 0);
    assert_eq!(ledger.receive(0), Receipt::Duplicate);
    assert_eq!(ledger.receive(2), Receipt::Foreign);
}

#[test]
fn ledger_expires_only_timed_out_packets_in_order() {
    let mut ledger = LoadLedger::new(4);
    ledger.mark_sent(0, 0);
    ledger.mark_sent(1, 50);
    ledger.mark_sent(2, 90);
    ledger.mark_send_failed(2);
    assert_eq!(ledger.outstanding(), 2);
    ledger.expire_old(3, 120, 100);
    assert_eq!(ledger.outstanding(), 1);
    assert_eq!(ledger.receive(0), Receipt::Late);
    assert_eq!(ledger.receive(1), Receipt::Valid);
    assert_eq!(ledger.outstanding(), 0);
    let (sent, valid) = ledger.payload_bytes(&[10, 20, 30, 40]);
    // Packet 2 could not be sent and packet 3 never left the host.
    assert_eq!(sent, 10 + 20);
    assert_eq!(valid, 10 + 20);
}

#[test]
fn load_replies_are_checked_and_tallied() {
    let sizes = [64u16, 64, 64];
    let packet = encode(
        64,
        Header {
            run_id: 5,
            sequence: 1,
            sent_ns: 7,
        },
    )
    .unwrap();
    assert!(matches!(check_reply(&packet, 5, &sizes), ReplyCheck::Accepted(h) if h.sequence == 1));
    assert_eq!(check_reply(&packet, 6, &sizes), ReplyCheck::Foreign);
    assert_eq!(check_reply(&packet[..63], 5, &sizes), ReplyCheck::Corrupt);
    let mut corrupt = packet.clone();
    corrupt[HEADER_LEN] ^= 1;
    assert_eq!(check_reply(&corrupt, 5, &sizes), ReplyCheck::Corrupt);

    let mut tally = LoadTally::new();
    tally.record_receipt(Receipt::Valid, 2, 10, 100);
    tally.record_receipt(Receipt::Valid, 1, 200, 100);
    tally.record_receipt(Receipt::Duplicate, 1, 5, 100);
    tally.record_receipt(Receipt::Late, 0, 5, 100);
    tally.record_check(ReplyCheck::Corrupt);
    assert_eq!(tally.counters.valid_replies, 3);
    assert_eq!(tally.counters.late, 2);
    assert_eq!(tally.counters.reordered, 2);
    assert_eq!(tally.counters.duplicates, 1);
    assert_eq!(tally.counters.corrupt, 1);
    assert_eq!(tally.samples, vec![10, 200, 5]);
}

#[test]
fn burst_tracker_counts_complete_bursts() {
    let mut tracker = BurstTracker::new(3, 64);
    tracker.begin_burst(10, 2);
    tracker.record_send(true, 100);
    tracker.record_send(true, 110);
    let reply = |sequence| {
        encode(
            64,
            Header {
                run_id: 3,
                sequence,
                sent_ns: 0,
            },
        )
        .unwrap()
    };
    assert_eq!(tracker.record_reply(&reply(11), 150), BurstReply::New(1));
    assert_eq!(tracker.record_reply(&reply(10), 170), BurstReply::New(0));
    assert_eq!(tracker.record_reply(&reply(10), 171), BurstReply::Duplicate);
    assert_eq!(tracker.record_reply(&reply(12), 172), BurstReply::Foreign);
    assert!(tracker.burst_complete());
    tracker.end_burst();
    tracker.begin_burst(12, 1);
    tracker.record_send(false, 0);
    tracker.end_burst();
    tracker.finish();
    assert_eq!(tracker.complete_bursts, 1);
    assert_eq!(tracker.counters.planned, 3);
    assert_eq!(tracker.counters.sent, 2);
    assert_eq!(tracker.counters.send_errors, 1);
    assert_eq!(tracker.counters.valid_replies, 2);
    assert_eq!(tracker.counters.reordered, 1);
    assert_eq!(tracker.counters.missing, 0);
    assert_eq!(tracker.samples, vec![40, 70]);
}

#[test]
fn sweep_reports_the_reliable_prefix() {
    assert_eq!(reliable_range(&[true, true, false, true]), (Some(1), Some(2)));
    assert_eq!(reliable_range(&[false, true]), (None, Some(0)));
    assert_eq!(reliable_range(&[true, true]), (Some(1), None));
    assert_eq!(reliable_range(&[]), (None, None));
}

#[test]
fn a_soak_is_cut_into_whole_intervals_and_a_remainder() {
    assert_eq!(soak_intervals(900, 60), vec![60; 15]);
    assert_eq!(soak_intervals(130, 60), vec![60, 60, 10]);
    assert_eq!(soak_intervals(30, 60), vec![30]);
    assert_eq!(soak_intervals(0, 60), Vec::<u64>::new());
}

#[test]
fn unsent_packets_carry_no_offered_payload() {
    let mut ledger = LoadLedger::new(2);
    assert_eq!(ledger.payload_bytes(&[100, 100]), (0, 0));
    ledger.mark_sent(0, 5);
    assert_eq!(ledger.payload_bytes(&[100, 100]), (100, 0));
    ledger.expire_old(1, 500, 100);
    assert_eq!(ledger.payload_bytes(&[100, 100]), (100, 0));
    ledger.receive(0);
    assert_eq!(ledger.payload_bytes(&[100, 100]), (100, 100));
}

#[test]
fn a_trial_counts_every_sent_packet_without_a_valid_reply_as_missing() {
    let mut tally = LoadTally::new();
    tally.record_receipt(Receipt::Valid, 0, 10, 100);
    tally.record_receipt(Receipt::Valid, 1, 10, 100);
    tally.record_check(ReplyCheck::Corrupt);
    let counters = tally.trial_counters(10, 8, 2);
    assert_eq!(counters.planned, 10);
    assert_eq!(counters.sent, 8);
    assert_eq!(counters.send_errors, 2);
    assert_eq!(counters.valid_replies, 2);
    assert_eq!(counters.missing, 6);
    assert_eq!(counters.corrupt, 1);
    assert!(has_receive_room(&counters));
    let full = PacketCounters { foreign: u64::MAX, ..counters };
    assert!(!has_receive_room(&full));
}

#[test]
fn the_suite_needs_saturation_for_every_size() {
    assert!(saturation_everywhere(&[true, true]));
    assert!(saturation_everywhere(&[]));
    assert!(!saturation_everywhere(&[true, false, true]));
}

#[test]
fn every_valid_reply_leaves_one_sample() {
    let mut tally = LoadTally::new();
    tally.record_receipt(Receipt::Valid, 3, 10, 100);
    tally.record_receipt(Receipt::Late, 1, 500, 100);
    tally.record_receipt(Receipt::Duplicate, 1, 10, 100);
    tally.record_receipt(Receipt::Foreign, 9, 10, 100);
    tally.record_check(ReplyCheck::Corrupt);
    assert_eq!(tally.samples.len() as u64, tally.counters.valid_replies);
    assert_eq!(tally.counters.valid_replies, 2);
    assert_eq!(tally.counters.late, 1);
    assert_eq!(tally.counters.reordered, 1);
}
