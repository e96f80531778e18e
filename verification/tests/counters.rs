use nucleo_h723zg_udp_echo::counters::{
    add_counters, counters_fit, counters_markdown, error_events_fit, exact_delivery,
    stream_error_events, PacketCounters,
};

#[test]
fn stream_error_events_sums_the_logged_error_categories() {
    let counters = PacketCounters {
        missing: 1,
        late: 2,
        duplicates: 3,
        reordered: 4,
        corrupt: 5,
        foreign: 6,
        send_errors: 7,
        ..PacketCounters::default()
    };
    assert_eq!(stream_error_events(&counters), 28);
}

#[test]
fn stream_reliability_requires_complete_exact_delivery() {
    let perfect = PacketCounters {
        planned: 1_000,
        sent: 1_000,
        valid_replies: 1_000,
        ..PacketCounters::default()
    };
    assert!(exact_delivery(&perfect));

    let mut loss = perfect.clone();
    loss.valid_replies -= 1;
    loss.missing = 1;
    assert!(!exact_delivery(&loss));

    let mut late = perfect;
    late.late = 1;
    assert!(!exact_delivery(&late));
}

#[test]
fn counters_accumulate_field_by_field() {
    let mut total = PacketCounters {
        planned: 10,
        sent: 9,
        send_errors: 1,
        ..PacketCounters::default()
    };
    let trial = PacketCounters {
        planned: 5,
        sent: 5,
        valid_replies: 4,
        missing: 1,
        reordered: 2,
        ..PacketCounters::default()
    };
    add_counters(&mut total, &trial);
    assert_eq!(total.planned, 15);
    assert_eq!(total.sent, 14);
    assert_eq!(total.valid_replies, 4);
    assert_eq!(total.missing, 1);
    assert_eq!(total.reordered, 2);
    assert_eq!(total.send_errors, 1);
    assert_eq!(total.late, 0);
}

#[test]
fn counters_markdown_lists_the_counts_in_decimal() {
    let counters = PacketCounters {
        sent: 1_000,
        valid_replies: 998,
        missing: 2,
        late: 0,
        duplicates: 10,
        reordered: 3,
        corrupt: 18_446_744_073_709_551_615,
        ..PacketCounters::default()
    };
    assert_eq!(
        counters_markdown(&counters),
        "Sent: 1000; valid: 998; missing: 2; late: 0; duplicates: 10; reordered: 3; corrupt: 18446744073709551615."
    );
}

#[test]
fn overflowing_sums_are_recognised_before_adding() {
    let total = PacketCounters { late: u64::MAX - 1, ..PacketCounters::default() };
    let one = PacketCounters { late: 1, ..PacketCounters::default() };
    let two = PacketCounters { late: 2, ..PacketCounters::default() };
    assert!(counters_fit(&total, &one));
    assert!(!counters_fit(&total, &two));
    assert!(error_events_fit(&total));
    let both = PacketCounters { late: u64::MAX - 1, corrupt: 2, ..PacketCounters::default() };
    assert!(!error_events_fit(&both));
}
