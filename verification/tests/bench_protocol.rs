use nucleo_h723zg_udp_echo::bench_protocol::{decode, encode, validate_payload, Header, HEADER_LEN};

#[test]
fn packet_round_trips_and_validates() {
    let expected = Header {
        run_id: 0x1122_3344_5566_7788,
        sequence: 42,
        sent_ns: 987_654_321,
    };
    let packet = encode(1472, expected).unwrap();

    assert_eq!(decode(&packet), Ok(expected));
    assert!(validate_payload(&packet, expected));
}

#[test]
fn corruption_is_detected() {
    let header = Header {
        run_id: 1,
        sequence: 2,
        sent_ns: 3,
    };
    let mut packet = encode(64, header).unwrap();
    packet[47] ^= 0x80;

    assert!(!validate_payload(&packet, header));
}

#[test]
fn short_instrumented_packet_is_rejected() {
    assert!(
        encode(
            HEADER_LEN - 1,
            Header {
                run_id: 0,
                sequence: 0,
                sent_ns: 0
            }
        )
        .is_err()
    );
}
