//! On-wire benchmark packet format.
//!
//! The embedded application remains an ordinary echo server. Only the host
//! benchmark knows that the echoed bytes contain a run ID, sequence,
//! timestamp, and deterministic validation pattern.
use vstd::prelude::*;
use vstd::string::StringExecFns;

verus! {

/// Length of the fixed benchmark header.
pub const HEADER_LEN: usize = 32;

/// Benchmark packet marker ("NUBE").
pub const BENCH_MAGIC: [u8; 4] = [0x4e, 0x55, 0x42, 0x45];

/// Benchmark protocol version.
pub const BENCH_VERSION: u8 = 1;

/// Refusal of a packet that cannot hold the header.
pub const SHORT_PACKET: &'static str = "packet is shorter than the benchmark header";

/// Refusal of a packet with another marker.
pub const WRONG_MAGIC: &'static str = "wrong benchmark magic";

/// Refusal of a packet of another protocol version.
pub const WRONG_VERSION: &'static str = "unsupported benchmark protocol version";

/// Refusal of a packet whose header declares another header length.
pub const WRONG_HEADER_LENGTH: &'static str = "wrong benchmark header length";

/// Identity of one benchmark datagram.
#[derive(Clone, Copy, Debug, PartialEq, Eq, Structural)]
pub struct Header {
    pub run_id: u64,
    pub sequence: u64,
    pub sent_ns: u64,
}

/// The eight big-endian bytes of `x`.
pub open spec fn be_u64_bytes(x: u64) -> Seq<u8> {
    seq![
        (x >> 56u64) as u8,
        (x >> 48u64) as u8,
        (x >> 40u64) as u8,
        (x >> 32u64) as u8,
        (x >> 24u64) as u8,
        (x >> 16u64) as u8,
        (x >> 8u64) as u8,
        x as u8,
    ]
}

/// The value of the eight big-endian bytes of `s` that start at `at`.
pub open spec fn be_u64_at(s: Seq<u8>, at: int) -> u64 {
    (s[at] as u64) << 56u64 | (s[at + 1] as u64) << 48u64 | (s[at + 2] as u64) << 40u64 | (s[at
        + 3] as u64) << 32u64 | (s[at + 4] as u64) << 24u64 | (s[at + 5] as u64) << 16u64 | (s[at
        + 6] as u64) << 8u64 | (s[at + 7] as u64)
}

/// Reading back the big-endian bytes of a value gives the value.
pub proof fn lemma_be_u64_roundtrip(x: u64)
    ensures
        be_u64_bytes(x).len() == 8,
        be_u64_at(be_u64_bytes(x), 0) == x,
{
    let s = be_u64_bytes(x);
    assert(s[0] == (x >> 56u64) as u8);
    assert(s[7] == x as u8);
    assert(((x >> 56u64) as u8 as u64) << 56u64 | ((x >> 48u64) as u8 as u64) << 48u64 | ((x
        >> 40u64) as u8 as u64) << 40u64 | ((x >> 32u64) as u8 as u64) << 32u64 | ((x >> 24u64) as u8
        as u64) << 24u64 | ((x >> 16u64) as u8 as u64) << 16u64 | ((x >> 8u64) as u8 as u64) << 8u64
        | (x as u8 as u64) == x) by (bit_vector);
}

/// Rotation of `x` left by 17 bits.
pub open spec fn rotate_left_17(x: u64) -> u64 {
    x << 17u64 | x >> 47u64
}

/// Deterministic, nontrivial byte number `index` of the payload of a datagram.
pub open spec fn spec_pattern_byte(run_id: u64, sequence: u64, index: u64) -> u8 {
    let v0 = run_id ^ rotate_left_17(sequence) ^ index.wrapping_mul(0x9e37_79b9_7f4a_7c15u64);
    let v1 = v0 ^ (v0 >> 30u64);
    let v2 = v1.wrapping_mul(0xbf58_476d_1ce4_e5b9u64);
    let v3 = v2 ^ (v2 >> 27u64);
    let v4 = v3.wrapping_mul(0x94d0_49bb_1331_11ebu64);
    (v4 ^ (v4 >> 31u64)) as u8
}

/// The 32 header bytes of a benchmark datagram.
pub open spec fn header_bytes(header: Header) -> Seq<u8> {
    BENCH_MAGIC@ + seq![BENCH_VERSION, 0u8, 0u8, HEADER_LEN as u8] + be_u64_bytes(header.run_id)
        + be_u64_bytes(header.sequence) + be_u64_bytes(header.sent_ns)
}

/// The pattern bytes that follow the header of a datagram of `size` bytes.
pub open spec fn payload_bytes(header: Header, size: nat) -> Seq<u8> {
    Seq::new(
        (size - HEADER_LEN) as nat,
        |i: int| spec_pattern_byte(header.run_id, header.sequence, i as u64),
    )
}

/// The complete self-validating datagram of `size` bytes.
pub open spec fn spec_packet(header: Header, size: nat) -> Seq<u8> {
    header_bytes(header) + payload_bytes(header, size)
}

/// What decoding the fixed header of `packet` yields.
pub open spec fn spec_decode(packet: Seq<u8>) -> Result<Header, &'static str> {
    if packet.len() < HEADER_LEN {
        Err(SHORT_PACKET)
    } else if packet.subrange(0, 4) != BENCH_MAGIC@ {
        Err(WRONG_MAGIC)
    } else if packet[4] != BENCH_VERSION {
        Err(WRONG_VERSION)
    } else if packet[6] as int * 256 + packet[7] as int != HEADER_LEN {
        Err(WRONG_HEADER_LENGTH)
    } else {
        Ok(
            Header {
                run_id: be_u64_at(packet, 8),
                sequence: be_u64_at(packet, 16),
                sent_ns: be_u64_at(packet, 24),
            },
        )
    }
}

/// Every byte after the header of `packet` carries the pattern of `header`.
pub open spec fn spec_payload_valid(packet: Seq<u8>, header: Header) -> bool {
    forall|i: int|
        HEADER_LEN <= i < packet.len() ==> packet[i] == spec_pattern_byte(
            header.run_id,
            header.sequence,
            (i - HEADER_LEN) as u64,
        )
}

/// Generate reproducible nontrivial data without a random-number source.
pub fn pattern_byte(run_id: u64, sequence: u64, index: usize) -> (byte: u8)
    ensures
        byte == spec_pattern_byte(run_id, sequence, index as u64),
{
    let rotated = sequence << 17u64 | sequence >> 47u64;
    let mut value = run_id ^ rotated ^ (index as u64).wrapping_mul(0x9e37_79b9_7f4a_7c15u64);
    value = value ^ (value >> 30u64);
    value = value.wrapping_mul(0xbf58_476d_1ce4_e5b9u64);
    value = value ^ (value >> 27u64);
    value = value.wrapping_mul(0x94d0_49bb_1331_11ebu64);
    (value ^ (value >> 31u64)) as u8
}

fn push_u64_be(out: &mut Vec<u8>, x: u64)
    ensures
        final(out)@ == old(out)@ + be_u64_bytes(x),
{
    out.push((x >> 56u64) as u8);
    out.push((x >> 48u64) as u8);
    out.push((x >> 40u64) as u8);
    out.push((x >> 32u64) as u8);
    out.push((x >> 24u64) as u8);
    out.push((x >> 16u64) as u8);
    out.push((x >> 8u64) as u8);
    out.push(x as u8);
    assert(out@ =~= old(out)@ + be_u64_bytes(x));
}

fn read_u64_be(packet: &[u8], at: usize) -> (x: u64)
    requires
        at + 8 <= packet@.len(),
    ensures
        x == be_u64_at(packet@, at as int),
{
    (packet[at] as u64) << 56u64 | (packet[at + 1] as u64) << 48u64 | (packet[at + 2] as u64)
        << 40u64 | (packet[at + 3] as u64) << 32u64 | (packet[at + 4] as u64) << 24u64 | (packet[at
        + 5] as u64) << 16u64 | (packet[at + 6] as u64) << 8u64 | (packet[at + 7] as u64)
}

/// Create one self-validating datagram of exactly `size` bytes.
///
/// Sizes below the header length are refused.
pub fn encode(size: usize, header: Header) -> (packet: Result<Vec<u8>, String>)
    ensures
        size < HEADER_LEN <==> packet is Err,
        packet matches Ok(bytes) ==> bytes@ == spec_packet(header, size as nat),
        packet matches Err(message) ==> message@ == "instrumented packets require at least 32 bytes"@,
{
    if size < HEADER_LEN {
        return Err(String::from_str("instrumented packets require at least 32 bytes"));
    }
    let mut packet: Vec<u8> = Vec::new();
    packet.push(BENCH_MAGIC[0]);
    packet.push(BENCH_MAGIC[1]);
    packet.push(BENCH_MAGIC[2]);
    packet.push(BENCH_MAGIC[3]);
    packet.push(BENCH_VERSION);
    packet.push(0);
    packet.push(0);
    packet.push(HEADER_LEN as u8);
    push_u64_be(&mut packet, header.run_id);
    push_u64_be(&mut packet, header.sequence);
    push_u64_be(&mut packet, header.sent_ns);
    assert(packet@ =~= header_bytes(header));
    let payload_len = size - HEADER_LEN;
    let mut index: usize = 0;
    while index < payload_len
        invariant
            index <= payload_len,
            payload_len == size - HEADER_LEN,
            packet@ =~= header_bytes(header) + payload_bytes(header, size as nat).subrange(
                0,
                index as int,
            ),
        decreases payload_len - index,
    {
        let byte = pattern_byte(header.run_id, header.sequence, index);
        packet.push(byte);
        index = index + 1;
    }
    assert(payload_bytes(header, size as nat).subrange(0, payload_len as int) =~= payload_bytes(
        header,
        size as nat,
    ));
    Ok(packet)
}

/// Decode and validate the fixed header without yet checking payload bytes.
pub fn decode(packet: &[u8]) -> (result: Result<Header, &'static str>)
    ensures
        result == spec_decode(packet@),
{
    if packet.len() < HEADER_LEN {
        return Err(SHORT_PACKET);
    }
    if packet[0] != BENCH_MAGIC[0] || packet[1] != BENCH_MAGIC[1] || packet[2] != BENCH_MAGIC[2]
        || packet[3] != BENCH_MAGIC[3] {
        assert(packet@.subrange(0, 4) != BENCH_MAGIC@) by {
            if packet@.subrange(0, 4) == BENCH_MAGIC@ {
                assert(packet@.subrange(0, 4)[0] == packet@[0]);
                assert(packet@.subrange(0, 4)[3] == packet@[3]);
            }
        }
        return Err(WRONG_MAGIC);
    }
    assert(packet@.subrange(0, 4) =~= BENCH_MAGIC@);
    if packet[4] != BENCH_VERSION {
        return Err(WRONG_VERSION);
    }
    if (packet[6] as usize) * 256 + (packet[7] as usize) != HEADER_LEN {
        return Err(WRONG_HEADER_LENGTH);
    }
    Ok(
        Header {
            run_id: read_u64_be(packet, 8),
            sequence: read_u64_be(packet, 16),
            sent_ns: read_u64_be(packet, 24),
        },
    )
}

/// Verify every byte after the header, detecting payload corruption.
pub fn validate_payload(packet: &[u8], header: Header) -> (valid: bool)
    requires
        packet@.len() >= HEADER_LEN,
    ensures
        valid == spec_payload_valid(packet@, header),
{
    let mut at: usize = HEADER_LEN;
    while at < packet.len()
        invariant
            HEADER_LEN <= at <= packet@.len(),
            forall|i: int|
                HEADER_LEN <= i < at ==> packet@[i] == spec_pattern_byte(
                    header.run_id,
                    header.sequence,
                    (i - HEADER_LEN) as u64,
                ),
        decreases packet@.len() - at,
    {
        if packet[at] != pattern_byte(header.run_id, header.sequence, at - HEADER_LEN) {
            return false;
        }
        at = at + 1;
    }
    true
}

/// Encoding a header and decoding the datagram gives the header back, and the
/// datagram's payload validates against it.
pub proof fn lemma_encode_decode_roundtrip(header: Header, size: nat)
    requires
        size >= HEADER_LEN,
    ensures
        spec_packet(header, size).len() == size,
        spec_decode(spec_packet(header, size)) == Ok::<Header, &'static str>(header),
        spec_payload_valid(spec_packet(header, size), header),
{
    let p = spec_packet(header, size);
    lemma_be_u64_roundtrip(header.run_id);
    lemma_be_u64_roundtrip(header.sequence);
    lemma_be_u64_roundtrip(header.sent_ns);
    assert(p.subrange(0, 4) =~= BENCH_MAGIC@);
    assert(p.subrange(8, 16) =~= be_u64_bytes(header.run_id));
    assert(p.subrange(16, 24) =~= be_u64_bytes(header.sequence));
    assert(p.subrange(24, 32) =~= be_u64_bytes(header.sent_ns));
    assert(be_u64_at(p, 8) == be_u64_at(p.subrange(8, 16), 0));
    assert(be_u64_at(p, 16) == be_u64_at(p.subrange(16, 24), 0));
    assert(be_u64_at(p, 24) == be_u64_at(p.subrange(24, 32), 0));
}

/// Changing any one payload byte of an encoded datagram makes it fail
/// validation against its own header.
pub proof fn lemma_payload_corruption_detected(header: Header, size: nat, at: int, byte: u8)
    requires
        size >= HEADER_LEN,
        HEADER_LEN <= at < size,
        byte != spec_packet(header, size)[at],
    ensures
        !spec_payload_valid(spec_packet(header, size).update(at, byte), header),
{
    let corrupted = spec_packet(header, size).update(at, byte);
    assert(corrupted[at] != spec_pattern_byte(
        header.run_id,
        header.sequence,
        (at - HEADER_LEN) as u64,
    ));
}

/// `decode` accepts a packet only when it is long enough and carries the
/// benchmark marker byte for byte, the protocol version and the header
/// length, and then reads the three big-endian fields; a packet of full
/// length with any marker byte changed is refused as having the wrong magic.
pub proof fn lemma_decode_needs_the_marker(packet: Seq<u8>)
    ensures
        packet.len() >= HEADER_LEN && (exists|j: int| 0 <= j < 4 && packet[j] != BENCH_MAGIC@[j])
            ==> spec_decode(packet) == Err::<Header, &'static str>(WRONG_MAGIC),
        spec_decode(packet) is Ok ==> {
            &&& packet.len() >= HEADER_LEN
            &&& forall|j: int| 0 <= j < 4 ==> packet[j] == BENCH_MAGIC@[j]
            &&& packet[4] == BENCH_VERSION
            &&& packet[6] == 0 && packet[7] == HEADER_LEN
            &&& spec_decode(packet)->Ok_0 == (Header {
                run_id: be_u64_at(packet, 8),
                sequence: be_u64_at(packet, 16),
                sent_ns: be_u64_at(packet, 24),
            })
        },
{
    if packet.len() >= HEADER_LEN {
        if exists|j: int| 0 <= j < 4 && packet[j] != BENCH_MAGIC@[j] {
            let j = choose|j: int| 0 <= j < 4 && packet[j] != BENCH_MAGIC@[j];
            assert(packet.subrange(0, 4)[j] == packet[j]);
        }
        if packet.subrange(0, 4) == BENCH_MAGIC@ {
            assert forall|j: int| 0 <= j < 4 implies packet[j] == BENCH_MAGIC@[j] by {
                assert(packet.subrange(0, 4)[j] == packet[j]);
            }
        }
    }
}

} // verus!
