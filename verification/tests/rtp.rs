use ausha::rtp::{parse, Builder, Error, SequenceExtender};

fn header(sequence: u16, timestamp: u32, payload: &[u8]) -> Vec<u8> {
    let mut out = vec![0x80, 96];
    out.extend_from_slice(&sequence.to_be_bytes());
    out.extend_from_slice(&timestamp.to_be_bytes());
    out.extend_from_slice(&0x1234_5678u32.to_be_bytes());
    out.extend_from_slice(payload);
    out
}

#[test]
fn parses_a_plain_packet() {
    let datagram = header(7, 960, &[1, 2, 3]);
    let packet = parse(&datagram).unwrap();
    assert_eq!(packet.sequence, 7);
    assert_eq!(packet.timestamp, 960);
    assert_eq!(packet.ssrc, 0x1234_5678);
    assert_eq!(packet.payload_type, 96);
    assert_eq!(packet.payload, &[1, 2, 3]);
}

#[test]
fn rejects_short_and_wrong_version() {
    assert_eq!(parse(&[0x80, 96, 0, 1]).err(), Some(Error::TooShort));
    let mut datagram = header(1, 0, &[9]);
    datagram[0] = 0x40;
    assert_eq!(parse(&datagram).err(), Some(Error::UnsupportedVersion(1)));
}

#[test]
fn skips_csrc_and_extension_headers() {
    let mut datagram = vec![0x82 | 0x10, 96];
    datagram.extend_from_slice(&5u16.to_be_bytes());
    datagram.extend_from_slice(&0u32.to_be_bytes());
    datagram.extend_from_slice(&0u32.to_be_bytes());
    datagram.extend_from_slice(&[0; 8]);
    datagram.extend_from_slice(&[0xbe, 0xde, 0, 1]);
    datagram.extend_from_slice(&[0; 4]);
    datagram.extend_from_slice(&[42, 43]);
    assert_eq!(parse(&datagram).unwrap().payload, &[42, 43]);
}

#[test]
fn strips_padding() {
    let mut datagram = header(1, 0, &[7, 0, 0, 3]);
    datagram[0] |= 0x20;
    assert_eq!(parse(&datagram).unwrap().payload, &[7]);
}

#[test]
fn extends_across_wraparound() {
    let mut extender = SequenceExtender::default();
    assert_eq!(extender.extend(65534), 65534);
    assert_eq!(extender.extend(65535), 65535);
    assert_eq!(extender.extend(0), 65536);
    assert_eq!(extender.extend(1), 65537);
}

#[test]
fn orders_reordered_packets_across_wraparound() {
    let mut extender = SequenceExtender::default();
    extender.extend(65535);
    assert_eq!(extender.extend(1), 65537);
    assert_eq!(extender.extend(0), 65536, "late packet from before the wrap");
    assert_eq!(extender.extend(65534), 65534, "late packet from before the wrap");
}

#[test]
fn keeps_reordered_packets_monotonic_in_the_middle() {
    let mut extender = SequenceExtender::default();
    for sequence in [100, 101, 103, 102, 104] {
        let _ = extender.extend(sequence);
    }
    let mut extender = SequenceExtender::default();
    extender.extend(100);
    assert_eq!(extender.extend(103), 103);
    assert_eq!(extender.extend(102), 102);
}

#[test]
fn builds_a_packet_that_parses_back() {
    let mut builder = Builder::new(97, 0xdead_beef);
    let mut out = Vec::new();
    builder.build(&[1, 2, 3], 960, &mut out);

    let packet = parse(&out).unwrap();
    assert_eq!(packet.payload_type, 97);
    assert_eq!(packet.ssrc, 0xdead_beef);
    assert_eq!(packet.sequence, 0);
    assert_eq!(packet.timestamp, 0);
    assert_eq!(packet.payload, &[1, 2, 3]);
    assert!(!packet.marker);
}

#[test]
fn advances_the_sequence_by_one_and_the_timestamp_by_a_frame() {
    let mut builder = Builder::new(97, 1);
    let mut out = Vec::new();
    for expected in 0..4u16 {
        builder.build(&[0], 960, &mut out);
        let packet = parse(&out).unwrap();
        assert_eq!(packet.sequence, expected);
        assert_eq!(packet.timestamp, u32::from(expected) * 960);
    }
}

#[test]
fn wraps_the_sequence_the_way_the_extender_expects() {
    // The builder's sequence is private here, so it is walked to 65534 by
    // building that many packets.
    let mut builder = Builder::new(97, 1);
    let mut out = Vec::new();
    for _ in 0..65534u32 {
        builder.build(&[0], 960, &mut out);
    }
    let mut extender = SequenceExtender::default();

    let mut extended = Vec::new();
    for _ in 0..4 {
        builder.build(&[0], 960, &mut out);
        extended.push(extender.extend(parse(&out).unwrap().sequence));
    }
    assert_eq!(extended, [65534, 65535, 65536, 65537]);
}

#[test]
fn a_bad_padding_count_is_rejected() {
    // Padding that claims more bytes than the whole datagram holds.
    let mut datagram = header(1, 0, &[200]);
    datagram[0] |= 0x20;
    assert_eq!(parse(&datagram).err(), Some(Error::BadPadding));
}

#[test]
fn an_extension_longer_than_the_packet_is_too_short() {
    let mut datagram = vec![0x90, 96];
    datagram.extend_from_slice(&[0; 10]);
    datagram.extend_from_slice(&[0xbe, 0xde, 0, 4]);
    assert_eq!(parse(&datagram).err(), Some(Error::TooShort));
}

#[test]
fn the_marker_bit_is_read() {
    let mut datagram = header(1, 0, &[5]);
    datagram[1] = 0x80 | 96;
    let packet = parse(&datagram).unwrap();
    assert!(packet.marker);
    assert_eq!(packet.payload_type, 96);
}

#[test]
fn the_timestamp_wraps_with_the_clock() {
    let mut builder = Builder::new(96, 7);
    let mut out = Vec::new();
    builder.build(&[0], u32::MAX, &mut out);
    builder.build(&[0], 2, &mut out);
    assert_eq!(parse(&out).unwrap().timestamp, u32::MAX);
    builder.build(&[0], 0, &mut out);
    assert_eq!(parse(&out).unwrap().timestamp, 1);
}

#[test]
fn peek_does_not_record_and_commit_does() {
    let mut extender = SequenceExtender::default();
    extender.extend(10);
    assert_eq!(extender.peek(12), 12);
    assert_eq!(extender.peek(11), 11);
    extender.commit(12);
    assert_eq!(extender.peek(11), 11);
    assert_eq!(extender.extend(13), 13);
}

#[test]
fn a_fresh_extender_places_any_sequence_as_is() {
    let extender = SequenceExtender::default();
    for sequence in [0u16, 1, 32_768, 65_535] {
        assert_eq!(extender.peek(sequence), sequence as u64);
    }
}

#[test]
fn many_builds_advance_the_sequence_and_timestamp_modularly() {
    let mut builder = Builder::new(97, 7);
    let mut out = Vec::new();
    for _ in 0..70_000u32 {
        builder.build(&[0], 960, &mut out);
    }
    builder.build(&[9], 960, &mut out);
    let packet = parse(&out).unwrap();
    assert_eq!(packet.sequence, (70_000u32 % 65_536) as u16);
    assert_eq!(packet.timestamp, 70_000u32.wrapping_mul(960));
    assert_eq!(packet.payload, &[9]);
}
