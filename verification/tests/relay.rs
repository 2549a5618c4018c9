use ausha::client::punch_datagram;
use ausha::control::session_text;
use ausha::crypto::{derive_secret, Direction, Opener, Sealer, TAG_LEN};
use ausha::relay::{outgoing, parse_punch};

fn packet(sequence: u16) -> Vec<u8> {
    let mut out = vec![0x80, 96];
    out.extend_from_slice(&sequence.to_be_bytes());
    out.extend_from_slice(&0u32.to_be_bytes());
    out.extend_from_slice(&7u32.to_be_bytes());
    out.extend_from_slice(b"frame");
    out
}

#[test]
fn reads_the_session_out_of_a_punch() {
    assert_eq!(parse_punch(b"AUSHA/1 00000000deadbeef"), Some(0xdead_beef));
    assert_eq!(parse_punch(b"  AUSHA/1 FFFFFFFFFFFFFFFF\n"), Some(u64::MAX));
    assert_eq!(parse_punch(b"AUSHA/1 +1f"), Some(0x1f));
}

#[test]
fn refuses_what_is_not_a_punch() {
    assert_eq!(parse_punch(b"AUSHA/2 1"), None);
    assert_eq!(parse_punch(b"AUSHA/1 "), None);
    assert_eq!(parse_punch(b"AUSHA/1 xyz"), None);
    assert_eq!(parse_punch(b"AUSHA/1 10000000000000000"), None, "more than 64 bits");
    assert_eq!(parse_punch(&[0x41, 0xff, 0x31]), None, "not UTF-8");
}

#[test]
fn the_punch_a_receiver_sends_names_its_session() {
    for id in [0u64, 1, 0x0123_4567_89ab_cdef, u64::MAX] {
        let session = session_text(id);
        assert_eq!(parse_punch(&punch_datagram(&session)), Some(id));
    }
}

#[test]
fn an_unencrypted_run_forwards_the_packet_as_it_is() {
    let mut sealer: Option<Sealer> = None;
    assert_eq!(outgoing(&packet(1), &mut sealer), Some(packet(1)));
}

#[test]
fn an_encrypted_run_forwards_the_packet_sealed() {
    let secret = derive_secret("c838-87a9-3b03", "000102030405060708090a0b0c0d0e0f").unwrap();
    let key = secret.key(Direction::Downlink);
    let mut sealer = Some(Sealer::new(&key));
    let sealed = outgoing(&packet(1), &mut sealer).unwrap();
    assert_eq!(sealed.len(), packet(1).len() + TAG_LEN);
    assert_ne!(sealed[12..17], *b"frame");
    assert_eq!(Opener::new(&key).open(&sealed), Some(packet(1)));
}

#[test]
fn a_packet_too_short_to_seal_is_not_sent_in_the_clear() {
    let secret = derive_secret("t", "000102030405060708090a0b0c0d0e0f").unwrap();
    let mut sealer = Some(Sealer::new(&secret.key(Direction::Downlink)));
    assert_eq!(outgoing(&[0x80, 96, 0], &mut sealer), None);
}
