use ausha::crypto::{derive_secret, nonce, Direction, Error, Key, Opener, Sealer, TAG_LEN};
use ausha::rtp;

const SALT: &str = "000102030405060708090a0b0c0d0e0f";
const TOKEN: &str = "c838-87a9-3b03";

fn packet(sequence: u16, payload: &[u8]) -> Vec<u8> {
    let mut out = vec![0x80, 96];
    out.extend_from_slice(&sequence.to_be_bytes());
    out.extend_from_slice(&(u32::from(sequence) * 960).to_be_bytes());
    out.extend_from_slice(&0x1234_5678u32.to_be_bytes());
    out.extend_from_slice(payload);
    out
}

fn key(token: &str, salt: &str) -> Key {
    derive_secret(token, salt).unwrap().key(Direction::Downlink)
}

fn pair() -> (Sealer, Opener) {
    let key = key(TOKEN, SALT);
    (Sealer::new(&key), Opener::new(&key))
}

#[test]
fn round_trips_a_packet() {
    let (mut sealer, mut opener) = pair();
    let plain = packet(7, b"opus frame");
    let sealed = sealer.seal(&plain).unwrap();

    assert_eq!(&sealed[..rtp::HEADER_LEN], &plain[..rtp::HEADER_LEN]);
    assert_eq!(sealed.len(), plain.len() + TAG_LEN);
    assert!(!sealed.ends_with(b"opus frame"));
    assert_eq!(opener.open(&sealed).unwrap(), plain);
}

#[test]
fn the_token_has_to_match() {
    let (mut sealer, _) = pair();
    let sealed = sealer.seal(&packet(1, b"audio")).unwrap();
    let wrong = key("c838-87a9-3b04", SALT);
    assert!(Opener::new(&wrong).open(&sealed).is_none());
}

#[test]
fn the_salt_makes_every_run_distinct() {
    let sealed = Sealer::new(&key(TOKEN, SALT)).seal(&packet(1, b"audio")).unwrap();
    let other = key(TOKEN, "0f0e0d0c0b0a09080706050403020100");
    assert!(Opener::new(&other).open(&sealed).is_none());
}

#[test]
fn rejects_a_tampered_payload_and_a_tampered_header() {
    let (mut sealer, mut opener) = pair();
    let sealed = sealer.seal(&packet(3, b"audio")).unwrap();

    let mut payload = sealed.clone();
    let last = payload.len() - 1;
    payload[last] ^= 1;
    assert!(opener.open(&payload).is_none());

    let mut header = sealed.clone();
    header[3] ^= 1;
    assert!(opener.open(&header).is_none(), "sequence is authenticated");
}

#[test]
fn survives_loss_and_reordering() {
    let (mut sealer, mut opener) = pair();
    let sealed: Vec<_> = (0..8u16)
        .map(|n| sealer.seal(&packet(n, b"audio")).unwrap())
        .collect();

    assert!(opener.open(&sealed[0]).is_some());
    assert!(opener.open(&sealed[3]).is_some(), "after a loss burst");
    assert!(opener.open(&sealed[2]).is_some(), "late packet");
    assert!(opener.open(&sealed[7]).is_some());
}

#[test]
fn keeps_the_nonce_unique_across_wraparound() {
    let (mut sealer, mut opener) = pair();
    for sequence in [65534u16, 65535, 0, 1] {
        let sealed = sealer.seal(&packet(sequence, b"audio")).unwrap();
        assert!(opener.open(&sealed).is_some(), "sequence {sequence}");
    }
    assert_ne!(nonce(1, 65535), nonce(1, 65536));
}

#[test]
fn a_rejected_packet_leaves_the_counter_alone() {
    let (mut sealer, mut opener) = pair();
    let first = sealer.seal(&packet(65000, b"audio")).unwrap();
    assert!(opener.open(&first).is_some());

    let mut forged = first.clone();
    forged[2] = 0;
    forged[3] = 5;
    assert!(opener.open(&forged).is_none());

    let next = sealer.seal(&packet(65001, b"audio")).unwrap();
    assert!(opener.open(&next).is_some());
}

#[test]
fn the_two_directions_do_not_share_a_key() {
    let secret = derive_secret(TOKEN, SALT).unwrap();
    let plain = packet(1, b"audio");
    let sealed = Sealer::new(&secret.key(Direction::Downlink)).seal(&plain).unwrap();

    assert!(
        Opener::new(&secret.key(Direction::Uplink)).open(&sealed).is_none(),
        "the uplink key must not open a downlink packet"
    );
    assert!(Opener::new(&secret.key(Direction::Downlink)).open(&sealed).is_some());
}

#[test]
fn rejects_a_short_datagram_and_a_bad_salt() {
    let (mut sealer, mut opener) = pair();
    assert!(sealer.seal(&[0x80, 96, 0, 1]).is_none());
    assert!(opener.open(&[0x80, 96, 0, 1]).is_none());
    assert!(matches!(derive_secret(TOKEN, "abc"), Err(Error::BadSalt)));
    assert!(matches!(derive_secret(TOKEN, "zz"), Err(Error::BadSalt)));
}

#[test]
fn the_token_authenticates_however_it_was_typed() {
    let sealed = Sealer::new(&key(TOKEN, SALT)).seal(&packet(9, b"audio")).unwrap();
    for typed in ["c83887a93b03", "C838 87A9 3B03"] {
        assert!(Opener::new(&key(typed, SALT)).open(&sealed).is_some(), "{typed:?}");
    }
}

#[test]
fn a_salt_of_the_wrong_length_is_refused() {
    assert!(matches!(derive_secret(TOKEN, "0001"), Err(Error::BadSalt)));
    assert!(derive_secret(TOKEN, "000102030405060708090A0B0C0D0E0F").is_ok());
}

#[test]
fn the_nonce_is_the_ssrc_and_the_extended_sequence() {
    assert_eq!(
        nonce(0x0102_0304, 0x0506_0708_090a_0b0c),
        vec![1, 2, 3, 4, 5, 6, 7, 8, 9, 10, 11, 12]
    );
}

#[test]
fn the_header_is_left_readable_and_the_payload_is_not() {
    let (mut sealer, _) = pair();
    let plain = packet(4, b"0123456789");
    let sealed = sealer.seal(&plain).unwrap();
    assert_eq!(rtp::parse(&sealed).unwrap().sequence, 4);
    assert_ne!(&sealed[rtp::HEADER_LEN..rtp::HEADER_LEN + 10], b"0123456789");
}

#[test]
fn errors_say_what_went_wrong() {
    assert_eq!(Error::BadSalt.message(), "malformed encryption salt");
    assert_eq!(
        Error::UnknownCipher("aes".to_string()).message(),
        "unsupported cipher \"aes\""
    );
}
