use ausha::crypto::{derive_secret, Direction, Opener, Sealer};
use ausha::uplink::{report_discards, ssrc_of, uplink_packet, Clock, DiscardChange};

fn packet(ssrc: u32) -> Vec<u8> {
    let mut out = vec![0x80, 96, 0, 1, 0, 0, 0, 0];
    out.extend_from_slice(&ssrc.to_be_bytes());
    out.extend_from_slice(b"voice");
    out
}

#[test]
fn only_the_sessions_ssrc_reaches_the_decoder() {
    let mut opener: Option<Opener> = None;
    assert_eq!(uplink_packet(&packet(5), &mut opener, 5), Some(packet(5)));
    assert_eq!(uplink_packet(&packet(6), &mut opener, 5), None);
    assert_eq!(uplink_packet(&[1, 2, 3], &mut opener, 5), None);
    assert_eq!(ssrc_of(&packet(9)), Some(9));
    assert_eq!(ssrc_of(&[0x80]), None);
}

#[test]
fn an_encrypted_uplink_is_opened_first() {
    let key = derive_secret("tok", "000102030405060708090a0b0c0d0e0f").unwrap().key(Direction::Uplink);
    let sealed = Sealer::new(&key).seal(&packet(5)).unwrap();
    let mut opener = Some(Opener::new(&key));
    assert_eq!(uplink_packet(&sealed, &mut opener, 5), Some(packet(5)));
    assert_eq!(uplink_packet(&packet(5), &mut opener, 5), None, "a plain packet does not authenticate");
}

#[test]
fn discarding_is_reported_when_it_starts_and_stops() {
    assert_eq!(report_discards(false, true), (true, DiscardChange::Started));
    assert_eq!(report_discards(true, true), (true, DiscardChange::Unchanged));
    assert_eq!(report_discards(true, false), (false, DiscardChange::Stopped));
    assert_eq!(report_discards(false, false), (false, DiscardChange::Unchanged));
}

#[test]
fn the_clock_meters_out_frames_in_real_time() {
    let mut clock = Clock::new(48_000);
    assert!(clock.due(0));
    clock.produced(960, 0);
    assert!(!clock.due(19_999));
    assert!(clock.due(20_000));
    clock.produced(960, 20_000);
    assert_eq!(clock.produced, 1920);
}

#[test]
fn falling_far_behind_is_written_off() {
    let mut clock = Clock::new(48_000);
    clock.produced(960, 5_000_000);
    assert_eq!(clock.produced, 240_000, "caught up to five seconds");
    clock.produced(960, 5_100_000);
    assert_eq!(clock.produced, 240_960, "within the allowed lag");
}
