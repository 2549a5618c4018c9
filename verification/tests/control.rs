use ausha::control::{accept, check_hello, reject, session_text, Keepalive, KeepaliveAction, Rejection};
use ausha::protocol::{ServerMessage, StreamParams};

#[test]
fn a_hello_with_the_token_however_typed_is_let_in() {
    assert_eq!(check_hello(1, "C838-87A9-3B03", "c83887a93b03"), Ok(()));
    assert_eq!(check_hello(1, "c838 87a9 3b03", "c838-87a9-3b03"), Ok(()));
}

#[test]
fn a_wrong_token_or_version_is_turned_away() {
    assert_eq!(check_hello(1, "c83887a93b04", "c83887a93b03"), Err(Rejection::InvalidToken));
    assert_eq!(check_hello(2, "c83887a93b03", "c83887a93b03"), Err(Rejection::UnsupportedVersion));
}

#[test]
fn rejections_say_why() {
    assert_eq!(Rejection::ExpectedHello.reason(), "expected hello");
    assert_eq!(Rejection::UnsupportedVersion.reason(), "unsupported protocol version");
    assert_eq!(Rejection::InvalidToken.reason(), "invalid pairing token");
    match reject(Rejection::InvalidToken) {
        ServerMessage::Error { reason } => assert_eq!(reason, "invalid pairing token"),
        other => panic!("unexpected {other:?}"),
    }
}

#[test]
fn the_session_is_sixteen_hex_digits() {
    assert_eq!(session_text(0xdead_beef), "00000000deadbeef");
    assert_eq!(session_text(u64::MAX), "ffffffffffffffff");
}

#[test]
fn accept_carries_the_session_the_port_and_the_stream() {
    match accept(0xab, 6997, &StreamParams::new(5)) {
        ServerMessage::Accept { session, media_port, stream } => {
            assert_eq!(session, "00000000000000ab");
            assert_eq!(media_port, 6997);
            assert_eq!(stream.ssrc, 5);
            assert_eq!(stream.codec, "opus");
        }
        other => panic!("unexpected {other:?}"),
    }
}

#[test]
fn a_quiet_receiver_is_pinged_and_then_given_up() {
    let mut keepalive = Keepalive::new(0);
    assert_eq!(keepalive.tick(1_999_999), KeepaliveAction::Wait);
    assert_eq!(keepalive.tick(2_000_000), KeepaliveAction::Ping);
    assert_eq!(keepalive.tick(3_000_000), KeepaliveAction::Wait);
    assert_eq!(keepalive.tick(4_000_000), KeepaliveAction::Ping);
    assert_eq!(keepalive.tick(10_000_000), KeepaliveAction::Ping);
    assert_eq!(keepalive.tick(10_000_001), KeepaliveAction::TimedOut);
}

#[test]
fn hearing_from_the_receiver_keeps_the_session_alive() {
    let mut keepalive = Keepalive::new(0);
    keepalive.heard(9_000_000);
    assert_eq!(keepalive.tick(15_000_000), KeepaliveAction::Ping);
    assert_eq!(keepalive.tick(19_000_000), KeepaliveAction::Ping);
    assert_eq!(keepalive.tick(19_000_001), KeepaliveAction::TimedOut);
}

#[test]
fn the_token_as_displayed_is_let_in() {
    let token = ausha::ids::random_token().unwrap();
    let shown = ausha::ids::format_token(&token);
    assert_eq!(shown.len(), 14);
    assert_eq!(check_hello(1, &shown, &token), Ok(()));
}
