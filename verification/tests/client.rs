use ausha::client::{
    chunk_len, clock_offset, handshake_step, past_deadline, punch_datagram, Config, HandshakeAction, HandshakeError,
    HandshakeState, LossSimulator,
};
use ausha::protocol::{ServerMessage, StreamParams};
use ausha::pipeline::Latency;

#[test]
fn the_punch_carries_the_prefix_and_the_session() {
    assert_eq!(punch_datagram("00000000deadbeef"), b"AUSHA/1 00000000deadbeef".to_vec());
}

#[test]
fn no_simulated_loss_drops_nothing() {
    let mut loss = LossSimulator::new(0);
    assert!((0..1000).all(|_| !loss.drops_next()));
}

#[test]
fn simulated_loss_is_random_at_about_the_rate_asked() {
    let mut loss = LossSimulator::new(10);
    let dropped = (0..10_000).filter(|_| loss.drops_next()).count();
    assert!((800..1200).contains(&dropped), "dropped {dropped}");
}

#[test]
fn the_generator_is_xorshift() {
    let mut loss = LossSimulator::new(100);
    let mut x: u64 = 0x2545_f491_4f6c_dd1d;
    for _ in 0..5 {
        x ^= x << 13;
        x ^= x >> 7;
        x ^= x << 17;
        assert!(loss.drops_next(), "every packet goes at 100%");
        assert_eq!(loss.state, x);
    }
}

#[test]
fn a_frame_of_the_stream() {
    assert_eq!(chunk_len(&StreamParams::new(1)), 1920);
}

#[test]
fn a_limited_run_ends_on_time() {
    assert!(!past_deadline(None, u64::MAX));
    assert!(!past_deadline(Some(2), 1_999_999));
    assert!(past_deadline(Some(2), 2_000_000));
}

#[test]
fn the_clock_offset_is_signed() {
    assert_eq!(clock_offset(1_000, 400), -600);
    assert_eq!(clock_offset(400, 1_000), 600);
}

#[test]
fn a_config_holds_what_the_receiver_connects_with() {
    let config = Config {
        host: "10.0.0.1".to_string(),
        control_port: 6996,
        token: "t".to_string(),
        name: "n".to_string(),
        simulate_loss: 0,
        latency: Latency::Low,
    };
    assert_eq!(config.latency.range_ms(), (40, 120));
}

fn accept() -> ServerMessage {
    ServerMessage::Accept {
        session: "00112233aabbccdd".to_string(),
        media_port: 6997,
        stream: StreamParams::new(7),
    }
}

#[test]
fn the_handshake_punches_after_accept_and_finishes_on_ready() {
    let (state, action) = handshake_step(HandshakeState::AwaitingAccept, accept()).unwrap();
    assert_eq!(state, HandshakeState::AwaitingReady);
    match action {
        HandshakeAction::SendPunch { datagram, media_port, stream } => {
            assert_eq!(datagram, punch_datagram("00112233aabbccdd"));
            assert_eq!(media_port, 6997);
            assert_eq!(stream.ssrc, 7);
        }
        HandshakeAction::Finish => panic!("expected a punch"),
    }
    let (state, action) =
        handshake_step(HandshakeState::AwaitingReady, ServerMessage::Ready).unwrap();
    assert_eq!(state, HandshakeState::Done);
    assert!(matches!(action, HandshakeAction::Finish));
}

#[test]
fn a_refusal_carries_its_reason_and_anything_else_is_unexpected() {
    let refused = handshake_step(
        HandshakeState::AwaitingAccept,
        ServerMessage::Error { reason: "invalid token".to_string() },
    );
    assert!(matches!(refused, Err(HandshakeError::Rejected(reason)) if reason == "invalid token"));
    let early = handshake_step(HandshakeState::AwaitingAccept, ServerMessage::Ready);
    assert!(matches!(
        early,
        Err(HandshakeError::Unexpected { state: HandshakeState::AwaitingAccept, got: ServerMessage::Ready })
    ));
    let twice = handshake_step(HandshakeState::AwaitingReady, accept());
    assert!(matches!(
        twice,
        Err(HandshakeError::Unexpected { state: HandshakeState::AwaitingReady, got: ServerMessage::Accept { .. } })
    ));
    let refused_late = handshake_step(
        HandshakeState::AwaitingReady,
        ServerMessage::Error { reason: "x".to_string() },
    );
    assert!(matches!(refused_late, Err(HandshakeError::Unexpected { .. })));
    let after = handshake_step(HandshakeState::Done, ServerMessage::Ping { ts: 1 });
    assert!(matches!(after, Err(HandshakeError::Unexpected { state: HandshakeState::Done, .. })));
}
