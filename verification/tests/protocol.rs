use ausha::protocol::{normalize_token, StreamParams};

#[test]
fn tokens_authenticate_however_they_were_typed() {
    let expected = normalize_token("c83887a93b03");
    for typed in ["c83887a93b03", "c838-87a9-3b03", "C838-87A9-3B03", " c838 87a9 3b03 "] {
        assert_eq!(normalize_token(typed), expected, "{typed:?} should match");
    }
    assert_ne!(normalize_token("c83887a93b04"), expected);
}

#[test]
fn normalising_twice_changes_nothing() {
    let once = normalize_token("Ab-Cd 12");
    assert_eq!(once, "abcd12");
    assert_eq!(normalize_token(&once), once);
}

#[test]
fn non_ascii_letters_are_dropped() {
    assert_eq!(normalize_token("é1-ß2"), "12");
}

#[test]
fn the_stream_every_sender_offers() {
    let params = StreamParams::new(0x1234);
    assert_eq!(params.codec, "opus");
    assert_eq!(params.rate, 48000);
    assert_eq!(params.channels, 2);
    assert_eq!(params.ptime_ms, 20);
    assert_eq!(params.payload_type, 96);
    assert_eq!(params.ssrc, 0x1234);
    assert!(params.fec);
}
