use ausha::net::Endpoint;
use ausha::protocol::StreamParams;
use ausha::sdp::describe;

#[test]
fn describes_the_stream_for_ffplay() {
    let target = Endpoint { ip: "192.168.1.40".to_string(), port: 5004, is_ipv6: false };
    let sdp = describe(&target, &StreamParams::new(1), 128);
    assert_eq!(
        sdp,
        "v=0\no=- 0 0 IN IP4 192.168.1.40\ns=Ausha\nc=IN IP4 192.168.1.40\nt=0 0\n\
         m=audio 5004 RTP/AVP 96\nb=AS:128\na=rtpmap:96 opus/48000/2\na=fmtp:96 sprop-stereo=1\n"
    );
}

#[test]
fn an_ipv6_target_says_so() {
    let target = Endpoint { ip: "fe80::1".to_string(), port: 9, is_ipv6: true };
    let sdp = describe(&target, &StreamParams::new(1), 64);
    assert!(sdp.contains("o=- 0 0 IN IP6 fe80::1\n"));
    assert!(sdp.contains("c=IN IP6 fe80::1\n"));
}
