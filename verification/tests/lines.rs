use ausha::lines::{Incoming, LineReader, ReadAction, ReadEvent};

fn line(action: ReadAction) -> Option<String> {
    match action {
        ReadAction::Deliver(Incoming::Line(l)) => Some(l),
        _ => None,
    }
}

#[test]
fn a_complete_line_is_delivered_trimmed() {
    let mut reader = LineReader::new();
    assert!(matches!(reader.read(ReadEvent::Start), ReadAction::ReadMore));
    let got = line(reader.read(ReadEvent::Data(b"  {\"t\":\"bye\"} \r\n".to_vec())));
    assert_eq!(got.as_deref(), Some("{\"t\":\"bye\"}"));
}

#[test]
fn a_timeout_mid_message_loses_nothing() {
    let mut reader = LineReader::new();
    assert!(matches!(reader.read(ReadEvent::Data(b"{\"t\":\"pi".to_vec())), ReadAction::ReadMore));
    assert!(matches!(reader.read(ReadEvent::TimedOut), ReadAction::Deliver(Incoming::Idle)));
    let got = line(reader.read(ReadEvent::Data(b"ng\"}\n".to_vec())));
    assert_eq!(got.as_deref(), Some("{\"t\":\"ping\"}"));
}

#[test]
fn lines_that_arrive_together_come_out_one_at_a_time() {
    let mut reader = LineReader::new();
    let first = line(reader.read(ReadEvent::Data(b"one\ntwo\nthr".to_vec())));
    assert_eq!(first.as_deref(), Some("one"));
    let second = line(reader.read(ReadEvent::Start));
    assert_eq!(second.as_deref(), Some("two"));
    assert!(matches!(reader.read(ReadEvent::Start), ReadAction::ReadMore));
    assert!(matches!(reader.read(ReadEvent::Interrupted), ReadAction::ReadMore));
    let third = line(reader.read(ReadEvent::Data(b"ee\n".to_vec())));
    assert_eq!(third.as_deref(), Some("three"));
}

#[test]
fn the_end_of_the_stream_closes() {
    let mut reader = LineReader::new();
    assert!(matches!(reader.read(ReadEvent::Closed), ReadAction::Deliver(Incoming::Closed)));
}

#[test]
fn invalid_utf8_is_replaced_not_refused() {
    let mut reader = LineReader::new();
    let got = line(reader.read(ReadEvent::Data(vec![b'a', 0xff, b'b', b'\n'])));
    assert_eq!(got.as_deref(), Some("a\u{fffd}b"));
}

#[test]
fn an_empty_line_is_delivered_empty() {
    let mut reader = LineReader::new();
    assert_eq!(reader.take_line(), None);
    assert!(matches!(reader.read(ReadEvent::Data(b"\n".to_vec())), ReadAction::Deliver(Incoming::Line(ref l)) if l.is_empty()));
}

#[test]
fn a_message_cut_into_many_reads_comes_out_whole() {
    let mut reader = LineReader::new();
    for piece in [&b"{\"t\""[..], b":", b"\"hel", b"lo\""] {
        assert!(matches!(reader.read(ReadEvent::Data(piece.to_vec())), ReadAction::ReadMore));
    }
    let got = line(reader.read(ReadEvent::Data(b"}\nnext".to_vec())));
    assert_eq!(got.as_deref(), Some("{\"t\":\"hello\"}"));
    assert!(matches!(reader.read(ReadEvent::Start), ReadAction::ReadMore));
}
