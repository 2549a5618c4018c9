use ausha::sink::{choose_sink, sink_args, sink_programs, Null, SinkChoice};

#[test]
fn each_player_gets_its_own_arguments() {
    assert_eq!(
        sink_args("pacat", 20),
        ["--raw", "--format=float32le", "--rate=48000", "--channels=2", "--latency-msec=20", "--stream-name=Ausha"]
    );
    assert_eq!(sink_args("aplay", 20), ["-q", "-f", "FLOAT_LE", "-r", "48000", "-c", "2", "-t", "raw"]);
    assert_eq!(
        sink_args("ffplay", 20),
        ["-hide_banner", "-loglevel", "error", "-nodisp", "-autoexit", "-f", "f32le", "-ar", "48000", "-ac", "2", "-i", "-"]
    );
    assert_eq!(sink_args("mpv", 5), sink_args("ffplay", 5), "anything else reads like ffplay");
}

#[test]
fn the_players_are_tried_in_order() {
    assert_eq!(sink_programs(), ["pacat", "aplay", "ffplay"]);
}

#[test]
fn the_sink_flag_picks_a_player_or_none() {
    assert!(matches!(choose_sink(None), SinkChoice::Detect));
    assert!(matches!(choose_sink(Some("null")), SinkChoice::Null));
    assert!(matches!(choose_sink(Some("aplay")), SinkChoice::Program(ref p) if p == "aplay"));
}

#[test]
fn the_null_sink_consumes_audio_at_real_time() {
    let mut sink = Null::new();
    // 20 ms of stereo at 48 kHz is 1920 samples.
    assert_eq!(sink.write(1920, 0), Some(20_000));
    assert_eq!(sink.write(1920, 15_000), Some(25_000));
    assert_eq!(sink.write(1920, 70_000), None, "behind already: no wait");
    assert_eq!(sink.written, 2880);
}
