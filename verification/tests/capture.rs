use ausha::capture::{build_args, compat_output, detect, named, qualify, resolve, Settings};
use ausha::command::CommandOutput;
use ausha::net::Endpoint;

fn ran(stdout: &str) -> Option<CommandOutput> {
    Some(CommandOutput { success: true, stdout: stdout.as_bytes().to_vec(), stderr: vec![] })
}

fn failed() -> Option<CommandOutput> {
    Some(CommandOutput { success: false, stdout: vec![], stderr: b"Connection refused".to_vec() })
}

const SOURCES: &str = "0\talsa_input.pci.analog-stereo\tmodule-alsa-card.c\ts16le 2ch 48000Hz\tSUSPENDED\n\
1\talsa_output.usb.monitor\tmodule-alsa-card.c\ts16le 2ch 48000Hz\tRUNNING\n";

#[test]
fn the_default_sinks_monitor_is_recorded() {
    let input = detect(ran("alsa_output.pci.analog-stereo\n"), None).unwrap();
    assert_eq!(input.format, "pulse");
    assert_eq!(input.device, "alsa_output.pci.analog-stereo.monitor");
}

#[test]
fn without_a_default_sink_the_first_monitor_source_is_recorded() {
    let input = detect(ran("  \n"), ran(SOURCES)).unwrap();
    assert_eq!(input.device, "alsa_output.usb.monitor");
    let input = detect(failed(), ran(SOURCES)).unwrap();
    assert_eq!(input.device, "alsa_output.usb.monitor");
}

#[test]
fn no_monitor_anywhere_is_an_error() {
    let err = detect(None, ran("0\talsa_input.pci\tmodule\n")).err().unwrap();
    assert_eq!(err, "no PulseAudio monitor source found; is PulseAudio running?");
    assert!(detect(failed(), failed()).is_err());
}

#[test]
fn a_named_device_is_taken_at_its_word() {
    let input = resolve(Some("my.device".to_string()), None, None).unwrap();
    assert_eq!(input.device, "my.device");
    assert_eq!(named("x".to_string()).format, "pulse");
}

#[test]
fn dshow_names_are_qualified_once() {
    assert_eq!(qualify("Stereo Mix"), "audio=Stereo Mix");
    assert_eq!(qualify("video=Camera"), "video=Camera");
}

fn settings(compat: Option<Endpoint>) -> Settings {
    Settings {
        bitrate_kbps: 128,
        ssrc: 0x1234,
        ingest: Endpoint { ip: "127.0.0.1".to_string(), port: 5004, is_ipv6: false },
        rtcp_port: 5005,
        compat_ingest: compat,
    }
}

#[test]
fn ffmpeg_is_asked_for_opus_over_rtp() {
    let input = named("sink.monitor".to_string());
    let args = build_args(&input, &settings(None));
    let expected = [
        "-hide_banner", "-loglevel", "warning", "-fflags", "nobuffer", "-f", "pulse",
        "-fragment_size", "3840", "-i", "sink.monitor", "-c:a", "libopus", "-b:a", "128k",
        "-ar", "48000", "-ac", "2", "-application", "audio", "-frame_duration", "20",
        "-packet_loss", "5", "-fec:a", "1", "-payload_type", "96", "-ssrc", "4660",
        "-muxdelay", "0", "-muxpreload", "0", "-map", "0:a", "-f", "rtp",
        "rtp://127.0.0.1:5004?rtcpport=5005",
    ];
    assert_eq!(args, expected);
}

#[test]
fn a_compatibility_target_adds_an_mpegts_output() {
    let target = Endpoint { ip: "127.0.0.1".to_string(), port: 40000, is_ipv6: false };
    let input = named("sink.monitor".to_string());
    let args = build_args(&input, &settings(Some(target.clone())));
    assert_eq!(args.len(), 40 + 9);
    assert_eq!(&args[40..], compat_output(128, &target).as_slice());
    assert_eq!(
        compat_output(96, &target),
        ["-map", "0:a", "-c:a", "libopus", "-b:a", "96k", "-f", "mpegts", "udp://127.0.0.1:40000?pkt_size=1316"]
    );
    let v6 = Endpoint { ip: "::1".to_string(), port: 9, is_ipv6: true };
    assert_eq!(compat_output(1, &v6)[8], "udp://[::1]:9?pkt_size=1316");
}
