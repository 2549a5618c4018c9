use ausha::audiocapture::{get_audio_capture_command, running_sink_source};
use ausha::command::CommandOutput;

const LISTING: &str = "0\talsa_output.pci.monitor\tmodule-alsa-card.c\ts16le 2ch 44100Hz\tSUSPENDED\n\
1\talsa_output.usb-sink.monitor\tmodule-alsa-card.c\ts16le 2ch 48000Hz\tRUNNING\n";

#[test]
fn records_the_running_sinks_monitor_as_aac_in_mpegts() {
    let output = CommandOutput { success: true, stdout: LISTING.as_bytes().to_vec(), stderr: vec![] };
    assert_eq!(
        get_audio_capture_command(&output),
        [
            "-f", "pulse", "-i", "alsa_output.usb-sink.monitor", "-c:a", "aac", "-b:a", "128k",
            "-ar", "48000", "-ac", "2", "-f", "mpegts", "-",
        ]
    );
}

#[test]
fn nothing_running_or_a_failed_pactl_gives_no_command() {
    let idle = CommandOutput {
        success: true,
        stdout: b"0\talsa_output.pci.monitor\tmodule\tSUSPENDED\n".to_vec(),
        stderr: vec![],
    };
    assert!(get_audio_capture_command(&idle).is_empty());
    let failed = CommandOutput { success: false, stdout: LISTING.as_bytes().to_vec(), stderr: vec![] };
    assert!(get_audio_capture_command(&failed).is_empty());
}

#[test]
fn the_source_is_the_second_column() {
    assert_eq!(running_sink_source(b"RUNNING sink\n"), Some("sink".to_string()));
    assert_eq!(running_sink_source(b"RUNNING-sink\nx y RUNNING sink\n"), Some("y".to_string()));
}
