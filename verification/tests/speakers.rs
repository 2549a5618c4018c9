use ausha::command::CommandOutput;
use ausha::speakers::{pactl_outcome, reports_muted, set_mute_args, Speakers};

#[test]
fn a_monitor_has_its_sink_behind_it() {
    let speakers = Speakers::behind("alsa_output.pci.analog-stereo.monitor").unwrap();
    assert_eq!(speakers.sink(), "alsa_output.pci.analog-stereo");
}

#[test]
fn a_microphone_has_no_speakers_behind_it() {
    assert!(Speakers::behind("alsa_input.pci.analog-stereo").is_none());
}

#[test]
fn the_first_listener_mutes_and_the_last_unmutes() {
    let mut speakers = Speakers::behind("sink.monitor").unwrap();
    assert!(speakers.listen());
    assert!(!speakers.listen());
    assert!(!speakers.leave());
    assert!(speakers.leave());
}

#[test]
fn reads_the_mute_state() {
    assert!(reports_muted("Mute: yes\n"));
    assert!(!reports_muted("Mute: no\n"));
}

#[test]
fn mutes_and_unmutes_by_name() {
    assert_eq!(set_mute_args("out", true), ["set-sink-mute", "out", "1"]);
    assert_eq!(set_mute_args("out", false), ["set-sink-mute", "out", "0"]);
}

#[test]
fn a_failed_pactl_reports_what_it_said() {
    let failed = CommandOutput { success: false, stdout: vec![], stderr: b"  No such entity\n".to_vec() };
    assert_eq!(pactl_outcome(&failed), Err("No such entity".to_string()));
    let ok = CommandOutput { success: true, stdout: b"Mute: no\n".to_vec(), stderr: vec![] };
    assert_eq!(pactl_outcome(&ok), Ok("Mute: no\n".to_string()));
}

#[test]
fn only_a_sink_muted_here_is_unmuted_and_only_once() {
    let mut record = ausha::speakers::MuteRecord::new();
    assert_eq!(record.first_listener("alsa_output.pci", "Mute: yes\n"), None);
    assert_eq!(record.restore(), None);

    let args = record.first_listener("alsa_output.pci", "Mute: no\n").unwrap();
    assert_eq!(args, ["set-sink-mute", "alsa_output.pci", "1"]);
    record.muted("alsa_output.pci");
    assert_eq!(record.restore().as_deref(), Some("alsa_output.pci"));
    assert_eq!(record.restore(), None);
}
