use ausha::dshow::{audio_devices, choose_device, detect};

const NEWER: &str = r#"
[dshow @ 000001] "Integrated Camera" (video)
[dshow @ 000001]   Alternative name "@device_pnp_\\?\usb#vid_04f2"
[dshow @ 000001] "Microphone (Realtek(R) Audio)" (audio)
[dshow @ 000001]   Alternative name "@device_cm_{33D9A762}\wave_{0000}"
[dshow @ 000001] "Stereo Mix (Realtek(R) Audio)" (audio)
[dshow @ 000001]   Alternative name "@device_cm_{33D9A762}\wave_{0001}"
dummy: Immediate exit requested
"#;

const OLDER: &str = r#"
[dshow @ 000001] DirectShow video devices (some may be both video and audio devices)
[dshow @ 000001]  "Integrated Camera"
[dshow @ 000001] DirectShow audio devices
[dshow @ 000001]  "Microphone (Realtek Audio)"
[dshow @ 000001]  "virtual-audio-capturer"
"#;

#[test]
fn reads_the_newer_listing_and_ignores_video() {
    assert_eq!(
        audio_devices(NEWER),
        ["Microphone (Realtek(R) Audio)", "Stereo Mix (Realtek(R) Audio)"]
    );
}

#[test]
fn reads_the_older_sectioned_listing() {
    assert_eq!(
        audio_devices(OLDER),
        ["Microphone (Realtek Audio)", "virtual-audio-capturer"]
    );
}

#[test]
fn prefers_the_virtual_capturer_over_a_cards_stereo_mix() {
    let devices = vec![
        "Stereo Mix (Realtek(R) Audio)".to_string(),
        "virtual-audio-capturer".to_string(),
    ];
    assert_eq!(choose_device(&devices).unwrap(), "virtual-audio-capturer");
}

#[test]
fn falls_back_to_stereo_mix_and_reports_nothing_when_there_is_no_loopback() {
    assert_eq!(
        choose_device(&audio_devices(NEWER)).unwrap(),
        "Stereo Mix (Realtek(R) Audio)"
    );
    assert_eq!(choose_device(&["Microphone (Realtek Audio)".to_string()]), None);
    assert_eq!(choose_device(&[]), None);
}

#[test]
fn detection_names_the_loopback_device() {
    assert_eq!(detect(OLDER), Ok("virtual-audio-capturer".to_string()));
    assert_eq!(detect(NEWER), Ok("Stereo Mix (Realtek(R) Audio)".to_string()));
}

#[test]
fn detection_explains_what_it_found_instead() {
    let listing = "[dshow @ 1] \"Microphone (USB)\" (audio)\n[dshow @ 1] \"Line In\" (audio)\n";
    assert_eq!(
        detect(listing),
        Err("no loopback device among the DirectShow audio devices (Microphone (USB), Line In); \
             install virtual-audio-capturer, or enable Stereo Mix in Sound settings > Recording, \
             then name the device with --capture"
            .to_string())
    );
    assert_eq!(
        detect("nothing here\n"),
        Err("no DirectShow audio devices found; install virtual-audio-capturer, or enable \
             Stereo Mix in Sound settings > Recording, then name the device with --capture"
            .to_string())
    );
}

#[test]
fn loopback_names_match_whatever_their_case() {
    let devices = vec!["WHAT U HEAR (Sound Blaster)".to_string()];
    assert_eq!(choose_device(&devices).unwrap(), "WHAT U HEAR (Sound Blaster)");
}

#[test]
fn lowered_names_are_chosen_by_preference_not_by_position() {
    let lowered = vec![
        "microphone (realtek audio)".to_string(),
        "stereo mix (realtek audio)".to_string(),
        "virtual-audio-capturer".to_string(),
    ];
    assert_eq!(ausha::dshow::choose_from_lowered(&lowered), Some(2));
    assert_eq!(ausha::dshow::choose_from_lowered(&lowered[..2]), Some(1));
    assert_eq!(ausha::dshow::choose_from_lowered(&lowered[..1]), None);
    // The names are compared as given: upper case is not folded here.
    assert_eq!(ausha::dshow::choose_from_lowered(&["STEREO MIX".to_string()]), None);
}
