use ausha::config;
use ausha::jitter::JitterBuffer;
use ausha::pipeline::{jitter_buffer_for, Latency, SilenceCounter, StreamFilter};

const TICKS: u32 = config::SAMPLE_RATE / 1000 * config::FRAME_MS;

fn datagram(sequence: u16, timestamp: u32, payload: &[u8]) -> Vec<u8> {
    let mut out = vec![0x80, config::RTP_PAYLOAD_TYPE];
    out.extend_from_slice(&sequence.to_be_bytes());
    out.extend_from_slice(&timestamp.to_be_bytes());
    out.extend_from_slice(&0x0bad_cafeu32.to_be_bytes());
    out.extend_from_slice(payload);
    out
}

fn deliver(filter: &mut StreamFilter, buffer: &mut JitterBuffer, d: &[u8]) {
    if let Some(packet) = filter.accept(d) {
        buffer.insert(&packet, 0, 0);
    }
}

#[test]
fn rejects_foreign_and_malformed_packets() {
    let mut filter = StreamFilter::new(config::RTP_PAYLOAD_TYPE);
    let mut buffer = jitter_buffer_for(config::FRAME_MS, config::SAMPLE_RATE, Latency::Balanced);
    deliver(&mut filter, &mut buffer, &[0, 1, 2]);
    deliver(&mut filter, &mut buffer, &datagram(0, 0, &[1, 2, 3]));

    let mut foreign = datagram(1, TICKS, &[1, 2, 3]);
    foreign[8..12].copy_from_slice(&0xffff_ffffu32.to_be_bytes());
    deliver(&mut filter, &mut buffer, &foreign);

    let mut wrong_type = datagram(2, TICKS * 2, &[1, 2, 3]);
    wrong_type[1] = 97;
    deliver(&mut filter, &mut buffer, &wrong_type);

    assert_eq!(filter.rejected(), 3, "only the matching packet counts");
    assert_eq!(buffer.stats().received, 1);
}

#[test]
fn the_latency_presets() {
    assert_eq!(Latency::Low.range_ms(), (40, 120));
    assert_eq!(Latency::Balanced.range_ms(), (80, 200));
    assert_eq!(Latency::Stable.range_ms(), (160, 400));
    assert_eq!(Latency::parse("LOW"), Some(Latency::Low));
    assert_eq!(Latency::parse("Balanced"), Some(Latency::Balanced));
    assert_eq!(Latency::parse("stable"), Some(Latency::Stable));
    assert_eq!(Latency::parse("fast"), None);
}

#[test]
fn a_preset_sets_the_buffers_bounds() {
    let buffer = jitter_buffer_for(20, 48000, Latency::Stable);
    assert_eq!(buffer.target_ms(), 160);
}

#[test]
fn silence_before_the_first_audio_is_not_a_dropout() {
    let mut counter = SilenceCounter::new();
    let report = counter.account(0, 1920, 2);
    assert_eq!(report.filled, 0);
    assert_eq!(report.silence, 1920);
    assert_eq!(counter.silence_frames, 0);
    let report = counter.account(1000, 1920, 2);
    assert_eq!(report.silence, 920);
    assert_eq!(counter.silence_frames, 0, "the fill that starts playback is not counted");
    assert!(counter.started);
    counter.account(1000, 1920, 2);
    assert_eq!(counter.silence_frames, 460);
}
