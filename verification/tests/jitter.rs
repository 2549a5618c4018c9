use ausha::jitter::{JitterBuffer, Stats, Step};
use ausha::rtp::Packet;

const FRAME_MS: u32 = 20;
const CLOCK: u32 = 48000;
const TICKS: u32 = CLOCK / 1000 * FRAME_MS;

/// RFC 3550 interarrival jitter, kept beside the buffer the way a receiver
/// keeps it: a smoothed estimate of how much the gap between arrivals differs
/// from the gap the timestamps asked for.
struct Jitter {
    jitter: f64,
    last_transit: Option<i64>,
}

impl Jitter {
    fn observe(&mut self, clock_rate: u32, timestamp: u32, arrival_us: u64) {
        let arrival_ticks = (arrival_us as i128 * i128::from(clock_rate) / 1_000_000) as i64;
        let transit = arrival_ticks - i64::from(timestamp);
        if let Some(previous) = self.last_transit {
            let difference = (transit - previous).abs() as f64;
            self.jitter += (difference - self.jitter) / 16.0;
        }
        self.last_transit = Some(transit);
    }

    /// Three jitter estimates of headroom, in whole milliseconds.
    fn margin_ms(&self, clock_rate: u32) -> u32 {
        (3.0 * self.jitter * 1000.0 / f64::from(clock_rate)).ceil() as u32
    }
}

struct Link {
    buffer: JitterBuffer,
    jitter: Jitter,
    now_us: u64,
    sequence: u16,
    timestamp: u32,
}

impl Link {
    fn new() -> Self {
        Self {
            buffer: JitterBuffer::new(FRAME_MS, CLOCK, 40, 200),
            jitter: Jitter { jitter: 0.0, last_transit: None },
            now_us: 0,
            sequence: 0,
            timestamp: 0,
        }
    }

    /// Produces the next frame the sender would emit, advancing its clock.
    fn emit(&mut self) -> (u16, u32, Vec<u8>) {
        let frame = (self.sequence, self.timestamp, vec![self.sequence as u8; 40]);
        self.sequence = self.sequence.wrapping_add(1);
        self.timestamp = self.timestamp.wrapping_add(TICKS);
        self.now_us += u64::from(FRAME_MS) * 1000;
        frame
    }

    fn deliver(&mut self, frame: &(u16, u32, Vec<u8>), extra_delay_us: u64) {
        let packet = Packet {
            payload_type: 96,
            sequence: frame.0,
            timestamp: frame.1,
            ssrc: 1,
            marker: false,
            payload: &frame.2,
        };
        let arrival = self.now_us + extra_delay_us;
        self.jitter.observe(CLOCK, packet.timestamp, arrival);
        let margin = self.jitter.margin_ms(CLOCK);
        self.buffer.insert(&packet, arrival, margin);
    }
}

/// Runs `frames` frames through the buffer, dropping every `drop_every`-th
/// one, and returns what the decoder was asked to do for each output slot.
fn run_with_loss(frames: usize, drop_every: usize) -> (Vec<Step>, Stats) {
    let mut link = Link::new();
    let mut steps = Vec::new();
    for index in 0..frames {
        let frame = link.emit();
        if drop_every == 0 || index % drop_every != drop_every - 1 {
            link.deliver(&frame, 0);
        }
        match link.buffer.pop() {
            Step::Starve if steps.is_empty() => {}
            step => steps.push(step),
        }
    }
    (steps, link.buffer.stats())
}

#[test]
fn holds_output_until_the_target_is_buffered() {
    let mut link = Link::new();
    for _ in 0..2 {
        let frame = link.emit();
        link.deliver(&frame, 0);
        assert_eq!(link.buffer.pop(), Step::Starve, "under the 40 ms target plus a frame");
    }
    let frame = link.emit();
    link.deliver(&frame, 0);
    assert!(matches!(link.buffer.pop(), Step::Decode(_)), "three frames meet it");
}

#[test]
fn delivers_a_clean_stream_in_order_with_no_gaps() {
    let (steps, stats) = run_with_loss(200, 0);
    assert!(steps.iter().all(|s| matches!(s, Step::Decode(_))));
    assert_eq!(stats.lost, 0);
    assert_eq!(stats.underruns, 0);

    let payloads: Vec<u8> = steps
        .iter()
        .map(|s| match s {
            Step::Decode(p) => p[0],
            other => panic!("unexpected {other:?}"),
        })
        .collect();
    let expected: Vec<u8> = (0..payloads.len()).map(|i| i as u8).collect();
    assert_eq!(payloads, expected, "frames must come out in sender order");
}

#[test]
fn reordered_packets_are_put_back_in_order() {
    let mut link = Link::new();
    let frames: Vec<_> = (0..6).map(|_| link.emit()).collect();
    for index in [0, 1, 3, 2, 5, 4] {
        link.deliver(&frames[index], 0);
    }
    let mut order = Vec::new();
    while let Step::Decode(payload) = link.buffer.pop() {
        order.push(payload[0]);
    }
    assert_eq!(order, vec![0, 1, 2, 3, 4, 5]);
    assert_eq!(link.buffer.stats().lost, 0);
    assert_eq!(link.buffer.stats().reordered, 2);
}

#[test]
fn an_isolated_loss_is_recovered_from_the_next_packets_fec() {
    let (steps, stats) = run_with_loss(300, 10);
    let recovered = steps.iter().filter(|s| matches!(s, Step::Recover(_))).count();
    let concealed = steps.iter().filter(|s| matches!(s, Step::Conceal)).count();
    assert!(recovered > 0, "isolated losses should use FEC");
    assert_eq!(concealed, 0, "an isolated loss never needs concealment");
    assert_eq!(stats.recovered as usize, recovered);
    assert_eq!(stats.underruns, 0);
}

#[test]
fn consecutive_losses_fall_back_to_concealment() {
    let mut link = Link::new();
    let frames: Vec<_> = (0..12).map(|_| link.emit()).collect();
    for (index, frame) in frames.iter().enumerate() {
        if !(4..=6).contains(&index) {
            link.deliver(frame, 0);
        }
    }
    let mut steps = Vec::new();
    loop {
        match link.buffer.pop() {
            Step::Starve => break,
            step => steps.push(step),
        }
    }
    assert_eq!(steps[4], Step::Conceal, "no FEC source two frames ahead");
    assert_eq!(steps[5], Step::Conceal);
    assert!(matches!(steps[6], Step::Recover(_)), "frame 7 carries frame 6");
    assert!(matches!(steps[7], Step::Decode(_)));
}

#[test]
fn survives_ten_percent_loss_without_underrunning() {
    let (steps, stats) = run_with_loss(1000, 10);
    assert_eq!(stats.underruns, 0, "10% loss must not starve the buffer");
    // Two ticks are spent prebuffering to the 40 ms target plus a frame.
    assert_eq!(steps.len(), 1000 - 2, "one output slot per sender frame after that");
    let handled = steps
        .iter()
        .filter(|s| matches!(s, Step::Recover(_) | Step::Conceal))
        .count();
    assert_eq!(handled, stats.lost as usize);
    assert!(
        stats.recovered as f64 / stats.lost as f64 > 0.99,
        "isolated losses should almost all be recovered, got {}/{}",
        stats.recovered,
        stats.lost
    );
}

#[test]
fn a_jitter_burst_grows_the_target_and_it_shrinks_back_slowly() {
    let mut link = Link::new();
    for _ in 0..20 {
        let frame = link.emit();
        link.deliver(&frame, 0);
        let _ = link.buffer.pop();
    }
    let calm = link.buffer.target_ms();

    for index in 0..40 {
        let frame = link.emit();
        let spike = if index % 2 == 0 { 50_000 } else { 0 };
        link.deliver(&frame, spike);
        let _ = link.buffer.pop();
    }
    let stressed = link.buffer.target_ms();
    assert!(stressed > calm, "50 ms jitter bursts must grow the target ({calm} -> {stressed})");

    for _ in 0..2000 {
        let frame = link.emit();
        link.deliver(&frame, 0);
        let _ = link.buffer.pop();
    }
    let recovered = link.buffer.target_ms();
    assert!(
        recovered < stressed,
        "target must give depth back once the link is calm ({stressed} -> {recovered})"
    );
    assert!(recovered >= 40, "target must not fall below the floor");
}

#[test]
fn the_target_is_clamped_to_its_bounds() {
    let mut link = Link::new();
    for index in 0..200 {
        let frame = link.emit();
        link.deliver(&frame, if index % 2 == 0 { 900_000 } else { 0 });
        let _ = link.buffer.pop();
    }
    assert_eq!(link.buffer.target_ms(), 200, "clamped to the ceiling");
}

#[test]
fn late_packets_are_dropped_rather_than_played_out_of_order() {
    let mut link = Link::new();
    let frames: Vec<_> = (0..8).map(|_| link.emit()).collect();
    for frame in frames.iter().skip(1) {
        link.deliver(frame, 0);
    }
    let mut steps = Vec::new();
    for _ in 0..4 {
        steps.push(link.buffer.pop());
    }
    link.deliver(&frames[0], 0);
    assert_eq!(link.buffer.stats().late, 1);
    assert!(steps.iter().all(|s| !matches!(s, Step::Starve)));
}

#[test]
fn duplicates_are_counted_and_ignored() {
    let mut link = Link::new();
    let frames: Vec<_> = (0..6).map(|_| link.emit()).collect();
    for frame in &frames {
        link.deliver(frame, 0);
        link.deliver(frame, 0);
    }
    assert_eq!(link.buffer.stats().duplicates, 6);
    let mut count = 0;
    while let Step::Decode(_) = link.buffer.pop() {
        count += 1;
    }
    assert_eq!(count, 6, "a duplicate must not produce an extra frame");
}

#[test]
fn an_empty_buffer_underruns_and_deepens_its_target() {
    let mut link = Link::new();
    for _ in 0..3 {
        let frame = link.emit();
        link.deliver(&frame, 0);
    }
    for _ in 0..3 {
        assert!(matches!(link.buffer.pop(), Step::Decode(_)));
    }
    assert_eq!(link.buffer.pop(), Step::Starve);
    let stats = link.buffer.stats();
    assert_eq!(stats.underruns, 1);
    assert_eq!(stats.target_ms, 80, "40 ms plus two frames");
}

#[test]
fn depth_is_frames_held_times_the_frame_length() {
    let mut link = Link::new();
    for _ in 0..4 {
        let frame = link.emit();
        link.deliver(&frame, 0);
    }
    assert_eq!(link.buffer.depth_ms(), 80);
    assert_eq!(link.buffer.frame_ms(), 20);
    assert_eq!(link.buffer.clock_rate(), 48000);
}

#[test]
fn a_fresh_buffer_is_within_its_limits() {
    assert!(JitterBuffer::new(20, 48000, 40, 200).is_within_limits());
    assert!(JitterBuffer::new(10, 8000, 0, 0).is_within_limits());
}
