//! The capture side of the sender: which loopback device to record, and the
//! ffmpeg command line that encodes it as Opus over RTP.
//!
//! Running `pactl` and spawning ffmpeg are the program's; what their output
//! means and what ffmpeg is asked to do are decided here. The device names
//! and format are those of PulseAudio on Linux.

use vstd::prelude::*;

use crate::command::{output_text, second_word, second_word_of, CommandOutput};
use crate::config;
use crate::net::Endpoint;
use crate::text::{
    chars_of, decimal, decimal_text, ends_with, from_utf8_lossy, has_suffix, lines, lines_of,
    push_decimal, push_literal, push_str, push_text, string_from, texts, trim, trimmed,
};

verus! {

/// The ffmpeg input format this platform captures through.
pub const FORMAT: &'static str = "pulse";

/// Appended to a sink's name to name the source that records it.
pub const MONITOR_SUFFIX: &'static str = ".monitor";

pub const NO_MONITOR: &'static str = "no PulseAudio monitor source found; is PulseAudio running?";

pub struct Input {
    pub format: &'static str,
    pub device: String,
}

pub struct Settings {
    pub bitrate_kbps: u32,
    pub ssrc: u32,
    /// Where ffmpeg sends the RTP stream.
    pub ingest: Endpoint,
    pub rtcp_port: u16,
    /// Where ffmpeg sends the MPEG-TS compatibility stream, if one is wanted.
    pub compat_ingest: Option<Endpoint>,
}

/// Takes the user at their word when they name a device with `--capture`,
/// since only they know what an unusual sound setup calls it.
pub fn named(device: String) -> (i: Input)
    ensures
        i.format@ == FORMAT@,
        i.device@ == device@,
{
    Input { format: FORMAT, device }
}

/// dshow takes `audio=<name>`, and a name that already says so is passed
/// through so `--capture "video=..."` stays possible.
pub open spec fn qualified(device: Seq<char>) -> Seq<char> {
    if device.contains('=') {
        device
    } else {
        "audio="@ + device
    }
}

pub fn qualify(device: &str) -> (r: String)
    ensures
        r@ == qualified(device@),
{
    let cs = chars_of(device);
    let mut i: usize = 0;
    while i < cs.len()
        invariant
            cs@ == device@,
            i <= cs@.len(),
            forall|j: int| 0 <= j < i ==> cs@[j] != '=',
        decreases cs@.len() - i,
    {
        if cs[i] == '=' {
            assert(device@.contains('=')) by {
                assert(device@[i as int] == '=');
            }
            return device.to_owned();
        }
        i += 1;
    }
    let mut out = "audio=".to_owned();
    push_str(&mut out, device);
    out
}

/// The default sink `pactl get-default-sink` reported, if it ran, succeeded
/// and printed a name.
pub open spec fn default_sink_spec(output: Option<CommandOutput>) -> Option<Seq<char>> {
    match output {
        Some(o) => {
            let name = trim(output_text(o.stdout@));
            if o.success && name.len() > 0 {
                Some(name)
            } else {
                None
            }
        },
        None => None,
    }
}

/// The first monitor source in the lines of `pactl list sources short`: the
/// first line whose second column ends in `.monitor`.
pub open spec fn first_monitor_in(ls: Seq<Seq<char>>) -> Option<Seq<char>>
    decreases ls.len(),
{
    if ls.len() == 0 {
        None
    } else {
        match second_word(ls[0]) {
            Some(name) => if ends_with(name, MONITOR_SUFFIX@) {
                Some(name)
            } else {
                first_monitor_in(ls.drop_first())
            },
            None => first_monitor_in(ls.drop_first()),
        }
    }
}

pub open spec fn first_monitor_spec(output: Option<CommandOutput>) -> Option<Seq<char>> {
    match output {
        Some(o) => if o.success {
            first_monitor_in(lines(output_text(o.stdout@)))
        } else {
            None
        },
        None => None,
    }
}

/// What detection settles on: the default sink's monitor, else the first
/// monitor source listed, else nothing.
pub open spec fn detected(default_sink: Option<CommandOutput>, sources: Option<CommandOutput>) -> Option<Seq<char>> {
    match default_sink_spec(default_sink) {
        Some(sink) => Some(sink + MONITOR_SUFFIX@),
        None => first_monitor_spec(sources),
    }
}

proof fn lemma_first_monitor_is_a_monitor(ls: Seq<Seq<char>>)
    ensures
        first_monitor_in(ls) matches Some(d) ==> ends_with(d, MONITOR_SUFFIX@),
    decreases ls.len(),
{
    if ls.len() > 0 {
        lemma_first_monitor_is_a_monitor(ls.drop_first());
    }
}

/// Whatever detection settles on is a monitor source, ending in `.monitor`;
/// and when a default sink is reported, it is that sink's own monitor, so the
/// speakers behind it are the default sink.
pub proof fn lemma_detection_finds_a_monitor(default_sink: Option<CommandOutput>, sources: Option<CommandOutput>)
    ensures
        detected(default_sink, sources) matches Some(d) ==> ends_with(d, MONITOR_SUFFIX@),
        default_sink_spec(default_sink) matches Some(sink) ==> (detected(default_sink, sources) matches Some(
            d,
        ) && d.take(d.len() - MONITOR_SUFFIX@.len()) == sink),
{
    reveal_strlit(".monitor");
    match default_sink_spec(default_sink) {
        Some(sink) => {
            let d = sink + MONITOR_SUFFIX@;
            assert(d.skip(d.len() - MONITOR_SUFFIX@.len()) =~= MONITOR_SUFFIX@);
            assert(d.take(d.len() - MONITOR_SUFFIX@.len()) =~= sink);
        },
        None => {
            match sources {
                Some(o) => lemma_first_monitor_is_a_monitor(lines(output_text(o.stdout@))),
                None => {},
            }
        },
    }
}

/// The default sink's name out of `pactl get-default-sink`; `None` when it
/// could not be run.
pub fn default_sink(output: &Option<CommandOutput>) -> (r: Option<String>)
    ensures
        match r {
            Some(n) => default_sink_spec(*output) == Some(n@),
            None => default_sink_spec(*output) is None,
        },
{
    match output {
        Some(o) => {
            if !o.success {
                return None;
            }
            let text = from_utf8_lossy(o.stdout.as_slice());
            let cs = chars_of(text.as_str());
            let name = trimmed(cs.as_slice());
            if name.len() == 0 {
                None
            } else {
                Some(string_from(name.as_slice()))
            }
        },
        None => None,
    }
}

/// The first monitor source out of `pactl list sources short`; `None` when
/// it could not be run.
pub fn first_monitor_source(output: &Option<CommandOutput>) -> (r: Option<String>)
    ensures
        match r {
            Some(n) => first_monitor_spec(*output) == Some(n@),
            None => first_monitor_spec(*output) is None,
        },
{
    let o = match output {
        Some(o) => o,
        None => {
            return None;
        },
    };
    if !o.success {
        return None;
    }
    let text = from_utf8_lossy(o.stdout.as_slice());
    let cs = chars_of(text.as_str());
    let ls = lines_of(cs.as_slice());
    let suffix = chars_of(MONITOR_SUFFIX);
    let ghost all = lines(output_text(o.stdout@));
    let mut i: usize = 0;
    assert(all.skip(0) =~= all);
    while i < ls.len()
        invariant
            ls@.len() == all.len(),
            forall|k: int| 0 <= k < ls@.len() ==> #[trigger] ls@[k]@ == all[k],
            suffix@ == MONITOR_SUFFIX@,
            *output == Some(*o),
            o.success,
            all == lines(output_text(o.stdout@)),
            i <= ls@.len(),
            first_monitor_in(all) == first_monitor_in(all.skip(i as int)),
        decreases ls@.len() - i,
    {
        let ghost rest = all.skip(i as int);
        assert(rest.len() > 0);
        assert(rest[0] == all[i as int]);
        assert(rest.drop_first() =~= all.skip(i + 1));
        match second_word_of(ls[i].as_slice()) {
            Some(name) => {
                if has_suffix(name.as_slice(), suffix.as_slice()) {
                    return Some(string_from(name.as_slice()));
                }
            },
            None => {},
        }
        i += 1;
    }
    assert(all.skip(i as int) =~= Seq::<Seq<char>>::empty());
    None
}

/// Settles on the device to record from the outputs of `pactl
/// get-default-sink` and `pactl list sources short` (`None` for one that
/// could not be run; the second is only needed when the first names no sink).
pub fn detect(default_sink_output: Option<CommandOutput>, sources_output: Option<CommandOutput>) -> (r: Result<Input, String>)
    ensures
        match r {
            Ok(i) => i.format@ == FORMAT@ && detected(default_sink_output, sources_output) == Some(i.device@),
            Err(e) => detected(default_sink_output, sources_output) is None && e@ == NO_MONITOR@,
        },
{
    match default_sink(&default_sink_output) {
        Some(sink) => {
            let mut device = sink;
            push_str(&mut device, MONITOR_SUFFIX);
            Ok(Input { format: FORMAT, device })
        },
        None => match first_monitor_source(&sources_output) {
            Some(device) => Ok(Input { format: FORMAT, device }),
            None => Err(NO_MONITOR.to_owned()),
        },
    }
}

/// The device the user named, or the detected one.
pub fn resolve(device: Option<String>, default_sink_output: Option<CommandOutput>, sources_output: Option<CommandOutput>) -> (r: Result<Input, String>)
    ensures
        match device {
            Some(d) => r matches Ok(i) && i.format@ == FORMAT@ && i.device@ == d@,
            None => match r {
                Ok(i) => i.format@ == FORMAT@ && detected(default_sink_output, sources_output) == Some(i.device@),
                Err(e) => detected(default_sink_output, sources_output) is None && e@ == NO_MONITOR@,
            },
        },
{
    match device {
        Some(d) => Ok(named(d)),
        None => detect(default_sink_output, sources_output),
    }
}

// ---------------------------------------------------------------------------
// The ffmpeg command line.

/// Bytes in one frame of 16-bit samples, which is how large a piece ffmpeg
/// is asked to read from the capture device at a time.
pub open spec fn fragment_size() -> nat {
    (config::SAMPLE_RATE * config::FRAME_MS / 1000 * config::CHANNELS * 2) as nat
}

pub open spec fn kbps_text(bitrate_kbps: u32) -> Seq<char> {
    decimal(bitrate_kbps as nat) + "k"@
}

pub open spec fn rtp_destination(ingest: Endpoint, rtcp_port: u16) -> Seq<char> {
    "rtp://"@ + ingest.ip@ + ":"@ + decimal(ingest.port as nat) + "?rtcpport="@ + decimal(
        rtcp_port as nat,
    )
}

/// The main output: Opus over RTP, one frame per packet, with in-band FEC.
pub open spec fn main_args(input: Input, settings: Settings) -> Seq<Seq<char>> {
    seq![
        "-hide_banner"@, "-loglevel"@, "warning"@,
        "-fflags"@, "nobuffer"@,
        "-f"@, input.format@,
        "-fragment_size"@, decimal(fragment_size()),
        "-i"@, input.device@,
        "-c:a"@, "libopus"@,
        "-b:a"@, kbps_text(settings.bitrate_kbps),
        "-ar"@, decimal(config::SAMPLE_RATE as nat),
        "-ac"@, decimal(config::CHANNELS as nat),
        "-application"@, "audio"@,
        "-frame_duration"@, decimal(config::FRAME_MS as nat),
        "-packet_loss"@, decimal(config::EXPECTED_LOSS_PERCENT as nat),
        "-fec:a"@, "1"@,
        "-payload_type"@, decimal(config::RTP_PAYLOAD_TYPE as nat),
        "-ssrc"@, decimal(settings.ssrc as nat),
        "-muxdelay"@, "0"@,
        "-muxpreload"@, "0"@,
        "-map"@, "0:a"@,
        "-f"@, "rtp"@, rtp_destination(settings.ingest, settings.rtcp_port),
    ]
}

/// A second MPEG-TS output for players that cannot be handed an SDP, such as
/// mpv on Android. 1316 bytes is seven 188-byte TS packets, so a lost datagram
/// costs whole packets instead of straddling two.
pub open spec fn compat_args(bitrate_kbps: u32, target: Endpoint) -> Seq<Seq<char>> {
    seq![
        "-map"@, "0:a"@,
        "-c:a"@, "libopus"@,
        "-b:a"@, kbps_text(bitrate_kbps),
        "-f"@, "mpegts"@,
        "udp://"@ + target.text() + "?pkt_size=1316"@,
    ]
}

pub open spec fn build_args_spec(input: Input, settings: Settings) -> Seq<Seq<char>> {
    match settings.compat_ingest {
        Some(target) => main_args(input, settings) + compat_args(settings.bitrate_kbps, target),
        None => main_args(input, settings),
    }
}

fn kbps(bitrate_kbps: u32) -> (r: String)
    ensures
        r@ == kbps_text(bitrate_kbps),
{
    let mut s = decimal_text(bitrate_kbps as u64);
    push_str(&mut s, "k");
    s
}

pub fn compat_output(bitrate_kbps: u32, target: &Endpoint) -> (r: Vec<String>)
    ensures
        texts(r@) == compat_args(bitrate_kbps, *target),
{
    let mut url = "udp://".to_owned();
    target.push_to(&mut url);
    push_str(&mut url, "?pkt_size=1316");
    let mut args: Vec<String> = Vec::new();
    push_literal(&mut args, "-map");
    push_literal(&mut args, "0:a");
    push_literal(&mut args, "-c:a");
    push_literal(&mut args, "libopus");
    push_literal(&mut args, "-b:a");
    push_text(&mut args, kbps(bitrate_kbps));
    push_literal(&mut args, "-f");
    push_literal(&mut args, "mpegts");
    push_text(&mut args, url);
    assert(texts(args@) =~= compat_args(bitrate_kbps, *target));
    args
}

#[verifier::rlimit(40)]
fn main_output(input: &Input, settings: &Settings) -> (r: Vec<String>)
    ensures
        texts(r@) == main_args(*input, *settings),
{
    let fragment = decimal_text(
        config::SAMPLE_RATE as u64 * config::FRAME_MS as u64 / 1000 * config::CHANNELS as u64 * 2,
    );
    let mut destination = "rtp://".to_owned();
    push_str(&mut destination, settings.ingest.ip.as_str());
    push_str(&mut destination, ":");
    push_decimal(&mut destination, settings.ingest.port as u64);
    push_str(&mut destination, "?rtcpport=");
    push_decimal(&mut destination, settings.rtcp_port as u64);
    assert(destination@ =~= rtp_destination(settings.ingest, settings.rtcp_port));

    let mut args: Vec<String> = Vec::new();
    push_literal(&mut args, "-hide_banner");
    push_literal(&mut args, "-loglevel");
    push_literal(&mut args, "warning");
    push_literal(&mut args, "-fflags");
    push_literal(&mut args, "nobuffer");
    push_literal(&mut args, "-f");
    push_literal(&mut args, input.format);
    push_literal(&mut args, "-fragment_size");
    push_text(&mut args, fragment);
    push_literal(&mut args, "-i");
    push_literal(&mut args, input.device.as_str());
    push_literal(&mut args, "-c:a");
    push_literal(&mut args, "libopus");
    push_literal(&mut args, "-b:a");
    push_text(&mut args, kbps(settings.bitrate_kbps));
    push_literal(&mut args, "-ar");
    push_text(&mut args, decimal_text(config::SAMPLE_RATE as u64));
    push_literal(&mut args, "-ac");
    push_text(&mut args, decimal_text(config::CHANNELS as u64));
    push_literal(&mut args, "-application");
    push_literal(&mut args, "audio");
    push_literal(&mut args, "-frame_duration");
    push_text(&mut args, decimal_text(config::FRAME_MS as u64));
    push_literal(&mut args, "-packet_loss");
    push_text(&mut args, decimal_text(config::EXPECTED_LOSS_PERCENT as u64));
    push_literal(&mut args, "-fec:a");
    push_literal(&mut args, "1");
    push_literal(&mut args, "-payload_type");
    push_text(&mut args, decimal_text(config::RTP_PAYLOAD_TYPE as u64));
    push_literal(&mut args, "-ssrc");
    push_text(&mut args, decimal_text(settings.ssrc as u64));
    push_literal(&mut args, "-muxdelay");
    push_literal(&mut args, "0");
    push_literal(&mut args, "-muxpreload");
    push_literal(&mut args, "0");
    push_literal(&mut args, "-map");
    push_literal(&mut args, "0:a");
    push_literal(&mut args, "-f");
    push_literal(&mut args, "rtp");
    push_text(&mut args, destination);
    assert(texts(args@) =~= main_args(*input, *settings));
    args
}

pub fn build_args(input: &Input, settings: &Settings) -> (r: Vec<String>)
    ensures
        texts(r@) == build_args_spec(*input, *settings),
{
    let mut args = main_output(input, settings);

    match &settings.compat_ingest {
        Some(target) => {
            let extra = compat_output(settings.bitrate_kbps, target);
            let ghost before = args@;
            let mut i: usize = 0;
            while i < extra.len()
                invariant
                    i <= extra@.len(),
                    texts(args@) == texts(before) + texts(extra@).take(i as int),
                decreases extra@.len() - i,
            {
                push_text(&mut args, extra[i].clone());
                assert(texts(extra@).take(i + 1) =~= texts(extra@).take(i as int).push(extra@[i as int]@));
                i += 1;
            }
            assert(texts(extra@).take(extra@.len() as int) =~= texts(extra@));
        },
        None => {},
    }
    args
}

} // verus!
