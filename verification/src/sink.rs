//! Audio output for the desktop receiver: a child process reading raw float
//! samples on stdin, or nothing at all for soak testing. Spawning the player
//! and writing samples belong to the program; which player, with which
//! arguments, and how long the null sink waits are decided here.

use vstd::prelude::*;

use crate::config;
use crate::text::{decimal, decimal_text, push_decimal, push_literal, push_text, same_text, texts};

verus! {

/// The players tried, in order, when none is named.
pub fn sink_programs() -> (r: Vec<&'static str>)
    ensures
        r@.len() == 3,
        r@[0]@ == "pacat"@,
        r@[1]@ == "aplay"@,
        r@[2]@ == "ffplay"@,
{
    let mut v: Vec<&'static str> = Vec::new();
    v.push("pacat");
    v.push("aplay");
    v.push("ffplay");
    v
}

/// What `--sink` asks for.
pub enum SinkChoice {
    /// Discard the audio at real time.
    Null,
    /// Play through the named program.
    Program(String),
    /// Play through the first player that starts.
    Detect,
}

pub fn choose_sink(sink: Option<&str>) -> (c: SinkChoice)
    ensures
        match sink {
            None => c is Detect,
            Some(s) => if s@ == "null"@ {
                c is Null
            } else {
                c matches SinkChoice::Program(p) && p@ == s@
            },
        },
{
    match sink {
        None => SinkChoice::Detect,
        Some(s) => if same_text(s, "null") {
            SinkChoice::Null
        } else {
            SinkChoice::Program(s.to_owned())
        },
    }
}

pub open spec fn pacat_args(latency_ms: u32) -> Seq<Seq<char>> {
    seq![
        "--raw"@,
        "--format=float32le"@,
        "--rate="@ + decimal(config::SAMPLE_RATE as nat),
        "--channels="@ + decimal(config::CHANNELS as nat),
        "--latency-msec="@ + decimal(latency_ms as nat),
        "--stream-name=Ausha"@,
    ]
}

pub open spec fn aplay_args() -> Seq<Seq<char>> {
    seq![
        "-q"@, "-f"@, "FLOAT_LE"@,
        "-r"@, decimal(config::SAMPLE_RATE as nat),
        "-c"@, decimal(config::CHANNELS as nat),
        "-t"@, "raw"@,
    ]
}

pub open spec fn ffplay_args() -> Seq<Seq<char>> {
    seq![
        "-hide_banner"@, "-loglevel"@, "error"@,
        "-nodisp"@, "-autoexit"@,
        "-f"@, "f32le"@,
        "-ar"@, decimal(config::SAMPLE_RATE as nat),
        "-ac"@, decimal(config::CHANNELS as nat),
        "-i"@, "-"@,
    ]
}

/// The arguments a player is started with: `pacat` and `aplay` know their
/// own, and anything else is taken to read like `ffplay`.
pub open spec fn sink_args_spec(program: Seq<char>, latency_ms: u32) -> Seq<Seq<char>> {
    if program == "pacat"@ {
        pacat_args(latency_ms)
    } else if program == "aplay"@ {
        aplay_args()
    } else {
        ffplay_args()
    }
}

fn with_decimal(prefix: &str, v: u64) -> (r: String)
    ensures
        r@ == prefix@ + decimal(v as nat),
{
    let mut s = prefix.to_owned();
    push_decimal(&mut s, v);
    s
}

pub fn sink_args(program: &str, latency_ms: u32) -> (r: Vec<String>)
    ensures
        texts(r@) == sink_args_spec(program@, latency_ms),
{
    let mut args: Vec<String> = Vec::new();
    if same_text(program, "pacat") {
        push_literal(&mut args, "--raw");
        push_literal(&mut args, "--format=float32le");
        push_text(&mut args, with_decimal("--rate=", config::SAMPLE_RATE as u64));
        push_text(&mut args, with_decimal("--channels=", config::CHANNELS as u64));
        push_text(&mut args, with_decimal("--latency-msec=", latency_ms as u64));
        push_literal(&mut args, "--stream-name=Ausha");
        assert(texts(args@) =~= pacat_args(latency_ms));
    } else if same_text(program, "aplay") {
        push_literal(&mut args, "-q");
        push_literal(&mut args, "-f");
        push_literal(&mut args, "FLOAT_LE");
        push_literal(&mut args, "-r");
        push_text(&mut args, decimal_text(config::SAMPLE_RATE as u64));
        push_literal(&mut args, "-c");
        push_text(&mut args, decimal_text(config::CHANNELS as u64));
        push_literal(&mut args, "-t");
        push_literal(&mut args, "raw");
        assert(texts(args@) =~= aplay_args());
    } else {
        push_literal(&mut args, "-hide_banner");
        push_literal(&mut args, "-loglevel");
        push_literal(&mut args, "error");
        push_literal(&mut args, "-nodisp");
        push_literal(&mut args, "-autoexit");
        push_literal(&mut args, "-f");
        push_literal(&mut args, "f32le");
        push_literal(&mut args, "-ar");
        push_text(&mut args, decimal_text(config::SAMPLE_RATE as u64));
        push_literal(&mut args, "-ac");
        push_text(&mut args, decimal_text(config::CHANNELS as u64));
        push_literal(&mut args, "-i");
        push_literal(&mut args, "-");
        assert(texts(args@) =~= ffplay_args());
    }
    args
}

/// Discards audio but consumes it at real time, for soak testing without a
/// sound card. It counts the frames written; the program keeps the moment it
/// started and sleeps as told.
pub struct Null {
    pub written: u64,
}

impl Null {
    pub fn new() -> (n: Self)
        ensures
            n.written == 0,
    {
        Null { written: 0 }
    }

    /// Takes `samples` interleaved samples, `elapsed_us` after the sink
    /// started, and says how long to sleep so that the audio written so far
    /// has taken its own length to play; `None` when it already has.
    pub fn write(&mut self, samples: usize, elapsed_us: u64) -> (wait_us: Option<u64>)
        requires
            old(self).written + samples as int / (config::CHANNELS as int) <= u64::MAX / 1_000_000,
        ensures
            final(self).written == old(self).written + samples as int / (config::CHANNELS as int),
            ({
                let due = final(self).written * 1_000_000 / (config::SAMPLE_RATE as int);
                match wait_us {
                    Some(w) => due >= elapsed_us && w == due - elapsed_us,
                    None => due < elapsed_us,
                }
            }),
    {
        self.written = self.written + (samples / config::CHANNELS as usize) as u64;
        let due = self.written * 1_000_000 / config::SAMPLE_RATE as u64;
        due.checked_sub(elapsed_us)
    }
}

} // verus!
