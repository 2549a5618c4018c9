//! The receive pipeline's integer side: how deep the listener wants the
//! buffer, and which datagrams belong to the stream at all.
//!
//! Decoding, resampling and drift correction run on floating-point samples
//! and live with the caller; everything that decides which packet is played,
//! and when, is here and in [`crate::jitter`].

use vstd::prelude::*;

use crate::config;
use crate::jitter::JitterBuffer;
use crate::rtp::{self, Packet, PacketView, parse_spec};
use crate::text::{ascii_lower_all, chars_of, same_chars, to_lower};

verus! {

/// What one fill produced: samples of real audio, and samples of silence
/// padding them out.
#[derive(Debug, Default, Clone, Copy)]
pub struct Report {
    pub filled: usize,
    pub silence: usize,
}

/// How much depth the buffer aims to hold. Deeper rides out worse networks at
/// the cost of delay, which is a judgement only the listener can make:
/// someone watching video wants Low, someone listening in another room wants
/// Stable.
#[derive(Debug, Clone, Copy, PartialEq, Eq)]
pub enum Latency {
    Low,
    Balanced,
    Stable,
}

pub open spec fn range_spec(latency: Latency) -> (u32, u32) {
    match latency {
        Latency::Low => (40, 120),
        Latency::Balanced => (config::JITTER_MIN_MS, config::JITTER_MAX_MS),
        Latency::Stable => (160, 400),
    }
}

/// The preset a name selects, in any letter case.
pub open spec fn latency_named(name: Seq<char>) -> Option<Latency> {
    let lower = ascii_lower_all(name);
    if lower == "low"@ {
        Some(Latency::Low)
    } else if lower == "balanced"@ {
        Some(Latency::Balanced)
    } else if lower == "stable"@ {
        Some(Latency::Stable)
    } else {
        None
    }
}

impl Latency {
    /// The bounds, in milliseconds, between which the jitter buffer's target
    /// moves.
    pub fn range_ms(self) -> (r: (u32, u32))
        ensures
            r == range_spec(self),
            r.0 <= r.1,
            r.1 <= 400,
    {
        match self {
            Latency::Low => (40, 120),
            Latency::Balanced => (config::JITTER_MIN_MS, config::JITTER_MAX_MS),
            Latency::Stable => (160, 400),
        }
    }

    pub fn parse(name: &str) -> (r: Option<Self>)
        ensures
            r == latency_named(name@),
    {
        let cs = chars_of(name);
        let mut lower: Vec<char> = Vec::new();
        let mut i: usize = 0;
        while i < cs.len()
            invariant
                i <= cs@.len(),
                cs@ == name@,
                lower@ == ascii_lower_all(name@.take(i as int)),
            decreases cs@.len() - i,
        {
            lower.push(to_lower(cs[i]));
            i += 1;
            assert(ascii_lower_all(name@.take(i as int)) =~= ascii_lower_all(name@.take(i - 1)).push(
                crate::text::ascii_lower(name@[i - 1]),
            ));
        }
        assert(name@.take(name@.len() as int) =~= name@);
        if same_chars(lower.as_slice(), "low") {
            Some(Latency::Low)
        } else if same_chars(lower.as_slice(), "balanced") {
            Some(Latency::Balanced)
        } else if same_chars(lower.as_slice(), "stable") {
            Some(Latency::Stable)
        } else {
            None
        }
    }
}

/// A jitter buffer sized for a stream's frames and clock within a preset's
/// bounds.
pub fn jitter_buffer_for(ptime_ms: u32, rate: u32, latency: Latency) -> (b: JitterBuffer)
    requires
        range_spec(latency).1 + 2 * ptime_ms <= u32::MAX,
    ensures
        b.wf(),
        b.within_limits(),
        b.frames() == Map::<u64, Seq<u8>>::empty(),
        b.spec_frame_ms() == ptime_ms,
        b.spec_clock_rate() == rate,
        (b.min_target(), b.max_target()) == range_spec(latency),
        b.target() == range_spec(latency).0,
        !b.playing(),
        b.frames().dom().len() == 0,
{
    let (min_ms, max_ms) = latency.range_ms();
    let b = JitterBuffer::new(ptime_ms, rate, min_ms, max_ms);
    proof {
        assert(b.frames().dom() =~= Set::<u64>::empty());
    }
    b
}

/// Whether a datagram is a packet of the expected stream, given the SSRC
/// locked onto so far.
pub open spec fn admits(payload_type: u8, locked: Option<u32>, d: Seq<u8>) -> bool {
    match parse_spec(d) {
        Ok(p) => p.payload_type == payload_type && (locked matches Some(s) ==> s == p.ssrc),
        Err(_) => false,
    }
}

/// Sorts arriving datagrams into the stream's packets and the rest: anything
/// that does not parse, carries another payload type, or comes from an SSRC
/// other than the first one seen.
pub struct StreamFilter {
    payload_type: u8,
    ssrc: Option<u32>,
    rejected: u64,
}

impl StreamFilter {
    pub closed spec fn payload_type(self) -> u8 {
        self.payload_type
    }

    /// The SSRC the first accepted packet carried.
    pub closed spec fn locked(self) -> Option<u32> {
        self.ssrc
    }

    pub closed spec fn rejected_count(self) -> u64 {
        self.rejected
    }

    pub fn new(payload_type: u8) -> (f: Self)
        ensures
            f.payload_type() == payload_type,
            f.locked() is None,
            f.rejected_count() == 0,
    {
        Self { payload_type, ssrc: None, rejected: 0 }
    }

    pub fn rejected(&self) -> (r: u64)
        ensures
            r == self.rejected_count(),
    {
        self.rejected
    }

    /// The packet a datagram carries, if it belongs to the stream; otherwise
    /// `None`, counted as rejected.
    pub fn accept<'a>(&mut self, datagram: &'a [u8]) -> (r: Option<Packet<'a>>)
        requires
            old(self).rejected_count() < u64::MAX,
        ensures
            final(self).payload_type() == old(self).payload_type(),
            admits(old(self).payload_type(), old(self).locked(), datagram@) ==> {
                &&& r matches Some(p) && parse_spec(datagram@) == Ok::<PacketView, rtp::Error>(
                    p.view(),
                )
                &&& final(self).locked() == Some(parse_spec(datagram@)->Ok_0.ssrc)
                &&& final(self).rejected_count() == old(self).rejected_count()
            },
            !admits(old(self).payload_type(), old(self).locked(), datagram@) ==> {
                &&& r is None
                &&& final(self).locked() == old(self).locked()
                &&& final(self).rejected_count() == old(self).rejected_count() + 1
            },
    {
        let packet = match rtp::parse(datagram) {
            Ok(packet) => packet,
            Err(_) => {
                self.rejected += 1;
                return None;
            },
        };
        if packet.payload_type != self.payload_type {
            self.rejected += 1;
            return None;
        }
        match self.ssrc {
            Some(ssrc) => {
                if ssrc != packet.ssrc {
                    self.rejected += 1;
                    return None;
                }
            },
            None => {
                self.ssrc = Some(packet.ssrc);
            },
        }
        Some(packet)
    }
}

/// Counts the frames of silence a listener heard as dropouts. Silence before
/// the first real audio is the buffer filling, not a dropout.
pub struct SilenceCounter {
    pub started: bool,
    pub silence_frames: u64,
}

impl SilenceCounter {
    pub fn new() -> (c: Self)
        ensures
            !c.started,
            c.silence_frames == 0,
    {
        SilenceCounter { started: false, silence_frames: 0 }
    }

    /// Accounts for one fill of `len` interleaved samples of which the first
    /// `filled` were audio and the rest silence.
    pub fn account(&mut self, filled: usize, len: usize, channels: usize) -> (r: Report)
        requires
            filled <= len,
            channels > 0,
            old(self).silence_frames + (len - filled) / channels as int <= u64::MAX,
        ensures
            r.filled == filled,
            r.silence == len - filled,
            final(self).silence_frames == if old(self).started {
                old(self).silence_frames + (len - filled) / channels as int
            } else {
                old(self).silence_frames as int
            },
            final(self).started == (old(self).started || filled > 0),
    {
        let silence = len - filled;
        if self.started {
            self.silence_frames = self.silence_frames + (silence / channels) as u64;
        }
        self.started = self.started || filled > 0;
        Report { filled, silence }
    }
}

} // verus!
