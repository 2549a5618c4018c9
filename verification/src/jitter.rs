//! Reorder buffer with an adaptive target depth, and the per-frame decision of
//! whether to decode, recover from FEC, or conceal.

use std::collections::BTreeMap;

use vstd::prelude::*;
use vstd::std_specs::iter::IteratorSpec;

use crate::rtp::{Packet, SequenceExtender, MAX_EXTENDED};

verus! {

broadcast use {vstd::std_specs::btree::group_btree_axioms, vstd::laws_cmp::group_laws_cmp};

/// The smallest key of a map, when it has any.
pub open spec fn least_key(m: Map<u64, Seq<u8>>) -> Option<u64> {
    if m.dom().len() == 0 {
        None
    } else {
        Some(choose|k: u64| m.contains_key(k) && forall|j: u64| m.contains_key(j) ==> k <= j)
    }
}

fn first_key(frames: &BTreeMap<u64, Vec<u8>>) -> (r: Option<u64>)
    ensures
        match r {
            None => frames@.dom().len() == 0,
            Some(k) => frames@.contains_key(k) && forall|j: u64| frames@.contains_key(j) ==> k <= j,
        },
{
    let mut least: Option<u64> = None;
    for k in iter: frames.keys()
        invariant
            iter.seq().unref().to_set() == frames@.dom(),
            iter.seq().len() == frames@.dom().len(),
            match least {
                None => iter.index() == 0,
                Some(m) => iter.index() > 0 && frames@.contains_key(m),
            },
            forall|i: int|
                0 <= i < iter.index() ==> (least matches Some(m) && m <= *#[trigger] iter.seq()[i]),
    {
        proof {
            assert(iter.seq().unref().to_set().contains(*k));
        }
        least = match least {
            None => Some(*k),
            Some(m) => if *k < m { Some(*k) } else { Some(m) },
        };
    }
    least
}

/// Whether `a * b` fits in 32 bits.
fn product_fits_u32(a: u128, b: u32) -> (r: bool)
    requires
        a <= u64::MAX as u128 + 1,
    ensures
        r == (a * b <= u32::MAX),
{
    proof {
        assert(a * b <= (u64::MAX as int + 1) * (u32::MAX as int)) by (nonlinear_arith)
            requires
                a <= u64::MAX as int + 1,
                b <= u32::MAX,
        ;
    }
    a * (b as u128) <= u32::MAX as u128
}

/// What the decoder should do for the next frame of audio.
#[derive(Debug, PartialEq, Eq)]
pub enum Step {
    /// The frame arrived; decode it.
    Decode(Vec<u8>),
    /// The frame was lost but the following one carries a redundant copy.
    /// Decode this payload with Opus in-band FEC.
    Recover(Vec<u8>),
    /// The frame was lost with no FEC source; run packet loss concealment.
    Conceal,
    /// Not enough buffered yet to start or continue; play silence.
    Starve,
}

/// Reception figures. The interarrival jitter estimate is floating point and
/// is kept by whoever feeds the buffer, alongside these.
#[derive(Debug, Default, Clone, Copy)]
pub struct Stats {
    pub received: u64,
    pub lost: u64,
    pub recovered: u64,
    pub concealed: u64,
    pub reordered: u64,
    pub duplicates: u64,
    pub late: u64,
    pub underruns: u64,
    pub longest_burst: u32,
    pub target_ms: u32,
    pub depth_ms: u32,
}

pub struct JitterBuffer {
    frames: BTreeMap<u64, Vec<u8>>,
    extender: SequenceExtender,
    next: Option<u64>,
    playing: bool,
    frame_ms: u32,
    clock_rate: u32,
    min_target_ms: u32,
    max_target_ms: u32,
    target_ms: u32,
    highest_seen: Option<u64>,
    current_burst: u32,
    longest_burst: u32,
    clean_since_us: u64,
    stats: Stats,
}

/// A shrink is only considered after this long without growing the target.
pub const SHRINK_AFTER_US: u64 = 10_000_000;

pub const SHRINK_STEP_MS: u32 = 5;

/// The depth the buffer asks for: room for the jitter margin plus a frame,
/// and for two frames more than the longest recent run of losses, clamped to
/// the configured range.
pub open spec fn wanted_ms(
    jitter_margin_ms: u32,
    longest_burst: u32,
    frame_ms: u32,
    min_ms: u32,
    max_ms: u32,
) -> int {
    let for_jitter = jitter_margin_ms + frame_ms;
    let for_bursts = (longest_burst + 2) * frame_ms;
    let wanted = if for_jitter >= for_bursts { for_jitter } else { for_bursts };
    if wanted < min_ms {
        min_ms as int
    } else if wanted > max_ms {
        max_ms as int
    } else {
        wanted
    }
}

impl JitterBuffer {
    /// Buffered frames by extended sequence number.
    pub closed spec fn frames(self) -> Map<u64, Seq<u8>> {
        self.frames@.map_values(|v: Vec<u8>| v@)
    }

    pub closed spec fn extender(self) -> SequenceExtender {
        self.extender
    }

    /// The extended sequence number of the frame to play next, once playing.
    pub closed spec fn next(self) -> Option<u64> {
        self.next
    }

    pub closed spec fn playing(self) -> bool {
        self.playing
    }

    pub closed spec fn spec_frame_ms(self) -> u32 {
        self.frame_ms
    }

    pub closed spec fn spec_clock_rate(self) -> u32 {
        self.clock_rate
    }

    pub closed spec fn min_target(self) -> u32 {
        self.min_target_ms
    }

    pub closed spec fn max_target(self) -> u32 {
        self.max_target_ms
    }

    /// The depth held while playing, in milliseconds.
    pub closed spec fn target(self) -> u32 {
        self.target_ms
    }

    pub closed spec fn highest_seen(self) -> Option<u64> {
        self.highest_seen
    }

    pub closed spec fn current_burst(self) -> u32 {
        self.current_burst
    }

    pub closed spec fn longest_burst(self) -> u32 {
        self.longest_burst
    }

    /// When the target last grew or shrank, or zero when the shrink timer has
    /// not started.
    pub closed spec fn clean_since(self) -> u64 {
        self.clean_since_us
    }

    /// The event counters. Their `longest_burst`, `target_ms` and `depth_ms`
    /// are not kept here: [`stats`](Self::stats) fills them in.
    pub closed spec fn counters(self) -> Stats {
        self.stats
    }

    /// How many frames are buffered.
    pub open spec fn frame_count(self) -> nat {
        self.frames().dom().len()
    }

    pub open spec fn depth(self) -> int {
        self.frame_count() * self.spec_frame_ms()
    }

    proof fn lemma_frame_count(self)
        ensures
            self.frames@.len() == self.frame_count(),
            self.frames@.dom() == self.frames().dom(),
    {
        assert(self.frames().dom() =~= self.frames@.dom());
    }

    pub closed spec fn wf(self) -> bool {
        &&& self.min_target_ms <= self.target_ms <= self.max_target_ms
        &&& self.max_target_ms + 2 * self.frame_ms <= u32::MAX
        &&& self.frames@.dom().finite()
        &&& self.frames@.dom().len() * self.frame_ms <= u32::MAX
        &&& !self.playing ==> self.next is None
        &&& self.next matches Some(n) ==> forall|k: u64| self.frames@.contains_key(k) ==> n <= k
        &&& forall|k: u64| self.frames@.contains_key(k) ==> k <= MAX_EXTENDED
        &&& self.next matches Some(n) ==> n <= MAX_EXTENDED + 1
    }

    /// Room in every counter, and in the 64-bit sequence space, for one more
    /// call of [`insert`](Self::insert) or [`pop`](Self::pop). Only a stream
    /// running for geological time runs out.
    pub open spec fn within_limits(self) -> bool {
        &&& self.extender().has_room()
        &&& self.counters().received < u64::MAX
        &&& self.counters().reordered < u64::MAX
        &&& self.counters().late < u64::MAX
        &&& self.counters().duplicates < u64::MAX
        &&& self.counters().lost < u64::MAX
        &&& self.counters().recovered < u64::MAX
        &&& self.counters().concealed < u64::MAX
        &&& self.counters().underruns < u64::MAX
        &&& self.current_burst() < u32::MAX
        &&& self.longest_burst() + 2 <= u32::MAX
        &&& (self.longest_burst() + 2) * self.spec_frame_ms() <= u32::MAX
        &&& (self.frame_count() + 1) * self.spec_frame_ms() <= u32::MAX
    }

    /// Every frame counted lost was either recovered from the next packet's
    /// redundant copy or concealed: the counters start so and every
    /// operation keeps them so.
    pub open spec fn losses_accounted(self) -> bool {
        self.counters().lost == self.counters().recovered + self.counters().concealed
    }

    pub fn new(frame_ms: u32, clock_rate: u32, min_target_ms: u32, max_target_ms: u32) -> (b: Self)
        requires
            min_target_ms <= max_target_ms,
            max_target_ms + 2 * frame_ms <= u32::MAX,
        ensures
            b.wf(),
            b.within_limits(),
            b.losses_accounted(),
            b.frames() == Map::<u64, Seq<u8>>::empty(),
            b.extender() == SequenceExtender::fresh(),
            !b.extender().started(),
            b.extender().position() == 0,
            b.extender().cycles() == 0,
            b.next() is None,
            !b.playing(),
            b.spec_frame_ms() == frame_ms,
            b.spec_clock_rate() == clock_rate,
            b.min_target() == min_target_ms,
            b.max_target() == max_target_ms,
            b.target() == min_target_ms,
            b.highest_seen() is None,
            b.current_burst() == 0,
            b.longest_burst() == 0,
            b.clean_since() == 0,
            b.counters() == (Stats {
                received: 0,
                lost: 0,
                recovered: 0,
                concealed: 0,
                reordered: 0,
                duplicates: 0,
                late: 0,
                underruns: 0,
                longest_burst: 0,
                target_ms: min_target_ms,
                depth_ms: 0,
            }),
    {
        let b = Self {
            frames: BTreeMap::new(),
            extender: SequenceExtender::default(),
            next: None,
            playing: false,
            frame_ms,
            clock_rate,
            min_target_ms,
            max_target_ms,
            target_ms: min_target_ms,
            highest_seen: None,
            current_burst: 0,
            longest_burst: 0,
            clean_since_us: 0,
            stats: Stats {
                received: 0,
                lost: 0,
                recovered: 0,
                concealed: 0,
                reordered: 0,
                duplicates: 0,
                late: 0,
                underruns: 0,
                longest_burst: 0,
                target_ms: min_target_ms,
                depth_ms: 0,
            },
        };
        assert(b.frames() =~= Map::<u64, Seq<u8>>::empty());
        assert(b.frames@.dom() =~= Set::<u64>::empty());
        assert(b.frames@.dom().finite());
        assert(b.frames@.dom().len() == 0);
        assert(b.frames@.dom().len() * b.frame_ms <= u32::MAX);
        assert(b.min_target_ms <= b.target_ms <= b.max_target_ms);
        assert(b.max_target_ms + 2 * b.frame_ms <= u32::MAX);
        assert(b.frames@.len() == 0);
        assert(b.frame_count() == 0);
        assert(b.spec_frame_ms() == frame_ms);
        assert(b.longest_burst() == 0);
        assert((b.frame_count() + 1) * b.spec_frame_ms() == frame_ms) by (nonlinear_arith)
            requires
                b.frame_count() == 0,
                b.spec_frame_ms() == frame_ms,
        ;
        assert((b.longest_burst() + 2) * b.spec_frame_ms() == 2 * frame_ms) by (nonlinear_arith)
            requires
                b.longest_burst() == 0,
                b.spec_frame_ms() == frame_ms,
        ;
        b
    }

    /// The clock the RTP timestamps count, for whoever estimates jitter.
    pub fn clock_rate(&self) -> (r: u32)
        ensures
            r == self.spec_clock_rate(),
    {
        self.clock_rate
    }

    pub fn frame_ms(&self) -> (r: u32)
        ensures
            r == self.spec_frame_ms(),
    {
        self.frame_ms
    }

    pub fn target_ms(&self) -> (r: u32)
        ensures
            r == self.target(),
    {
        self.target_ms
    }

    /// How much undecoded audio is buffered.
    pub fn depth_ms(&self) -> (r: u32)
        requires
            self.wf(),
        ensures
            r == self.depth(),
    {
        let count = self.frames.len();
        proof {
            self.lemma_frame_count();
            if self.frame_ms > 0 {
                assert(count <= u32::MAX) by (nonlinear_arith)
                    requires
                        count * self.frame_ms <= u32::MAX,
                        self.frame_ms > 0,
                ;
            }
        }
        if self.frame_ms == 0 {
            return 0;
        }
        (count as u32) * self.frame_ms
    }

    pub fn stats(&self) -> (s: Stats)
        requires
            self.wf(),
        ensures
            s == (Stats {
                longest_burst: self.longest_burst(),
                target_ms: self.target(),
                depth_ms: self.depth() as u32,
                ..self.counters()
            }),
    {
        Stats {
            longest_burst: self.longest_burst,
            target_ms: self.target_ms,
            depth_ms: self.depth_ms(),
            ..self.stats
        }
    }

    pub fn is_within_limits(&self) -> (r: bool)
        requires
            self.wf(),
        ensures
            r == self.within_limits(),
    {
        proof {
            self.lemma_frame_count();
        }
        let frames = self.frames.len() as u128;
        let burst = self.longest_burst as u128 + 2;
        self.extender.has_room_for_wrap() && self.stats.received < u64::MAX && self.stats.reordered
            < u64::MAX && self.stats.late < u64::MAX && self.stats.duplicates < u64::MAX
            && self.stats.lost < u64::MAX && self.stats.recovered < u64::MAX
            && self.stats.concealed < u64::MAX && self.stats.underruns < u64::MAX
            && self.current_burst < u32::MAX && self.longest_burst <= u32::MAX - 2
            && product_fits_u32(burst, self.frame_ms)
            && product_fits_u32(frames + 1, self.frame_ms)
    }
}

pub open spec fn saturating_sub_u32(a: u32, b: u32) -> u32 {
    if a >= b { (a - b) as u32 } else { 0 }
}

pub open spec fn saturating_sub_u64(a: u64, b: u64) -> u64 {
    if a >= b { (a - b) as u64 } else { 0 }
}

impl JitterBuffer {
    /// The extended sequence number a packet would be filed under.
    pub open spec fn extended_of(self, sequence: u16) -> u64 {
        self.extender().peek_spec(sequence) as u64
    }

    /// A packet for a frame the play position has already passed.
    pub open spec fn is_late(self, sequence: u16) -> bool {
        self.next() matches Some(n) && self.extended_of(sequence) < n
    }

    /// A packet older than one already seen.
    pub open spec fn is_reordered(self, sequence: u16) -> bool {
        self.highest_seen() matches Some(h) && self.extended_of(sequence) < h
    }

    pub open spec fn wanted(self, jitter_margin_ms: u32) -> int {
        wanted_ms(
            jitter_margin_ms,
            self.longest_burst(),
            self.spec_frame_ms(),
            self.min_target(),
            self.max_target(),
        )
    }

    /// Jitter or bursts ask for more depth than the target holds.
    pub open spec fn grows(self, jitter_margin_ms: u32) -> bool {
        self.wanted(jitter_margin_ms) > self.target()
    }

    /// Ten seconds have passed since the target last moved, so it gives back
    /// a step of depth.
    pub open spec fn shrinks(self, now_us: u64, jitter_margin_ms: u32) -> bool {
        &&& !self.grows(jitter_margin_ms)
        &&& self.clean_since() != 0
        &&& saturating_sub_u64(now_us, self.clean_since()) >= SHRINK_AFTER_US
    }

    pub open spec fn retargeted_target(self, now_us: u64, jitter_margin_ms: u32) -> u32 {
        let wanted = self.wanted(jitter_margin_ms);
        let floor = if wanted >= self.min_target() { wanted } else { self.min_target() as int };
        let stepped = saturating_sub_u32(self.target(), SHRINK_STEP_MS);
        if self.grows(jitter_margin_ms) {
            wanted as u32
        } else if self.shrinks(now_us, jitter_margin_ms) {
            if stepped >= floor { stepped } else { floor as u32 }
        } else {
            self.target()
        }
    }

    pub open spec fn retargeted_clean_since(self, now_us: u64, jitter_margin_ms: u32) -> u64 {
        if self.grows(jitter_margin_ms) || self.clean_since() == 0 || self.shrinks(
            now_us,
            jitter_margin_ms,
        ) {
            now_us
        } else {
            self.clean_since()
        }
    }

    pub open spec fn retargeted_longest_burst(self, now_us: u64, jitter_margin_ms: u32) -> u32 {
        if self.shrinks(now_us, jitter_margin_ms) {
            saturating_sub_u32(self.longest_burst(), 1)
        } else {
            self.longest_burst()
        }
    }

    pub open spec fn same_settings(self, other: Self) -> bool {
        &&& self.spec_frame_ms() == other.spec_frame_ms()
        &&& self.spec_clock_rate() == other.spec_clock_rate()
        &&& self.min_target() == other.min_target()
        &&& self.max_target() == other.max_target()
    }

    /// Files one packet. `arrival_us` is when it arrived; `jitter_margin_ms`
    /// is the depth the current interarrival jitter calls for, three jitter
    /// estimates rounded up to the millisecond, which the caller keeps.
    pub fn insert(&mut self, packet: &Packet, arrival_us: u64, jitter_margin_ms: u32)
        requires
            old(self).wf(),
            old(self).within_limits(),
            jitter_margin_ms + old(self).spec_frame_ms() <= u32::MAX,
        ensures
            final(self).wf(),
            final(self).same_settings(*old(self)),
            old(self).losses_accounted() ==> final(self).losses_accounted(),
            final(self).extender().started(),
            final(self).extender().position() == if old(self).extender().moves_forward_spec(
                packet.sequence,
            ) {
                old(self).extender().peek_spec(packet.sequence)
            } else {
                old(self).extender().position()
            },
            final(self).extender().cycles() <= old(self).extender().cycles() + 1,
            final(self).highest_seen() == if old(self).is_reordered(packet.sequence) {
                old(self).highest_seen()
            } else {
                Some(old(self).extended_of(packet.sequence))
            },
            final(self).next() == old(self).next(),
            final(self).playing() == old(self).playing(),
            final(self).current_burst() == old(self).current_burst(),
            old(self).is_late(packet.sequence) ==> {
                &&& final(self).frames() == old(self).frames()
                &&& final(self).target() == old(self).target()
                &&& final(self).clean_since() == old(self).clean_since()
                &&& final(self).longest_burst() == old(self).longest_burst()
                &&& final(self).counters() == (Stats {
                    received: (old(self).counters().received + 1) as u64,
                    reordered: (old(self).counters().reordered + if old(self).is_reordered(
                        packet.sequence,
                    ) {
                        1int
                    } else {
                        0int
                    }) as u64,
                    late: (old(self).counters().late + 1) as u64,
                    ..old(self).counters()
                })
            },
            !old(self).is_late(packet.sequence) ==> {
                &&& final(self).frames() == old(self).frames().insert(
                    old(self).extended_of(packet.sequence),
                    packet.payload@,
                )
                &&& final(self).target() == old(self).retargeted_target(
                    arrival_us,
                    jitter_margin_ms,
                )
                &&& final(self).target() >= if (old(self).longest_burst() + 2) * old(
                    self,
                ).spec_frame_ms() <= old(self).max_target() {
                    (old(self).longest_burst() + 2) * old(self).spec_frame_ms()
                } else {
                    old(self).max_target() as int
                }
                &&& final(self).clean_since() == old(self).retargeted_clean_since(
                    arrival_us,
                    jitter_margin_ms,
                )
                &&& final(self).longest_burst() == old(self).retargeted_longest_burst(
                    arrival_us,
                    jitter_margin_ms,
                )
                &&& final(self).counters() == (Stats {
                    received: (old(self).counters().received + 1) as u64,
                    reordered: (old(self).counters().reordered + if old(self).is_reordered(
                        packet.sequence,
                    ) {
                        1int
                    } else {
                        0int
                    }) as u64,
                    duplicates: (old(self).counters().duplicates + if old(
                        self,
                    ).frames().contains_key(old(self).extended_of(packet.sequence)) {
                        1int
                    } else {
                        0int
                    }) as u64,
                    ..old(self).counters()
                })
            },
    {
        self.stats.received += 1;

        let extended = self.extender.extend(packet.sequence);
        match self.highest_seen {
            Some(highest) if extended < highest => self.stats.reordered += 1,
            _ => self.highest_seen = Some(extended),
        }

        if let Some(next) = self.next {
            if extended < next {
                self.stats.late += 1;
                return;
            }
        }
        proof {
            self.lemma_frame_count();
        }
        let ghost before = self.frames@;
        let duplicate = self.frames.insert(extended, crate::bytes::to_vec(packet.payload));
        if duplicate.is_some() {
            self.stats.duplicates += 1;
        }
        proof {
            assert(self.frames() =~= old(self).frames().insert(extended, packet.payload@));
            if before.contains_key(extended) {
                assert(self.frames@.dom() =~= before.dom());
            } else {
                assert(self.frames@.dom() =~= before.dom().insert(extended));
            }
            assert(self.frames@.len() <= before.len() + 1);
            assert(self.frames@.len() * self.frame_ms <= u32::MAX) by (nonlinear_arith)
                requires
                    self.frames@.len() <= before.len() + 1,
                    (before.len() + 1) * self.frame_ms <= u32::MAX,
            ;
        }
        proof {
            lemma_target_covers_jitter_and_bursts(*self, arrival_us, jitter_margin_ms);
        }
        self.retarget(arrival_us, jitter_margin_ms);
    }

    /// Grows the target immediately when jitter or bursts demand it, and
    /// gives back depth only slowly, so the buffer does not oscillate on a
    /// noisy link.
    fn retarget(&mut self, now_us: u64, jitter_margin_ms: u32)
        requires
            old(self).wf(),
            old(self).longest_burst() + 2 <= u32::MAX,
            (old(self).longest_burst() + 2) * old(self).spec_frame_ms() <= u32::MAX,
            jitter_margin_ms + old(self).spec_frame_ms() <= u32::MAX,
        ensures
            final(self).wf(),
            final(self).target() == old(self).retargeted_target(now_us, jitter_margin_ms),
            final(self).clean_since() == old(self).retargeted_clean_since(now_us, jitter_margin_ms),
            final(self).longest_burst() == old(self).retargeted_longest_burst(
                now_us,
                jitter_margin_ms,
            ),
            final(self).frames@ == old(self).frames@,
            final(self).frames() == old(self).frames(),
            final(self).extender == old(self).extender,
            final(self).next == old(self).next,
            final(self).playing == old(self).playing,
            final(self).highest_seen == old(self).highest_seen,
            final(self).current_burst == old(self).current_burst,
            final(self).stats == old(self).stats,
            final(self).same_settings(*old(self)),
    {
        let for_jitter = jitter_margin_ms + self.frame_ms;
        let bursts = self.longest_burst + 2;
        assert(bursts * self.frame_ms <= u32::MAX);
        let for_bursts = bursts * self.frame_ms;
        let mut wanted = if for_jitter >= for_bursts { for_jitter } else { for_bursts };
        if wanted < self.min_target_ms {
            wanted = self.min_target_ms;
        } else if wanted > self.max_target_ms {
            wanted = self.max_target_ms;
        }

        if wanted > self.target_ms {
            self.target_ms = wanted;
            self.clean_since_us = now_us;
            return;
        }
        if self.clean_since_us == 0 {
            self.clean_since_us = now_us;
            return;
        }
        if now_us.saturating_sub(self.clean_since_us) >= SHRINK_AFTER_US {
            self.longest_burst = self.longest_burst.saturating_sub(1);
            let floor = if wanted >= self.min_target_ms { wanted } else { self.min_target_ms };
            let stepped = self.target_ms.saturating_sub(SHRINK_STEP_MS);
            self.target_ms = if stepped >= floor { stepped } else { floor };
            self.clean_since_us = now_us;
        }
    }
}

/// Whether a step carries the given payload.
pub open spec fn carries(step: Step, payload: Seq<u8>) -> bool {
    match step {
        Step::Decode(p) => p@ == payload,
        Step::Recover(p) => p@ == payload,
        _ => false,
    }
}

impl JitterBuffer {
    /// Not playing yet, and short of the target plus the frame the first pop
    /// takes straight back out.
    pub open spec fn prebuffering(self) -> bool {
        !self.playing() && self.depth() < self.target() + self.spec_frame_ms()
    }

    /// The frame playback is at: the play position while playing, or the
    /// earliest buffered frame when playback is about to start.
    pub open spec fn cursor(self) -> Option<u64> {
        if self.playing() {
            self.next()
        } else {
            least_key(self.frames())
        }
    }

    /// Decides what the decoder does for the next frame slot.
    pub fn pop(&mut self) -> (step: Step)
        requires
            old(self).wf(),
            old(self).within_limits(),
        ensures
            final(self).wf(),
            final(self).same_settings(*old(self)),
            old(self).losses_accounted() ==> final(self).losses_accounted(),
            final(self).extender() == old(self).extender(),
            final(self).highest_seen() == old(self).highest_seen(),
            old(self).prebuffering() ==> step == Step::Starve && *final(self) == *old(self),
            !old(self).prebuffering() ==> match old(self).cursor() {
                None => {
                    &&& step == Step::Starve
                    &&& final(self).playing()
                    &&& final(self).next() is None
                    &&& final(self).frames() == old(self).frames()
                    &&& final(self).target() == old(self).target()
                    &&& final(self).clean_since() == old(self).clean_since()
                    &&& final(self).current_burst() == old(self).current_burst()
                    &&& final(self).longest_burst() == old(self).longest_burst()
                    &&& final(self).counters() == old(self).counters()
                },
                Some(n) => if old(self).frames().contains_key(n) {
                    &&& step is Decode
                    &&& carries(step, old(self).frames()[n])
                    &&& final(self).frames() == old(self).frames().remove(n)
                    &&& final(self).playing()
                    &&& final(self).next() == Some((n + 1) as u64)
                    &&& final(self).current_burst() == 0
                    &&& final(self).longest_burst() == old(self).longest_burst()
                    &&& final(self).target() == old(self).target()
                    &&& final(self).clean_since() == old(self).clean_since()
                    &&& final(self).counters() == old(self).counters()
                } else if old(self).frames().dom().len() == 0 {
                    &&& step == Step::Starve
                    &&& !final(self).playing()
                    &&& final(self).next() is None
                    &&& final(self).frames() == old(self).frames()
                    &&& final(self).target() == if old(self).target() + 2 * old(
                        self,
                    ).spec_frame_ms() <= old(self).max_target() {
                        (old(self).target() + 2 * old(self).spec_frame_ms()) as u32
                    } else {
                        old(self).max_target()
                    }
                    &&& final(self).clean_since() == 0
                    &&& final(self).current_burst() == old(self).current_burst()
                    &&& final(self).longest_burst() == old(self).longest_burst() + 1
                    &&& final(self).counters() == (Stats {
                        underruns: (old(self).counters().underruns + 1) as u64,
                        ..old(self).counters()
                    })
                } else {
                    &&& final(self).frames() == old(self).frames()
                    &&& final(self).playing()
                    &&& final(self).next() == Some((n + 1) as u64)
                    &&& final(self).current_burst() == old(self).current_burst() + 1
                    &&& final(self).longest_burst() == if old(self).longest_burst() >= old(
                        self,
                    ).current_burst() + 1 {
                        old(self).longest_burst() as int
                    } else {
                        old(self).current_burst() + 1
                    }
                    &&& final(self).target() == old(self).target()
                    &&& final(self).clean_since() == old(self).clean_since()
                    &&& if old(self).frames().contains_key((n + 1) as u64) {
                        &&& step is Recover
                        &&& carries(step, old(self).frames()[(n + 1) as u64])
                        &&& final(self).counters() == (Stats {
                            lost: (old(self).counters().lost + 1) as u64,
                            recovered: (old(self).counters().recovered + 1) as u64,
                            ..old(self).counters()
                        })
                    } else {
                        &&& step == Step::Conceal
                        &&& final(self).counters() == (Stats {
                            lost: (old(self).counters().lost + 1) as u64,
                            concealed: (old(self).counters().concealed + 1) as u64,
                            ..old(self).counters()
                        })
                    }
                },
            },
    {
        proof {
            self.lemma_frame_count();
        }
        if !self.playing {
            // One frame past the target, because the pop below takes a frame
            // straight back out; the target is the depth held while playing.
            if self.depth_ms() < self.target_ms + self.frame_ms {
                return Step::Starve;
            }
            let first = first_key(&self.frames);
            proof {
                assert(self.frames().dom() =~= self.frames@.dom());
                match first {
                    None => {
                        assert(self.frames().dom() =~= Set::<u64>::empty());
                    },
                    Some(k) => {
                        let m = self.frames();
                        let chosen = choose|c: u64|
                            m.contains_key(c) && forall|j: u64| m.contains_key(j) ==> c <= j;
                        assert(m.contains_key(k) && forall|j: u64| m.contains_key(j) ==> k <= j);
                        assert(chosen == k);
                    },
                }
            }
            self.next = first;
            self.playing = true;
        }

        let next = match self.next {
            Some(next) => next,
            None => {
                return Step::Starve;
            },
        };

        let ghost before = self.frames@;
        if let Some(payload) = self.frames.remove(&next) {
            self.current_burst = 0;
            self.next = Some(next + 1);
            proof {
                assert(self.frames() =~= old(self).frames().remove(next));
                assert(self.frames@.dom() =~= before.dom().remove(next));
                assert(self.frames@.len() * self.frame_ms <= u32::MAX) by (nonlinear_arith)
                    requires
                        self.frames@.len() <= before.len(),
                        before.len() * self.frame_ms <= u32::MAX,
                ;
            }
            return Step::Decode(payload);
        }

        if self.frames.is_empty() {
            self.stats.underruns += 1;
            self.grow_after_underrun();
            self.next = None;
            self.playing = false;
            return Step::Starve;
        }

        self.stats.lost += 1;
        self.current_burst += 1;
        if self.current_burst > self.longest_burst {
            self.longest_burst = self.current_burst;
        }
        self.next = Some(next + 1);
        match self.frames.get(&(next + 1)) {
            Some(fec_source) => {
                self.stats.recovered += 1;
                Step::Recover(fec_source.clone())
            },
            None => {
                self.stats.concealed += 1;
                Step::Conceal
            },
        }
    }

    /// Running dry means the target was too low for this link, whatever the
    /// jitter estimate said. Take the depth immediately and hold it: the
    /// shrink timer restarts from the next insert.
    fn grow_after_underrun(&mut self)
        requires
            old(self).wf(),
            old(self).longest_burst() < u32::MAX,
        ensures
            final(self).wf(),
            final(self).longest_burst() == old(self).longest_burst() + 1,
            final(self).target() == if old(self).target() + 2 * old(self).spec_frame_ms() <= old(
                self,
            ).max_target() {
                (old(self).target() + 2 * old(self).spec_frame_ms()) as u32
            } else {
                old(self).max_target()
            },
            final(self).clean_since() == 0,
            final(self).frames@ == old(self).frames@,
            final(self).extender == old(self).extender,
            final(self).next == old(self).next,
            final(self).playing == old(self).playing,
            final(self).highest_seen == old(self).highest_seen,
            final(self).current_burst == old(self).current_burst,
            final(self).stats == old(self).stats,
            final(self).same_settings(*old(self)),
    {
        self.longest_burst += 1;
        let grown = self.target_ms + 2 * self.frame_ms;
        self.target_ms = if grown <= self.max_target_ms { grown } else { self.max_target_ms };
        self.clean_since_us = 0;
    }
}

/// What every operation on the buffer keeps: its target stays between the
/// bounds it was made with, and no frame it holds lies before the frame it
/// plays next, so playback never moves backwards.
pub proof fn lemma_buffer_keeps_its_bounds(b: JitterBuffer)
    requires
        b.wf(),
    ensures
        b.min_target() <= b.target() <= b.max_target(),
        b.next() matches Some(n) ==> forall|k: u64| b.frames().contains_key(k) ==> n <= k,
        !b.playing() ==> b.next() is None,
{
}

/// The depth asked for after a packet arrives always covers both what
/// jitter and what losses call for, as far as the configured maximum allows:
/// at least the jitter margin plus a frame, and at least two frames more than
/// the longest recent run of losses, since a run of N losses empties N frames
/// of depth. It never exceeds the maximum, and it gives depth back only
/// after ten seconds without growing, five milliseconds at a time.
pub proof fn lemma_target_covers_jitter_and_bursts(b: JitterBuffer, now_us: u64, jitter_margin_ms: u32)
    requires
        b.wf(),
    ensures
        b.retargeted_target(now_us, jitter_margin_ms) >= if (b.longest_burst() + 2) * b.spec_frame_ms()
            <= b.max_target() {
            (b.longest_burst() + 2) * b.spec_frame_ms()
        } else {
            b.max_target() as int
        },
        b.retargeted_target(now_us, jitter_margin_ms) >= if jitter_margin_ms + b.spec_frame_ms()
            <= b.max_target() {
            jitter_margin_ms + b.spec_frame_ms()
        } else {
            b.max_target() as int
        },
        b.retargeted_target(now_us, jitter_margin_ms) <= b.max_target(),
        b.retargeted_target(now_us, jitter_margin_ms) + 5 >= b.target(),
        b.retargeted_target(now_us, jitter_margin_ms) < b.target() ==> b.clean_since() != 0 && now_us
            >= b.clean_since() + 10_000_000,
{
    lemma_buffer_keeps_its_bounds(b);
}

} // verus!
