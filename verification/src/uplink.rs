//! The sender's end of the microphone channel from a receiver: which
//! datagrams reach the decoder, and the clock that meters audio into the
//! virtual microphone.
//!
//! Decoding and writing the pipe belong to the program; time comes in as
//! microseconds elapsed since the clock started.

use vstd::prelude::*;

use crate::crypto::{advanced, opened_spec, Opener};
use crate::rtp::{parse, parse_spec};

verus! {

/// The SSRC of an RTP packet, or nothing when it does not parse.
#[verifier::opaque]
pub open spec fn ssrc_spec(d: Seq<u8>) -> Option<u32> {
    match parse_spec(d) {
        Ok(p) => Some(p.ssrc),
        Err(_) => None,
    }
}

pub fn ssrc_of(datagram: &[u8]) -> (r: Option<u32>)
    ensures
        r == ssrc_spec(datagram@),
{
    reveal(ssrc_spec);
    match parse(datagram) {
        Ok(packet) => Some(packet.ssrc),
        Err(_) => None,
    }
}

/// The plaintext of a datagram to the uplink port: opened when the session is
/// encrypted, as it came otherwise.
pub open spec fn plain_spec(datagram: Seq<u8>, opener: Option<Opener>) -> Option<Seq<u8>> {
    match opener {
        Some(o) => opened_spec(o.key(), o.sequence(), datagram),
        None => Some(datagram),
    }
}

/// The opener after `datagram` authenticated under `before`: its sequence
/// state has recorded the datagram's sequence number, and has at most one
/// more wrap of the 16-bit number behind it.
pub open spec fn opened_into(before: Opener, after: Option<Opener>, datagram: Seq<u8>) -> bool {
    match after {
        Some(n) => {
            &&& n.sequence().started()
            &&& n.sequence().position() == advanced(before.sequence(), datagram)
            &&& n.sequence().cycles() <= before.sequence().cycles() + 1
        },
        None => false,
    }
}

fn plaintext(datagram: &[u8], opener: &mut Option<Opener>) -> (r: Option<Vec<u8>>)
    requires
        *old(opener) matches Some(o) ==> o.sequence().has_room(),
    ensures
        match r {
            Some(p) => plain_spec(datagram@, *old(opener)) == Some(p@),
            None => plain_spec(datagram@, *old(opener)) is None,
        },
        *old(opener) is None ==> *final(opener) is None,
        *old(opener) matches Some(o) ==> *final(opener) matches Some(n) && n.key() == o.key() && (
        r is None ==> n.sequence() == o.sequence()),
        *old(opener) matches Some(o) ==> (r is Some ==> opened_into(o, *final(opener), datagram@)),
{
    match opener {
        Some(o) => o.open(datagram),
        None => {
            let mut out: Vec<u8> = Vec::new();
            crate::bytes::extend_from(&mut out, datagram);
            Some(out)
        },
    }
}

/// The packet a datagram to the uplink port carries, if it is for the session
/// holding the uplink: opened when the session is encrypted, and carrying the
/// SSRC the sender handed out, which identifies the session and survives a
/// NAT rebinding that the source address would not.
pub fn uplink_packet(datagram: &[u8], opener: &mut Option<Opener>, expected_ssrc: u32) -> (r: Option<Vec<u8>>)
    requires
        *old(opener) matches Some(o) ==> o.sequence().has_room(),
    ensures
        match plain_spec(datagram@, *old(opener)) {
            Some(plain) => match r {
                Some(p) => p@ == plain && ssrc_spec(plain) == Some(expected_ssrc),
                None => ssrc_spec(plain) != Some(expected_ssrc),
            },
            None => r is None,
        },
        *old(opener) is None ==> *final(opener) is None,
        *old(opener) matches Some(o) ==> *final(opener) matches Some(n) && n.key() == o.key() && (
        plain_spec(datagram@, *old(opener)) is None ==> n.sequence() == o.sequence()),
        *old(opener) matches Some(o) ==> (plain_spec(datagram@, *old(opener)) is Some ==> opened_into(
            o,
            *final(opener),
            datagram@,
        )),
{
    match plaintext(datagram, opener) {
        Some(plain) => keep_if_ours(plain, expected_ssrc),
        None => None,
    }
}

fn keep_if_ours(plain: Vec<u8>, expected_ssrc: u32) -> (r: Option<Vec<u8>>)
    ensures
        match r {
            Some(p) => p@ == plain@ && ssrc_spec(plain@) == Some(expected_ssrc),
            None => ssrc_spec(plain@) != Some(expected_ssrc),
        },
{
    if ssrc_of(plain.as_slice()) == Some(expected_ssrc) {
        Some(plain)
    } else {
        None
    }
}

/// How the virtual microphone's listener has changed.
#[derive(PartialEq, Eq, Structural, Debug, Clone, Copy)]
pub enum DiscardChange {
    /// Frames started being discarded: nothing is recording from the device.
    Started,
    /// Something is recording from the device again.
    Stopped,
    Unchanged,
}

/// Tells a change in whether frames are being discarded from the steady
/// state, and carries the new state.
pub fn report_discards(was_discarding: bool, discarding: bool) -> (r: (bool, DiscardChange))
    ensures
        r.0 == discarding,
        r.1 == (if !was_discarding && discarding {
            DiscardChange::Started
        } else if was_discarding && !discarding {
            DiscardChange::Stopped
        } else {
            DiscardChange::Unchanged
        }),
{
    let change = if !was_discarding && discarding {
        DiscardChange::Started
    } else if was_discarding && !discarding {
        DiscardChange::Stopped
    } else {
        DiscardChange::Unchanged
    };
    (discarding, change)
}

/// How far behind real time production may fall before the clock gives up
/// on making it up: a suspended machine, say, would otherwise be made up as
/// one long burst into the pipe.
pub const MAX_LAG_US: u64 = 200_000;

/// Counts out real time in samples, so that a slow iteration is made up
/// rather than accumulating into drift. Nothing else paces the virtual
/// microphone: a pipe accepts whatever it is given as fast as it is given.
pub struct Clock {
    pub produced: u64,
    pub per_second: u64,
}

/// The time the samples produced so far take to play, in whole microseconds.
pub open spec fn produced_us(produced: u64, per_second: u64) -> int {
    (produced as int * 1_000_000) / per_second as int
}

impl Clock {
    pub fn new(per_second: u32) -> (c: Self)
        requires
            per_second > 0,
        ensures
            c.produced == 0,
            c.per_second == per_second,
    {
        Clock { produced: 0, per_second: per_second as u64 }
    }

    fn elapsed_produced(&self) -> (us: u128)
        requires
            self.per_second > 0,
        ensures
            us == produced_us(self.produced, self.per_second),
    {
        assert(self.produced as u128 * 1_000_000 <= u64::MAX as u128 * 1_000_000) by (nonlinear_arith);
        (self.produced as u128 * 1_000_000) / self.per_second as u128
    }

    /// Whether the next frame is due, `elapsed_us` after the clock started.
    pub fn due(&self, elapsed_us: u64) -> (r: bool)
        requires
            self.per_second > 0,
        ensures
            r == (elapsed_us >= produced_us(self.produced, self.per_second)),
    {
        elapsed_us as u128 >= self.elapsed_produced()
    }

    /// Counts `samples` more as produced. When that still leaves production
    /// more than the allowed lag behind, the lost time is written off.
    pub fn produced(&mut self, samples: u64, elapsed_us: u64)
        requires
            old(self).per_second > 0,
            old(self).produced + samples <= u64::MAX,
            elapsed_us * old(self).per_second <= u64::MAX,
        ensures
            final(self).per_second == old(self).per_second,
            ({
                let counted = (old(self).produced + samples) as u64;
                if produced_us(counted, old(self).per_second) + MAX_LAG_US < elapsed_us {
                    final(self).produced == (elapsed_us as int * old(self).per_second as int / 1_000_000)
                } else {
                    final(self).produced == counted
                }
            }),
    {
        self.produced = self.produced + samples;
        if self.elapsed_produced() + (MAX_LAG_US as u128) < elapsed_us as u128 {
            self.produced = elapsed_us * self.per_second / 1_000_000;
        }
    }
}

} // verus!
