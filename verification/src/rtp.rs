//! RTP packet parsing (RFC 3550), building, and 16-bit sequence extension.

use vstd::prelude::*;

use crate::bytes::{
    be16, be16_bytes, be32, be32_bytes, push_be16, push_be32, read_be16, read_be32,
    extend_from,
};

verus! {

pub const HEADER_LEN: usize = 12;

pub const VERSION: u8 = 2;

#[derive(Debug, PartialEq, Eq, Clone, Copy)]
pub enum Error {
    TooShort,
    UnsupportedVersion(u8),
    BadPadding,
}

#[derive(Debug, Clone, Copy)]
pub struct Packet<'a> {
    pub payload_type: u8,
    pub sequence: u16,
    pub timestamp: u32,
    pub ssrc: u32,
    pub marker: bool,
    pub payload: &'a [u8],
}

/// What a packet says, with its payload as a plain sequence of bytes.
pub struct PacketView {
    pub payload_type: u8,
    pub sequence: u16,
    pub timestamp: u32,
    pub ssrc: u32,
    pub marker: bool,
    pub payload: Seq<u8>,
}

impl<'a> Packet<'a> {
    pub open spec fn view(self) -> PacketView {
        PacketView {
            payload_type: self.payload_type,
            sequence: self.sequence,
            timestamp: self.timestamp,
            ssrc: self.ssrc,
            marker: self.marker,
            payload: self.payload@,
        }
    }
}

/// The version field: the top two bits of the first byte.
pub open spec fn version_of(first: u8) -> u8 {
    first / 64
}

/// Number of 32-bit CSRC identifiers after the fixed header: the low four bits.
pub open spec fn csrc_count_of(first: u8) -> nat {
    (first % 16) as nat
}

pub open spec fn has_extension(first: u8) -> bool {
    (first / 16) % 2 == 1
}

pub open spec fn has_padding(first: u8) -> bool {
    (first / 32) % 2 == 1
}

/// Where the payload starts once the CSRC list is skipped, before any
/// extension header.
pub open spec fn csrc_end(d: Seq<u8>) -> int {
    HEADER_LEN + csrc_count_of(d[0]) * 4
}

/// Where the payload starts: past the fixed header, the CSRC list, and the
/// extension header with its words when the X bit is set.
pub open spec fn payload_start(d: Seq<u8>) -> int {
    let start = csrc_end(d);
    if has_extension(d[0]) {
        start + 4 + be16(d[start + 2], d[start + 3]) * 4
    } else {
        start
    }
}

/// Where the payload ends: the datagram's end, less the padding count the
/// last byte holds when the P bit is set.
pub open spec fn payload_end(d: Seq<u8>) -> int {
    if has_padding(d[0]) {
        d.len() - d[d.len() - 1]
    } else {
        d.len() as int
    }
}

/// RFC 3550 section 5.1, as far as a receiver of one stream needs it.
pub open spec fn parse_spec(d: Seq<u8>) -> Result<PacketView, Error> {
    if d.len() < HEADER_LEN {
        Err(Error::TooShort)
    } else if version_of(d[0]) != VERSION {
        Err(Error::UnsupportedVersion(version_of(d[0])))
    } else if has_extension(d[0]) && d.len() < csrc_end(d) + 4 {
        Err(Error::TooShort)
    } else if payload_end(d) < 0 {
        Err(Error::BadPadding)
    } else if payload_end(d) < payload_start(d) {
        Err(Error::TooShort)
    } else {
        Ok(
            PacketView {
                payload_type: d[1] % 128,
                marker: d[1] >= 128,
                sequence: be16(d[2], d[3]),
                timestamp: be32(d[4], d[5], d[6], d[7]),
                ssrc: be32(d[8], d[9], d[10], d[11]),
                payload: d.subrange(payload_start(d), payload_end(d)),
            },
        )
    }
}

pub open spec fn parsed_as<'a>(r: Result<Packet<'a>, Error>, s: Result<PacketView, Error>) -> bool {
    match (r, s) {
        (Ok(p), Ok(v)) => p.view() == v,
        (Err(e), Err(f)) => e == f,
        _ => false,
    }
}

pub fn parse(datagram: &[u8]) -> (r: Result<Packet<'_>, Error>)
    ensures
        parsed_as(r, parse_spec(datagram@)),
{
    let len = datagram.len();
    if len < HEADER_LEN {
        return Err(Error::TooShort);
    }
    let first = datagram[0];
    let version = first / 64;
    if version != VERSION {
        return Err(Error::UnsupportedVersion(version));
    }

    let csrc_count = (first % 16) as usize;
    let extension = (first / 16) % 2 == 1;
    let padding_bit = (first / 32) % 2 == 1;

    let mut start = HEADER_LEN + csrc_count * 4;
    if extension {
        let header_end = start + 4;
        if len < header_end {
            return Err(Error::TooShort);
        }
        let words = read_be16(datagram, start + 2);
        start = header_end + (words as usize) * 4;
    }

    let mut end = len;
    if padding_bit {
        let padding = datagram[len - 1] as usize;
        if padding > end {
            return Err(Error::BadPadding);
        }
        end = end - padding;
    }
    if end < start {
        return Err(Error::TooShort);
    }

    let second = datagram[1];
    let packet = Packet {
        payload_type: second % 128,
        marker: second >= 128,
        sequence: read_be16(datagram, 2),
        timestamp: read_be32(datagram, 4),
        ssrc: read_be32(datagram, 8),
        payload: &datagram[start..end],
    };
    Ok(packet)
}

/// The 12 bytes of a header with no CSRC, no extension and no padding.
pub open spec fn header_bytes(payload_type: u8, sequence: u16, timestamp: u32, ssrc: u32) -> Seq<
    u8,
> {
    seq![(VERSION * 64) as u8, (payload_type % 128) as u8] + be16_bytes(sequence) + be32_bytes(timestamp)
        + be32_bytes(ssrc)
}

/// Writes the packets the uplink sends. The downlink never needs this, since
/// the encoder builds its own headers, so this only ever emits the shape
/// produced here: no CSRC, no extension, no padding.
pub struct Builder {
    payload_type: u8,
    ssrc: u32,
    sequence: u16,
    timestamp: u32,
}

impl Builder {
    pub closed spec fn payload_type(self) -> u8 {
        self.payload_type
    }

    pub closed spec fn ssrc(self) -> u32 {
        self.ssrc
    }

    /// The sequence number the next packet carries.
    pub closed spec fn sequence(self) -> u16 {
        self.sequence
    }

    /// The timestamp the next packet carries.
    pub closed spec fn timestamp(self) -> u32 {
        self.timestamp
    }

    /// Starts at sequence and timestamp zero rather than at a random offset as
    /// RFC 3550 suggests: the SSRC is already fresh per session, and starting
    /// at zero makes a capture far easier to read.
    pub fn new(payload_type: u8, ssrc: u32) -> (b: Self)
        ensures
            b.payload_type() == payload_type,
            b.ssrc() == ssrc,
            b.sequence() == 0,
            b.timestamp() == 0,
    {
        Self { payload_type, ssrc, sequence: 0, timestamp: 0 }
    }

    /// Replaces `out` with one frame's packet. `samples` is the frame's length
    /// in samples per channel, which is what the RTP timestamp counts.
    pub fn build(&mut self, payload: &[u8], samples: u32, out: &mut Vec<u8>)
        ensures
            final(out)@ == header_bytes(
                old(self).payload_type(),
                old(self).sequence(),
                old(self).timestamp(),
                old(self).ssrc(),
            ) + payload@,
            final(self).payload_type() == old(self).payload_type(),
            final(self).ssrc() == old(self).ssrc(),
            final(self).sequence() == (old(self).sequence() + 1) % 65536,
            final(self).timestamp() == (old(self).timestamp() + samples) % 4294967296,
    {
        out.clear();
        out.push(VERSION * 64);
        out.push(self.payload_type % 128);
        push_be16(out, self.sequence);
        push_be32(out, self.timestamp);
        push_be32(out, self.ssrc);
        extend_from(out, payload);

        self.sequence = self.sequence.wrapping_add(1);
        self.timestamp = self.timestamp.wrapping_add(samples);
    }
}

/// A packet built by [`Builder::build`] parses back to the fields it was
/// built from, with the marker clear and the payload intact.
pub proof fn lemma_built_packet_parses_back(
    payload_type: u8,
    sequence: u16,
    timestamp: u32,
    ssrc: u32,
    payload: Seq<u8>,
)
    ensures
        parse_spec(header_bytes(payload_type, sequence, timestamp, ssrc) + payload) == Ok::<
            PacketView,
            Error,
        >(
            PacketView {
                payload_type: payload_type % 128,
                marker: false,
                sequence,
                timestamp,
                ssrc,
                payload,
            },
        ),
{
    let d = header_bytes(payload_type, sequence, timestamp, ssrc) + payload;
    assert(d[0] == 128u8);
    assert(d[1] == payload_type % 128);
    assert(d[2] == be16_bytes(sequence)[0]);
    assert(d[3] == be16_bytes(sequence)[1]);
    assert(d[4] == be32_bytes(timestamp)[0]);
    assert(d[5] == be32_bytes(timestamp)[1]);
    assert(d[6] == be32_bytes(timestamp)[2]);
    assert(d[7] == be32_bytes(timestamp)[3]);
    assert(d[8] == be32_bytes(ssrc)[0]);
    assert(d[9] == be32_bytes(ssrc)[1]);
    assert(d[10] == be32_bytes(ssrc)[2]);
    assert(d[11] == be32_bytes(ssrc)[3]);
    crate::bytes::lemma_be16_round_trip(sequence);
    crate::bytes::lemma_be32_round_trip(timestamp);
    crate::bytes::lemma_be32_round_trip(ssrc);
    assert(d.subrange(12, d.len() as int) == payload);
}

/// The sequence number a builder carries after `k` more builds from `first`,
/// one build at a time as [`Builder::build`] states it.
pub open spec fn sequence_after_builds(first: u16, k: nat) -> u16
    decreases k,
{
    if k == 0 {
        first
    } else {
        ((sequence_after_builds(first, (k - 1) as nat) + 1) % 65536) as u16
    }
}

/// The timestamp a builder carries after `k` more builds of `samples` each
/// from `first`, one build at a time as [`Builder::build`] states it.
pub open spec fn timestamp_after_builds(first: u32, samples: u32, k: nat) -> u32
    decreases k,
{
    if k == 0 {
        first
    } else {
        ((timestamp_after_builds(first, samples, (k - 1) as nat) + samples) % 4294967296) as u32
    }
}

/// After `k` builds, the next packet carries the sequence number `k` past
/// the first, modulo 2^16, and the timestamp `k` frames past the first,
/// modulo 2^32; and it parses back to exactly those fields.
pub proof fn lemma_builds_advance_by_one_and_a_frame(
    payload_type: u8,
    ssrc: u32,
    first_sequence: u16,
    first_timestamp: u32,
    samples: u32,
    k: nat,
    payload: Seq<u8>,
)
    ensures
        sequence_after_builds(first_sequence, k) == (first_sequence + k) % 65536,
        timestamp_after_builds(first_timestamp, samples, k) == (first_timestamp + k * samples)
            % 4294967296,
        parse_spec(
            header_bytes(
                payload_type,
                sequence_after_builds(first_sequence, k),
                timestamp_after_builds(first_timestamp, samples, k),
                ssrc,
            ) + payload,
        ) == Ok::<PacketView, Error>(
            PacketView {
                payload_type: payload_type % 128,
                marker: false,
                sequence: ((first_sequence + k) % 65536) as u16,
                timestamp: ((first_timestamp + k * samples) % 4294967296) as u32,
                ssrc,
                payload,
            },
        ),
    decreases k,
{
    if k > 0 {
        let j = (k - 1) as nat;
        lemma_builds_advance_by_one_and_a_frame(
            payload_type,
            ssrc,
            first_sequence,
            first_timestamp,
            samples,
            j,
            payload,
        );
        vstd::arithmetic::div_mod::lemma_add_mod_noop(first_sequence + j, 1, 65536);
        vstd::arithmetic::div_mod::lemma_add_mod_noop(
            first_timestamp + j * samples,
            samples as int,
            4294967296,
        );
        assert(first_timestamp + j * samples + samples == first_timestamp + k * samples) by (nonlinear_arith)
            requires
                k == j + 1,
        ;
    }
    lemma_built_packet_parses_back(
        payload_type,
        sequence_after_builds(first_sequence, k),
        timestamp_after_builds(first_timestamp, samples, k),
        ssrc,
        payload,
    );
}

/// Lifts 16-bit sequence numbers into a monotonic 64-bit space so that
/// packets can be ordered across wraparound, which happens every 65536
/// packets: about every 22 minutes at 50 packets per second.
#[derive(Debug)]
pub struct SequenceExtender {
    cycles: u64,
    highest: u16,
    started: bool,
}

/// How far `sequence` lies ahead of `highest`, counting forward around the
/// 16-bit circle.
pub open spec fn ahead_of(sequence: u16, highest: u16) -> int {
    (sequence as int - highest as int + 65536) % 65536
}

/// Number of completed wraps past which extended values no longer fit in 64
/// bits.
pub const MAX_CYCLES: u64 = 0xffff_ffff_fffe;

/// The largest extended value an extender with room can produce.
pub const MAX_EXTENDED: u64 = 0xffff_ffff_fffe_ffff;

impl Default for SequenceExtender {
    fn default() -> (e: Self)
        ensures
            e == SequenceExtender::fresh(),
            !e.started(),
            e.position() == 0,
            e.highest() == 0,
            e.cycles() == 0,
            e.has_room(),
    {
        Self { cycles: 0, highest: 0, started: false }
    }
}

impl SequenceExtender {
    #[verifier::type_invariant]
    spec fn fresh_until_started(self) -> bool {
        !self.started ==> self.cycles == 0 && self.highest == 0
    }

    /// The state before any sequence number is recorded: every extender
    /// starts here.
    pub closed spec fn fresh() -> SequenceExtender {
        SequenceExtender { cycles: 0, highest: 0, started: false }
    }

    pub closed spec fn started(self) -> bool {
        self.started
    }

    /// The extended value of the highest sequence number recorded so far.
    pub closed spec fn position(self) -> int {
        self.cycles * 65536 + self.highest
    }

    /// The highest sequence number recorded so far, as it appeared on the wire.
    pub closed spec fn highest(self) -> u16 {
        self.highest
    }

    /// Completed wraps so far.
    pub closed spec fn cycles(self) -> u64 {
        self.cycles
    }

    /// Room for one more wrap before extended values would leave 64 bits.
    pub open spec fn has_room(self) -> bool {
        self.cycles() < MAX_CYCLES
    }

    /// True when `sequence` is closer ahead of the highest recorded than
    /// behind it, which is how a wrap is told apart from a late packet. Before
    /// anything is recorded every sequence number moves forward.
    pub open spec fn moves_forward_spec(self, sequence: u16) -> bool {
        !self.started() || ahead_of(sequence, self.highest()) <= 32768
    }

    /// The extended value of `sequence`: the value congruent to it modulo
    /// 65536 that lies nearest the current position, at most 32768 ahead or
    /// 32767 behind, except that nothing is placed below zero.
    pub open spec fn peek_spec(self, sequence: u16) -> int {
        let ahead = ahead_of(sequence, self.highest());
        let behind = 65536 - ahead;
        if !self.started() {
            sequence as int
        } else if ahead <= 32768 || self.position() < behind {
            self.position() + ahead
        } else {
            self.position() - behind
        }
    }

    pub fn has_room_for_wrap(&self) -> (r: bool)
        ensures
            r == self.has_room(),
    {
        self.cycles < MAX_CYCLES
    }

    pub fn extend(&mut self, sequence: u16) -> (extended: u64)
        requires
            old(self).has_room(),
        ensures
            extended == old(self).peek_spec(sequence),
            final(self).started(),
            final(self).position() == if old(self).moves_forward_spec(sequence) {
                old(self).peek_spec(sequence)
            } else {
                old(self).position()
            },
            final(self).cycles() <= old(self).cycles() + 1,
            extended <= MAX_EXTENDED,
            old(self).started() && !old(self).moves_forward_spec(sequence) ==> *final(self) == *old(
                self,
            ),
    {
        let extended = self.peek(sequence);
        self.commit(sequence);
        extended
    }

    /// The value [`extend`](Self::extend) would return, without recording the
    /// sequence number. Splitting the two lets a caller that can still reject
    /// the packet, decryption say, extend it before deciding to trust it.
    pub fn peek(&self, sequence: u16) -> (extended: u64)
        requires
            self.has_room(),
        ensures
            extended == self.peek_spec(sequence),
            extended <= MAX_EXTENDED,
    {
        proof {
            use_type_invariant(self);
        }
        if !self.started {
            return sequence as u64;
        }
        if self.moves_forward(sequence) {
            let cycles = self.cycles + if sequence < self.highest { 1u64 } else { 0u64 };
            cycles * 65536 + sequence as u64
        } else if sequence > self.highest && self.cycles > 0 {
            (self.cycles - 1) * 65536 + sequence as u64
        } else {
            self.cycles * 65536 + sequence as u64
        }
    }

    pub fn commit(&mut self, sequence: u16)
        requires
            old(self).has_room(),
        ensures
            final(self).started(),
            final(self).position() == if old(self).moves_forward_spec(sequence) {
                old(self).peek_spec(sequence)
            } else {
                old(self).position()
            },
            final(self).cycles() <= old(self).cycles() + 1,
            old(self).started() && !old(self).moves_forward_spec(sequence) ==> *final(self) == *old(
                self,
            ),
    {
        proof {
            use_type_invariant(&*self);
        }
        if !self.started {
            self.started = true;
            self.highest = sequence;
        } else if self.moves_forward(sequence) {
            if sequence < self.highest {
                self.cycles += 1;
            }
            self.highest = sequence;
        }
    }

    fn moves_forward(&self, sequence: u16) -> (r: bool)
        requires
            self.started(),
        ensures
            r == self.moves_forward_spec(sequence),
    {
        sequence.wrapping_sub(self.highest) <= self.highest.wrapping_sub(sequence)
    }
}

/// An extended sequence number keeps the 16 bits it was extended from.
pub proof fn lemma_extension_keeps_the_wire_value(e: SequenceExtender, sequence: u16)
    ensures
        e.peek_spec(sequence) % 65536 == sequence,
        e.peek_spec(sequence) >= 0,
{
}

/// The recorded position never moves backwards: a late packet, however late,
/// cannot pull it down.
pub proof fn lemma_position_never_decreases(e: SequenceExtender, sequence: u16)
    requires
        e.started(),
    ensures
        e.moves_forward_spec(sequence) ==> e.peek_spec(sequence) >= e.position(),
{
}

/// The packet after the highest recorded, the wrap from 65535 to 0 included,
/// extends to exactly one past it.
pub proof fn lemma_next_sequence_is_one_ahead(e: SequenceExtender)
    requires
        e.started(),
    ensures
        e.peek_spec(((e.highest() + 1) % 65536) as u16) == e.position() + 1,
        e.moves_forward_spec(((e.highest() + 1) % 65536) as u16),
{
}

/// The highest sequence number recorded is the position as it appears on the
/// wire: the position counts whole wraps and then the highest number.
pub proof fn lemma_highest_is_the_position_on_the_wire(e: SequenceExtender)
    ensures
        e.position() == e.cycles() * 65536 + e.highest(),
        e.highest() == e.position() % 65536,
        e.cycles() == e.position() / 65536,
{
}

/// Gaps are kept: a sequence number `d` ahead of the highest recorded,
/// counting round the 16-bit circle, for `d` up to 32767, moves the position
/// forward and extends to exactly `d` past it, however many wraps came
/// before.
pub proof fn lemma_gap_is_kept(e: SequenceExtender, d: u16)
    requires
        e.started(),
        1 <= d <= 32767,
    ensures
        e.moves_forward_spec(((e.highest() + d) % 65536) as u16),
        e.peek_spec(((e.highest() + d) % 65536) as u16) == e.position() + d,
{
}

/// A sequence number behind the highest recorded, closer behind than ahead,
/// is placed behind the position rather than a wrap ahead of it, unless that
/// would be below zero.
pub proof fn lemma_late_packets_are_placed_behind(e: SequenceExtender, sequence: u16)
    requires
        e.started(),
        ahead_of(sequence, e.highest()) > 32768,
        65536 - ahead_of(sequence, e.highest()) <= e.position(),
    ensures
        !e.moves_forward_spec(sequence),
        e.peek_spec(sequence) == e.position() - (65536 - ahead_of(sequence, e.highest())),
{
}

} // verus!
