//! The messages the sender sends on the TCP control channel, the stream
//! parameters they carry, and how a typed pairing token is read.

use vstd::prelude::*;

use crate::config;
use crate::text::{ascii_lower, chars_of, is_alphanumeric, is_ascii_alphanumeric, push_char, to_lower};

verus! {

#[derive(Debug)]
pub enum ServerMessage {
    Accept { session: String, media_port: u16, stream: StreamParams },
    Ready,
    Ping { ts: u64 },
    Error { reason: String },
}

#[derive(Debug, Clone)]
pub struct StreamParams {
    pub codec: String,
    pub rate: u32,
    pub channels: u8,
    pub ptime_ms: u32,
    pub payload_type: u8,
    pub ssrc: u32,
    pub fec: bool,
}

impl StreamParams {
    /// The one stream every sender offers: Opus at 48 kHz stereo in 20 ms
    /// frames with in-band FEC, under the given SSRC.
    pub fn new(ssrc: u32) -> (p: Self)
        ensures
            p.codec@ == "opus"@,
            p.rate == config::SAMPLE_RATE,
            p.channels == config::CHANNELS,
            p.ptime_ms == config::FRAME_MS,
            p.payload_type == config::RTP_PAYLOAD_TYPE,
            p.ssrc == ssrc,
            p.fec,
    {
        Self {
            codec: "opus".to_string(),
            rate: config::SAMPLE_RATE,
            channels: config::CHANNELS,
            ptime_ms: config::FRAME_MS,
            payload_type: config::RTP_PAYLOAD_TYPE,
            ssrc,
            fec: true,
        }
    }
}

/// A token reduced to what authenticates: its ASCII letters and digits, in
/// order, letters in lower case. Everything else a person might type between
/// them (dashes, spaces) is dropped.
pub open spec fn normalized(s: Seq<char>) -> Seq<char>
    decreases s.len(),
{
    if s.len() == 0 {
        Seq::empty()
    } else if is_ascii_alphanumeric(s.last()) {
        normalized(s.drop_last()).push(ascii_lower(s.last()))
    } else {
        normalized(s.drop_last())
    }
}

/// Accepts a pairing token in whatever form it was typed. The sender displays
/// it grouped as `xxxx-xxxx-xxxx` for reading aloud, so the grouped form has
/// to authenticate as readily as the bare one.
pub fn normalize_token(token: &str) -> (r: String)
    ensures
        r@ == normalized(token@),
{
    let cs = chars_of(token);
    let mut out = String::new();
    let mut i: usize = 0;
    while i < cs.len()
        invariant
            i <= cs@.len(),
            cs@ == token@,
            out@ == normalized(token@.subrange(0, i as int)),
        decreases cs@.len() - i,
    {
        let c = cs[i];
        if is_alphanumeric(c) {
            push_char(&mut out, to_lower(c));
        }
        i += 1;
        assert(token@.subrange(0, i as int).drop_last() == token@.subrange(0, i - 1));
    }
    assert(token@.subrange(0, token@.len() as int) == token@);
    out
}

/// Normalising twice changes nothing: a normalised token already is in the
/// form every typed variant reduces to.
pub proof fn lemma_normalized_is_idempotent(s: Seq<char>)
    ensures
        normalized(normalized(s)) == normalized(s),
    decreases s.len(),
{
    if s.len() > 0 {
        lemma_normalized_is_idempotent(s.drop_last());
        let rest = normalized(s.drop_last());
        if is_ascii_alphanumeric(s.last()) {
            let c = ascii_lower(s.last());
            assert(normalized(rest.push(c)).drop_last() =~= normalized(rest)) by {
                assert(rest.push(c).drop_last() =~= rest);
            }
            assert(rest.push(c).drop_last() =~= rest);
        }
    }
}

/// Separators and letter case never matter: a token normalises the same as
/// any string that differs from it only in characters that are not ASCII
/// letters or digits, or in the case of its letters.
pub proof fn lemma_normalized_ignores_separators(s: Seq<char>, c: char)
    requires
        !is_ascii_alphanumeric(c),
    ensures
        normalized(s.push(c)) == normalized(s),
{
    assert(s.push(c).drop_last() =~= s);
}

/// The dashes and spaces a person types between the groups of a token never
/// matter: with the separator normalising to nothing, the token with it
/// normalises as the token without it.
pub proof fn lemma_separators_are_ignored(a: Seq<char>, sep: Seq<char>, b: Seq<char>)
    requires
        normalized(sep) == Seq::<char>::empty(),
    ensures
        normalized(a + sep + b) == normalized(a + b),
{
    lemma_normalized_concat(a, sep);
    lemma_normalized_concat(a + sep, b);
    lemma_normalized_concat(a, b);
    assert(normalized(a) + Seq::<char>::empty() =~= normalized(a));
}

/// Normalising works piece by piece.
pub proof fn lemma_normalized_concat(a: Seq<char>, b: Seq<char>)
    ensures
        normalized(a + b) == normalized(a) + normalized(b),
    decreases b.len(),
{
    if b.len() == 0 {
        assert(a + b =~= a);
        assert(normalized(a) + normalized(b) =~= normalized(a));
    } else {
        lemma_normalized_concat(a, b.drop_last());
        assert((a + b).drop_last() =~= a + b.drop_last());
        assert((a + b).last() == b.last());
        if is_ascii_alphanumeric(b.last()) {
            assert(normalized(a) + normalized(b) =~= (normalized(a) + normalized(b.drop_last())).push(
                ascii_lower(b.last()),
            ));
        }
    }
}

} // verus!
