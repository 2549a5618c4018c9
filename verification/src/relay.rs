//! The media path's decisions: which session a UDP punch names, and what goes
//! out for each RTP packet ffmpeg produces.

use vstd::prelude::*;

use crate::config;
use crate::crypto::{advanced, opened_spec, sealed_spec, Sealer, TAG_LEN};
use crate::numbers::{all_digits_of, digit_value, digits_value_in, parse_digits, radix_value, unsigned_digits};
use crate::text::{
    chars_of, copy_range, has_prefix, hex_lower_char, hex_lower_fixed, is_whitespace, starts_with,
    str_from_utf8, trim, trim_end, trim_start, trimmed,
};

verus! {

/// The session a punch datagram names: UTF-8 text that, trimmed, is the punch
/// prefix followed by the session id in hexadecimal.
pub open spec fn punch_id(d: Seq<u8>) -> Option<u64> {
    if !vstd::utf8::valid_utf8(d) {
        None
    } else {
        let text = trim(vstd::utf8::decode_utf8(d));
        let prefix = config::PUNCH_PREFIX@;
        if !starts_with(text, prefix) {
            None
        } else {
            match radix_value(text.skip(prefix.len() as int), 16, u64::MAX as nat) {
                Some(v) => Some(v as u64),
                None => None,
            }
        }
    }
}

/// Reads the session id out of a punch datagram.
pub fn parse_punch(datagram: &[u8]) -> (r: Option<u64>)
    ensures
        r == punch_id(datagram@),
{
    let text = match str_from_utf8(datagram) {
        Some(text) => text,
        None => {
            return None;
        },
    };
    let cs = chars_of(text.as_str());
    let t = trimmed(cs.as_slice());
    let prefix = chars_of(config::PUNCH_PREFIX);
    if !has_prefix(t.as_slice(), prefix.as_slice()) {
        return None;
    }
    let id = copy_range(t.as_slice(), prefix.len(), t.len());
    assert(id@ =~= t@.skip(prefix@.len() as int));
    parse_digits(id.as_slice(), 16, u64::MAX)
}

/// The sealer after it has been handed `packet`, starting from `before`: a
/// packet too short to carry a header leaves the sequence state alone; any
/// other has its sequence number recorded, with at most one more wrap of the
/// 16-bit number behind it.
pub open spec fn sealed_into(before: Sealer, after: Option<Sealer>, packet: Seq<u8>) -> bool {
    match after {
        Some(t) => if packet.len() < crate::rtp::HEADER_LEN {
            t.sequence() == before.sequence()
        } else {
            &&& t.sequence().started()
            &&& t.sequence().position() == advanced(before.sequence(), packet)
            &&& t.sequence().cycles() <= before.sequence().cycles() + 1
        },
        None => false,
    }
}

/// What goes out to every receiver for one packet: the packet itself when
/// the run is unencrypted, otherwise the packet sealed. A packet too short to
/// be one of ours cannot be sealed and sends nothing, since passing it on in
/// the clear would leak past the encryption.
pub fn outgoing(packet: &[u8], sealer: &mut Option<Sealer>) -> (r: Option<Vec<u8>>)
    requires
        *old(sealer) matches Some(s) ==> s.sequence().has_room(),
    ensures
        match *old(sealer) {
            None => {
                &&& *final(sealer) is None
                &&& r matches Some(p) && p@ == packet@
            },
            Some(s) => {
                &&& *final(sealer) matches Some(t) && t.key() == s.key()
                &&& sealed_into(s, *final(sealer), packet@)
                &&& match r {
                    Some(p) => sealed_spec(s.key(), s.sequence(), packet@) == Some(p@),
                    None => sealed_spec(s.key(), s.sequence(), packet@) is None,
                }
                &&& r matches Some(p) ==> {
                    &&& opened_spec(s.key(), s.sequence(), p@) == Some(packet@)
                    &&& p@.len() == packet@.len() + TAG_LEN
                }
            },
        },
{
    match sealer {
        Some(s) => s.seal(packet),
        None => {
            let mut out: Vec<u8> = Vec::new();
            crate::bytes::extend_from(&mut out, packet);
            Some(out)
        },
    }
}

/// Sixteen to the power `n`.
pub open spec fn pow16(n: nat) -> nat
    decreases n,
{
    if n == 0 {
        1
    } else {
        16 * pow16((n - 1) as nat)
    }
}

proof fn lemma_hex_digit(d: nat)
    requires
        d < 16,
    ensures
        digit_value(hex_lower_char(d), 16) == Some(d),
        !is_whitespace(hex_lower_char(d)),
        hex_lower_char(d) != '+',
{
}

/// Fixed-width lower-case hex reads back as the number written, when the
/// number fits the width.
proof fn lemma_hex_reads_back(v: nat, n: nat)
    requires
        v < pow16(n),
    ensures
        hex_lower_fixed(v, n).len() == n,
        all_digits_of(hex_lower_fixed(v, n), 16),
        digits_value_in(hex_lower_fixed(v, n), 16) == v,
        forall|i: int| 0 <= i < n ==> !is_whitespace(#[trigger] hex_lower_fixed(v, n)[i]) && hex_lower_fixed(v, n)[i] != '+',
    decreases n,
{
    if n > 0 {
        let h = hex_lower_fixed(v, n);
        let rest = hex_lower_fixed(v / 16, (n - 1) as nat);
        lemma_hex_reads_back(v / 16, (n - 1) as nat);
        lemma_hex_digit(v % 16);
        assert(h == rest.push(hex_lower_char(v % 16)));
        assert(h.drop_last() =~= rest);
        assert forall|i: int| 0 <= i < h.len() implies (#[trigger] digit_value(h[i], 16)) is Some by {
            if i < h.len() - 1 {
                assert(h[i] == rest[i]);
            }
        }
        assert forall|i: int| 0 <= i < n implies !is_whitespace(#[trigger] h[i]) && h[i] != '+' by {
            if i < n - 1 {
                assert(h[i] == rest[i]);
            }
        }
    }
}

/// What a receiver punches with reaches the session it was given: the
/// punch built from the session id as the control channel sends it (sixteen
/// hex digits) is read back as that id.
pub proof fn lemma_punch_names_its_session(id: u64)
    ensures
        punch_id(vstd::utf8::encode_utf8(config::PUNCH_PREFIX@ + hex_lower_fixed(id as nat, 16))) == Some(id),
{
    let prefix = config::PUNCH_PREFIX@;
    reveal_strlit("AUSHA/1 ");
    assert(prefix =~= seq!['A', 'U', 'S', 'H', 'A', '/', '1', ' ']);
    let h = hex_lower_fixed(id as nat, 16);
    assert(pow16(16) == 0x1_0000_0000_0000_0000nat) by {
        reveal_with_fuel(pow16, 17);
    }
    lemma_hex_reads_back(id as nat, 16);
    let text = prefix + h;
    vstd::utf8::encode_utf8_valid_utf8(text);
    vstd::utf8::encode_utf8_decode_utf8(text);
    assert(!is_whitespace(text[0]));
    assert(trim_start(text) == text);
    assert(text.last() == h[15]);
    assert(!is_whitespace(text.last()));
    assert(trim_end(text) == text);
    assert(trim(text) == text);
    assert(text.take(prefix.len() as int) =~= prefix);
    assert(text.skip(prefix.len() as int) =~= h);
    assert(h[0] != '+');
    assert(unsigned_digits(h) == h);
}

} // verus!
