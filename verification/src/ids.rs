//! Random identifiers: session ids, RTP SSRC, and the pairing token.

use vstd::prelude::*;
use vstd::string::StringSliceAdditionalSpecFns;

use crate::text::{bytes_range, from_utf8_lossy, hex_lower_fixed, push_char, push_hex_lower_fixed, push_str, utf8_lossy};

verus! {

/// 64 bits from the operating system's random source, via `getrandom::fill`,
/// or `None` when the system has no randomness to give. Nothing is claimed
/// of the value, nor of when the source fails.
#[verifier::external_body]
pub fn random_u64() -> Option<u64> {
    let mut bytes = [0u8; 8];
    match getrandom::fill(&mut bytes) {
        Ok(()) => Some(u64::from_le_bytes(bytes)),
        Err(_) => None,
    }
}

/// An SSRC made from 64 random bits: the low 31 of them, with the lowest set,
/// so it is never zero and never has the top bit set.
pub open spec fn ssrc_spec(value: u64) -> u32 {
    let low = value % 0x8000_0000;
    if low % 2 == 1 { low as u32 } else { (low + 1) as u32 }
}

pub fn ssrc_from(value: u64) -> (ssrc: u32)
    ensures
        ssrc == ssrc_spec(value),
{
    let low = (value % 0x8000_0000) as u32;
    if low % 2 == 1 { low } else { low + 1 }
}

/// A fresh SSRC, or `None` when the system has no randomness to give.
pub fn random_ssrc() -> (r: Option<u32>)
    ensures
        r matches Some(ssrc) ==> {
            &&& exists|v: u64| ssrc == ssrc_spec(v)
            &&& ssrc % 2 == 1
            &&& ssrc < 0x8000_0000
        },
{
    let v = random_u64()?;
    let ssrc = ssrc_from(v);
    assert(ssrc == ssrc_spec(v));
    Some(ssrc)
}

/// The pairing token 64 random bits make: their low 48 as twelve lower-case
/// hex digits.
pub open spec fn token_spec(value: u64) -> Seq<char> {
    hex_lower_fixed((value % 0x1_0000_0000_0000) as nat, 12)
}

pub fn token_from(value: u64) -> (token: String)
    ensures
        token@ == token_spec(value),
        token@.len() == 12,
        forall|i: int| 0 <= i < 12 ==> is_token_digit(#[trigger] token@[i]),
{
    let mut out = String::new();
    push_hex_lower_fixed(&mut out, value % 0x1_0000_0000_0000, 12);
    proof {
        lemma_hex_lower_fixed_len((value % 0x1_0000_0000_0000) as nat, 12);
    }
    out
}

/// A fresh pairing token, or `None` when the system has no randomness to
/// give.
pub fn random_token() -> (r: Option<String>)
    ensures
        r matches Some(token) ==> {
            &&& exists|v: u64| token@ == token_spec(v)
            &&& token@.len() == 12
            &&& forall|i: int| 0 <= i < 12 ==> is_token_digit(#[trigger] token@[i])
        },
{
    let v = random_u64()?;
    let token = token_from(v);
    assert(token@ == token_spec(v));
    Some(token)
}

/// A digit of a token: `0` to `9` or `a` to `f`.
pub open spec fn is_token_digit(c: char) -> bool {
    ('0' <= c && c <= '9') || ('a' <= c && c <= 'f')
}

proof fn lemma_hex_lower_fixed_len(v: nat, n: nat)
    ensures
        hex_lower_fixed(v, n).len() == n,
        forall|i: int| 0 <= i < n ==> is_token_digit(#[trigger] hex_lower_fixed(v, n)[i]),
    decreases n,
{
    if n > 0 {
        lemma_hex_lower_fixed_len(v / 16, (n - 1) as nat);
        let d = v % 16;
        assert(is_token_digit(crate::text::hex_lower_char(d))) by {
            if d < 10 {
                assert(((48 + d) as u8) as char == (48 + d) as char);
            } else {
                assert(((87 + d) as u8) as char == (87 + d) as char);
            }
        }
    }
}

/// A token as displayed for reading aloud: its bytes in groups of four, each
/// group read as UTF-8, joined with dashes.
pub open spec fn grouped(b: Seq<u8>) -> Seq<char>
    decreases b.len(),
{
    if b.len() == 0 {
        Seq::empty()
    } else if b.len() <= 4 {
        utf8_lossy(b)
    } else {
        utf8_lossy(b.take(4)) + seq!['-'] + grouped(b.skip(4))
    }
}

/// What follows the groups already written: a dash and the remaining groups,
/// or nothing once none remain.
pub open spec fn grouped_tail(b: Seq<u8>) -> Seq<char> {
    if b.len() == 0 {
        Seq::empty()
    } else {
        seq!['-'] + grouped(b)
    }
}

/// A token grouped by characters: four at a time, joined with dashes. For
/// a token of ASCII characters this is what [`format_token`] shows.
pub open spec fn grouped_chars(s: Seq<char>) -> Seq<char>
    decreases s.len(),
{
    if s.len() <= 4 {
        s
    } else {
        s.take(4) + seq!['-'] + grouped_chars(s.skip(4))
    }
}

pub open spec fn grouped_chars_tail(s: Seq<char>) -> Seq<char> {
    if s.len() == 0 {
        Seq::empty()
    } else {
        seq!['-'] + grouped_chars(s)
    }
}

/// The bytes of ASCII text are its characters, one each, so a run of them
/// decodes back to the characters it came from.
proof fn lemma_ascii_run_decodes(chars: Seq<char>, from: int, to: int)
    requires
        vstd::utf8::is_ascii_chars(chars),
        0 <= from <= to <= chars.len(),
    ensures
        vstd::utf8::encode_utf8(chars).len() == chars.len(),
        vstd::utf8::valid_utf8(vstd::utf8::encode_utf8(chars).subrange(from, to)),
        vstd::utf8::decode_utf8(vstd::utf8::encode_utf8(chars).subrange(from, to)) == chars.subrange(
            from,
            to,
        ),
{
    let sub = chars.subrange(from, to);
    vstd::utf8::is_ascii_chars_encode_utf8(chars);
    assert(vstd::utf8::is_ascii_chars(sub)) by {
        assert forall|k: int| 0 <= k < sub.len() implies '\0' <= #[trigger] sub[k] <= '\u{7f}' by {
            assert(sub[k] == chars[from + k]);
        }
    }
    vstd::utf8::is_ascii_chars_encode_utf8(sub);
    assert(vstd::utf8::encode_utf8(chars).subrange(from, to) =~= vstd::utf8::encode_utf8(sub)) by {
        assert forall|k: int| 0 <= k < sub.len() implies vstd::utf8::encode_utf8(chars).subrange(
            from,
            to,
        )[k] == vstd::utf8::encode_utf8(sub)[k] by {
            assert(sub[k] == chars[from + k]);
        }
    }
    vstd::utf8::encode_utf8_valid_utf8(sub);
    vstd::utf8::encode_utf8_decode_utf8(sub);
}

/// A token as shown for reading aloud: `xxxx-xxxx-xxxx`.
pub fn format_token(token: &str) -> (r: String)
    ensures
        r@ == grouped(token.spec_bytes()),
        vstd::utf8::is_ascii_chars(token@) ==> r@ == grouped_chars(token@),
{
    let bytes = token.as_bytes();
    let len = bytes.len();
    let ghost ascii = vstd::utf8::is_ascii_chars(token@);
    proof {
        if ascii {
            lemma_ascii_run_decodes(token@, 0, 0);
        }
    }
    let mut out = String::new();
    let mut i: usize = 0;
    while i < len
        invariant
            bytes@ == token.spec_bytes(),
            token.spec_bytes() == vstd::utf8::encode_utf8(token@),
            len == bytes@.len(),
            i <= len,
            i == 0 ==> out@.len() == 0,
            i > 0 ==> out@ + grouped_tail(bytes@.skip(i as int)) == grouped(bytes@),
            ascii == vstd::utf8::is_ascii_chars(token@),
            ascii ==> len == token@.len(),
            ascii && i > 0 ==> out@ + grouped_chars_tail(token@.skip(i as int)) == grouped_chars(
                token@,
            ),
        decreases len - i,
    {
        let end = if len - i > 4 { i + 4 } else { len };
        let chunk = bytes_range(bytes, i, end);
        let text = from_utf8_lossy(chunk.as_slice());
        let ghost rest = bytes@.skip(i as int);
        let ghost crest = token@.skip(i as int);
        proof {
            assert(bytes@.skip(0) =~= bytes@);
            assert(rest.skip(end - i) =~= bytes@.skip(end as int));
            if rest.len() > 4 {
                assert(rest.take(4) =~= chunk@);
            } else {
                assert(rest =~= chunk@);
            }
            if ascii {
                lemma_ascii_run_decodes(token@, i as int, end as int);
                assert(text@ == token@.subrange(i as int, end as int));
                assert(token@.skip(0) =~= token@);
                assert(crest.skip(end - i) =~= token@.skip(end as int));
                if crest.len() > 4 {
                    assert(crest.take(4) =~= token@.subrange(i as int, end as int));
                } else {
                    assert(crest =~= token@.subrange(i as int, end as int));
                }
            }
        }
        let ghost before = out@;
        if i > 0 {
            push_char(&mut out, '-');
        }
        push_str(&mut out, text.as_str());
        i = end;
        proof {
            if end < len {
                assert(out@ + grouped_tail(bytes@.skip(i as int)) =~= grouped(bytes@));
            } else {
                assert(bytes@.skip(i as int) =~= Seq::<u8>::empty());
                assert(out@ + grouped_tail(bytes@.skip(i as int)) =~= grouped(bytes@));
            }
            if ascii {
                if end < len {
                    assert(out@ + grouped_chars_tail(token@.skip(i as int)) =~= grouped_chars(token@));
                } else {
                    assert(token@.skip(i as int) =~= Seq::<char>::empty());
                    assert(out@ + grouped_chars_tail(token@.skip(i as int)) =~= grouped_chars(token@));
                }
            }
        }
    }
    proof {
        if len > 0 {
            assert(bytes@.skip(len as int) =~= Seq::<u8>::empty());
            assert(out@ =~= grouped(bytes@));
            if ascii {
                assert(token@.skip(len as int) =~= Seq::<char>::empty());
                assert(out@ =~= grouped_chars(token@));
            }
        } else {
            assert(out@ =~= grouped(bytes@));
            if ascii {
                assert(token@ =~= Seq::<char>::empty());
            }
        }
    }
    out
}

/// Compares in time independent of how many leading characters match: every
/// byte is looked at whatever the earlier ones held.
pub fn tokens_match(a: &str, b: &str) -> (r: bool)
    ensures
        r == (a@ == b@),
{
    let x = a.as_bytes();
    let y = b.as_bytes();
    proof {
        vstd::utf8::encode_utf8_decode_utf8(a@);
        vstd::utf8::encode_utf8_decode_utf8(b@);
    }
    if x.len() != y.len() {
        return false;
    }
    let mut difference: u8 = 0;
    let mut i: usize = 0;
    assert(x@.subrange(0, 0) =~= y@.subrange(0, 0));
    while i < x.len()
        invariant
            x@.len() == y@.len(),
            i <= x@.len(),
            (difference == 0) == (x@.subrange(0, i as int) == y@.subrange(0, i as int)),
        decreases x@.len() - i,
    {
        let (p, q) = (x[i], y[i]);
        let d = difference;
        assert((d | (p ^ q)) == 0u8 <==> (d == 0u8 && p == q)) by (bit_vector);
        difference = d | (p ^ q);
        proof {
            let xs = x@.subrange(0, i + 1);
            let ys = y@.subrange(0, i + 1);
            assert(xs.drop_last() =~= x@.subrange(0, i as int));
            assert(ys.drop_last() =~= y@.subrange(0, i as int));
            if xs == ys {
                assert(xs.drop_last() == ys.drop_last());
                assert(xs.last() == ys.last());
            }
            if x@.subrange(0, i as int) == y@.subrange(0, i as int) && p == q {
                assert(xs =~= ys);
            }
        }
        i += 1;
    }
    assert(x@.subrange(0, x@.len() as int) =~= x@);
    assert(y@.subrange(0, y@.len() as int) =~= y@);
    difference == 0
}

} // verus!
