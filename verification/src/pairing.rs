//! The pairing link and the QR code that carries it.

use qrcode::render::unicode;
use qrcode::QrCode;

use vstd::prelude::*;
use vstd::string::StringSliceAdditionalSpecFns;

use crate::text::{
    chars_of, decimal, hex_upper, hex_upper_char, is_ascii_alphanumeric, is_alphanumeric, lines, lines_of,
    push_char, push_decimal, push_hex_upper, push_str, string_from,
};

verus! {

pub const BLACK_ON_WHITE: &'static str = "\x1b[30;47m";

pub const RESET: &'static str = "\x1b[0m";

/// Characters a URL carries as they are.
pub open spec fn is_unreserved(c: char) -> bool {
    is_ascii_alphanumeric(c) || c == '-' || c == '_' || c == '.' || c == '~'
}

/// At least two upper-case hex digits.
pub open spec fn hex_upper_2(v: nat) -> Seq<char> {
    if hex_upper(v).len() < 2 {
        seq!['0'] + hex_upper(v)
    } else {
        hex_upper(v)
    }
}

pub open spec fn escaped_char(c: char) -> Seq<char> {
    if is_unreserved(c) {
        seq![c]
    } else if c == ' ' {
        seq!['%', '2', '0']
    } else {
        seq!['%'] + hex_upper_2((c as u32) as nat)
    }
}

/// Percent-encoding of every character that is not unreserved, by its code
/// point in upper-case hex.
pub open spec fn escaped(s: Seq<char>) -> Seq<char>
    decreases s.len(),
{
    if s.len() == 0 {
        Seq::empty()
    } else {
        escaped(s.drop_last()) + escaped_char(s.last())
    }
}

pub open spec fn link_spec(host: Seq<char>, port: u16, token: Seq<char>, name: Seq<char>) -> Seq<char> {
    "ausha://"@ + host + seq![':'] + decimal(port as nat) + "?token="@ + token + "&name="@ + escaped(name)
}

/// A character a query value can carry as it is: an ASCII letter or digit,
/// or one of `-`, `_`, `.`, `~`.
pub open spec fn plain_in_query(c: char) -> bool {
    ('a' <= c && c <= 'z') || ('A' <= c && c <= 'Z') || ('0' <= c && c <= '9') || c == '-' || c
        == '_' || c == '.' || c == '~'
}

/// The upper-case hex digit for `d`.
pub open spec fn upper_digit(d: nat) -> char {
    (if d < 10 { 48 + d } else { 55 + d }) as char
}

proof fn lemma_hex_upper_digits(v: nat)
    ensures
        forall|i: int|
            0 <= i < hex_upper(v).len() ==> {
                let c = #[trigger] hex_upper(v)[i];
                ('0' <= c && c <= '9') || ('A' <= c && c <= 'F')
            },
    decreases v,
{
    let d = v % 16;
    assert(('0' <= hex_upper_char(d) && hex_upper_char(d) <= '9') || ('A' <= hex_upper_char(d)
        && hex_upper_char(d) <= 'F')) by {
        if d < 10 {
            assert(((48 + d) as u8) as char == (48 + d) as char);
        } else {
            assert(((55 + d) as u8) as char == (55 + d) as char);
        }
    }
    if v >= 16 {
        lemma_hex_upper_digits(v / 16);
        let h = hex_upper(v);
        assert forall|i: int| 0 <= i < h.len() - 1 implies h[i] == hex_upper(v / 16)[i] by {}
    } else {
        assert(v % 16 == v);
    }
}

proof fn lemma_escaped_char_is_query_safe(c: char)
    ensures
        forall|i: int|
            0 <= i < escaped_char(c).len() ==> plain_in_query(#[trigger] escaped_char(c)[i])
                || escaped_char(c)[i] == '%',
{
    if !is_unreserved(c) && c != ' ' {
        let v = (c as u32) as nat;
        lemma_hex_upper_digits(v);
        let e = escaped_char(c);
        assert forall|i: int| 0 <= i < e.len() implies plain_in_query(#[trigger] e[i]) || e[i] == '%' by {
            if hex_upper(v).len() < 2 {
                if i >= 2 {
                    assert(e[i] == hex_upper(v)[i - 2]);
                }
            } else if i >= 1 {
                assert(e[i] == hex_upper(v)[i - 1]);
            }
        }
    }
}

/// An escaped name can stand as one query value: it holds nothing but
/// letters, digits, `-`, `_`, `.`, `~` and the `%` of an escape, so no `&`,
/// `=`, `?`, `#` or space can end or split it.
pub proof fn lemma_escaped_is_one_query_value(s: Seq<char>)
    ensures
        forall|i: int|
            0 <= i < escaped(s).len() ==> plain_in_query(#[trigger] escaped(s)[i]) || escaped(s)[i]
                == '%',
    decreases s.len(),
{
    if s.len() > 0 {
        let front = escaped(s.drop_last());
        let last = escaped_char(s.last());
        lemma_escaped_is_one_query_value(s.drop_last());
        lemma_escaped_char_is_query_safe(s.last());
        assert forall|i: int| 0 <= i < escaped(s).len() implies plain_in_query(#[trigger] escaped(s)[i])
            || escaped(s)[i] == '%' by {
            if i < front.len() {
                assert(escaped(s)[i] == front[i]);
            } else {
                assert(escaped(s)[i] == last[i - front.len()]);
            }
        }
    }
}

/// Letters, digits, `-`, `_`, `.` and `~` pass through unescaped, so a name
/// made of them alone stands in the link as it is.
pub proof fn lemma_plain_names_pass_through(s: Seq<char>)
    requires
        forall|i: int| 0 <= i < s.len() ==> plain_in_query(#[trigger] s[i]),
    ensures
        escaped(s) == s,
    decreases s.len(),
{
    if s.len() > 0 {
        lemma_plain_names_pass_through(s.drop_last());
        assert(plain_in_query(s[s.len() - 1]));
        assert(s.drop_last().push(s.last()) =~= s);
    }
}

/// Any other character in the first 256 code points is written as `%` and
/// its two upper-case hex digits, high digit first: a space becomes `%20`,
/// `&` becomes `%26`.
pub proof fn lemma_other_characters_are_percent_escaped(c: char)
    requires
        !plain_in_query(c),
        (c as u32) < 256,
    ensures
        escaped(seq![c]) == seq![
            '%',
            upper_digit(((c as u32) / 16) as nat),
            upper_digit(((c as u32) % 16) as nat),
        ],
{
    let v = (c as u32) as nat;
    let hi = v / 16;
    let lo = v % 16;
    assert(seq![c].drop_last() =~= Seq::<char>::empty());
    assert(escaped(Seq::<char>::empty()) =~= Seq::<char>::empty());
    assert(seq![c].last() == c);
    assert(escaped(seq![c]) =~= escaped_char(c));
    assert(hex_upper_char(hi) == upper_digit(hi)) by {
        if hi < 10 {
            assert(((48 + hi) as u8) as char == (48 + hi) as char);
        } else {
            assert(((55 + hi) as u8) as char == (55 + hi) as char);
        }
    }
    assert(hex_upper_char(lo) == upper_digit(lo)) by {
        if lo < 10 {
            assert(((48 + lo) as u8) as char == (48 + lo) as char);
        } else {
            assert(((55 + lo) as u8) as char == (55 + lo) as char);
        }
    }
    if c == ' ' {
        assert(v == 32);
        assert(upper_digit(2) == '2');
        assert(upper_digit(0) == '0');
    } else if v < 16 {
        assert(hex_upper(v) =~= seq![hex_upper_char(v)]);
        assert(hi == 0 && lo == v);
        assert(upper_digit(0) == '0');
    } else {
        assert(hex_upper(hi) =~= seq![hex_upper_char(hi)]);
        assert(hex_upper(v) =~= seq![hex_upper_char(hi), hex_upper_char(lo)]);
    }
}

/// `ausha://<host>:<port>?token=<token>&name=<sender>`, the same shape the
/// Android app parses from a scanned code or an opened link.
pub fn link(host: &str, port: u16, token: &str, name: &str) -> (r: String)
    ensures
        r@ == link_spec(host@, port, token@, name@),
{
    let mut out = String::new();
    push_str(&mut out, "ausha://");
    push_str(&mut out, host);
    push_char(&mut out, ':');
    push_decimal(&mut out, port as u64);
    push_str(&mut out, "?token=");
    push_str(&mut out, token);
    push_str(&mut out, "&name=");
    let escaped = escape(name);
    push_str(&mut out, escaped.as_str());
    out
}

fn escape(value: &str) -> (r: String)
    ensures
        r@ == escaped(value@),
{
    let cs = chars_of(value);
    let mut out = String::new();
    let mut i: usize = 0;
    while i < cs.len()
        invariant
            i <= cs@.len(),
            cs@ == value@,
            out@ == escaped(value@.subrange(0, i as int)),
        decreases cs@.len() - i,
    {
        let c = cs[i];
        let ghost before = out@;
        if is_alphanumeric(c) || c == '-' || c == '_' || c == '.' || c == '~' {
            push_char(&mut out, c);
        } else if c == ' ' {
            push_char(&mut out, '%');
            push_char(&mut out, '2');
            push_char(&mut out, '0');
        } else {
            push_char(&mut out, '%');
            let v = c as u32;
            if v < 16 {
                push_char(&mut out, '0');
            }
            push_hex_upper(&mut out, v);
            proof {
                lemma_hex_upper_len(v as nat);
            }
        }
        proof {
            assert(out@ =~= before + escaped_char(c));
            assert(value@.subrange(0, i + 1).drop_last() =~= value@.subrange(0, i as int));
        }
        i += 1;
    }
    assert(value@.subrange(0, value@.len() as int) =~= value@);
    out
}

proof fn lemma_hex_upper_len(v: nat)
    ensures
        hex_upper(v).len() >= 1,
        v >= 16 ==> hex_upper(v).len() >= 2,
    decreases v,
{
    if v >= 16 {
        lemma_hex_upper_len(v / 16);
    }
}

/// What `qrcode` renders for a payload: the symbol in half-block characters,
/// two modules to a character cell, dark on light, with its quiet zone, rows
/// separated by `\n`; or `None` when the payload does not fit a QR code.
pub uninterp spec fn qr_rendering(data: Seq<u8>) -> Option<Seq<char>>;

/// `QrCode::new` followed by the `Dense1x2` renderer with its quiet zone and
/// dark modules drawn dark. The claim: the result is a function of the
/// payload alone.
#[verifier::external_body]
fn render_qr(link: &str) -> (r: Option<String>)
    ensures
        match r {
            Some(s) => qr_rendering(link.spec_bytes()) == Some(s@),
            None => qr_rendering(link.spec_bytes()) is None,
        },
{
    let code = QrCode::new(link.as_bytes()).ok()?;
    Some(
        code.render::<unicode::Dense1x2>()
            .quiet_zone(true)
            .dark_color(unicode::Dense1x2::Dark)
            .light_color(unicode::Dense1x2::Light)
            .build(),
    )
}

pub open spec fn painted_line(l: Seq<char>) -> Seq<char> {
    BLACK_ON_WHITE@ + l + RESET@
}

/// Each line drawn black on white, joined by newlines.
pub open spec fn painted(ls: Seq<Seq<char>>) -> Seq<char>
    decreases ls.len(),
{
    if ls.len() == 0 {
        Seq::empty()
    } else if ls.len() == 1 {
        painted_line(ls[0])
    } else {
        painted(ls.drop_last()) + seq!['\n'] + painted_line(ls.last())
    }
}

pub open spec fn qr_spec(link: Seq<u8>, colored: bool) -> Option<Seq<char>> {
    match qr_rendering(link) {
        Some(r) => Some(if colored { painted(lines(r)) } else { r }),
        None => None,
    }
}

/// Renders the link for a terminal.
///
/// Half-block characters put two QR modules in one character cell, which is
/// what makes the code square: terminal cells are about twice as tall as
/// they are wide.
///
/// Polarity matters more than it looks. A scanner expects dark modules on a
/// light field, so on a terminal (`colored`) the code is drawn in black on an
/// explicit white background rather than inheriting the user's colour
/// scheme; on a dark theme that would produce an inverted code, which many
/// scanners will not read.
pub fn qr(link: &str, colored: bool) -> (r: Option<String>)
    ensures
        match r {
            Some(s) => qr_spec(link.spec_bytes(), colored) == Some(s@),
            None => qr_spec(link.spec_bytes(), colored) is None,
        },
{
    let rendered = render_qr(link)?;
    if !colored {
        return Some(rendered);
    }
    let cs = chars_of(rendered.as_str());
    let rows = lines_of(cs.as_slice());
    let mut out = String::new();
    let mut i: usize = 0;
    while i < rows.len()
        invariant
            i <= rows@.len(),
            rows@.len() == lines(rendered@).len(),
            forall|j: int| 0 <= j < rows@.len() ==> #[trigger] rows@[j]@ == lines(rendered@)[j],
            out@ == painted(lines(rendered@).take(i as int)),
        decreases rows@.len() - i,
    {
        let ghost before = out@;
        if i > 0 {
            push_char(&mut out, '\n');
        }
        push_str(&mut out, BLACK_ON_WHITE);
        let row = string_from(rows[i].as_slice());
        push_str(&mut out, row.as_str());
        push_str(&mut out, RESET);
        proof {
            let ls = lines(rendered@).take(i + 1);
            assert(ls.drop_last() =~= lines(rendered@).take(i as int));
            assert(ls.last() == rows@[i as int]@);
            if i == 0 {
                assert(out@ =~= painted(ls));
            } else {
                assert(out@ =~= painted(ls));
            }
        }
        i += 1;
    }
    assert(lines(rendered@).take(rows@.len() as int) =~= lines(rendered@));
    Some(out)
}

} // verus!
