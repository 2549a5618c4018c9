//! Characters and strings: the ASCII classes the protocol cares about, and
//! moving between `str`, `String` and sequences of `char`.

use vstd::prelude::*;

verus! {

broadcast use vstd::string::axiom_spec_iter;

pub open spec fn is_ascii_digit(c: char) -> bool {
    '0' <= c <= '9'
}

pub open spec fn is_ascii_upper(c: char) -> bool {
    'A' <= c <= 'Z'
}

pub open spec fn is_ascii_lower(c: char) -> bool {
    'a' <= c <= 'z'
}

pub open spec fn is_ascii_alphanumeric(c: char) -> bool {
    is_ascii_digit(c) || is_ascii_upper(c) || is_ascii_lower(c)
}

/// ASCII letters folded to lower case; everything else unchanged.
pub open spec fn ascii_lower(c: char) -> char {
    if is_ascii_upper(c) {
        ((c as u32) + 32) as char
    } else {
        c
    }
}

pub open spec fn ascii_lower_all(s: Seq<char>) -> Seq<char> {
    s.map_values(|c: char| ascii_lower(c))
}

pub fn is_alphanumeric(c: char) -> (r: bool)
    ensures
        r == is_ascii_alphanumeric(c),
{
    ('0' <= c && c <= '9') || ('A' <= c && c <= 'Z') || ('a' <= c && c <= 'z')
}

pub fn to_lower(c: char) -> (r: char)
    ensures
        r == ascii_lower(c),
{
    if 'A' <= c && c <= 'Z' {
        (((c as u32) + 32) as u8) as char
    } else {
        c
    }
}

/// Appends one character: `String::push`.
#[verifier::external_body]
pub fn push_char(s: &mut String, c: char)
    ensures
        final(s)@ == old(s)@.push(c),
{
    s.push(c)
}

pub fn push_str(s: &mut String, t: &str)
    ensures
        final(s)@ == old(s)@ + t@,
{
    let ghost start = s@;
    let cs = chars_of(t);
    let mut i: usize = 0;
    while i < cs.len()
        invariant
            i <= cs@.len(),
            cs@ == t@,
            s@ == start + t@.subrange(0, i as int),
        decreases cs@.len() - i,
    {
        push_char(s, cs[i]);
        i += 1;
        assert(t@.subrange(0, i as int) == t@.subrange(0, i - 1) + seq![t@[i - 1]]);
    }
    assert(t@.subrange(0, t@.len() as int) == t@);
}

/// The characters of a string slice, in order.
pub fn chars_of(s: &str) -> (r: Vec<char>)
    ensures
        r@ == s@,
{
    let mut out: Vec<char> = Vec::new();
    for c in iter: s.chars()
        invariant
            iter.seq() == s@,
            out@ == iter.seq().take(iter.index() as int),
    {
        out.push(c);
    }
    out
}

pub fn string_from(cs: &[char]) -> (r: String)
    ensures
        r@ == cs@,
{
    let mut out = String::new();
    let mut i: usize = 0;
    while i < cs.len()
        invariant
            i <= cs@.len(),
            out@ == cs@.subrange(0, i as int),
        decreases cs@.len() - i,
    {
        push_char(&mut out, cs[i]);
        i += 1;
        assert(cs@.subrange(0, i as int) == cs@.subrange(0, i - 1) + seq![cs@[i - 1]]);
    }
    assert(cs@.subrange(0, cs@.len() as int) == cs@);
    out
}

// ---------------------------------------------------------------------------
// Numbers as text.

pub open spec fn digit_char(d: nat) -> char {
    ((48 + d) as u8) as char
}

pub open spec fn hex_lower_char(d: nat) -> char {
    if d < 10 { digit_char(d) } else { ((87 + d) as u8) as char }
}

pub open spec fn hex_upper_char(d: nat) -> char {
    if d < 10 { digit_char(d) } else { ((55 + d) as u8) as char }
}

/// Decimal digits, most significant first, with no leading zeros.
pub open spec fn decimal(v: nat) -> Seq<char>
    decreases v,
{
    if v < 10 {
        seq![digit_char(v)]
    } else {
        decimal(v / 10).push(digit_char(v % 10))
    }
}

/// Exactly `n` lower-case hex digits of `v`, most significant first.
pub open spec fn hex_lower_fixed(v: nat, n: nat) -> Seq<char>
    decreases n,
{
    if n == 0 {
        Seq::empty()
    } else {
        hex_lower_fixed(v / 16, (n - 1) as nat).push(hex_lower_char(v % 16))
    }
}

/// Upper-case hex digits, most significant first, with no leading zeros.
pub open spec fn hex_upper(v: nat) -> Seq<char>
    decreases v,
{
    if v < 16 {
        seq![hex_upper_char(v)]
    } else {
        hex_upper(v / 16).push(hex_upper_char(v % 16))
    }
}

fn digit(d: u64) -> (c: char)
    requires
        d < 10,
    ensures
        c == digit_char(d as nat),
{
    ((48 + d) as u8) as char
}

pub fn push_decimal(out: &mut String, v: u64)
    ensures
        final(out)@ == old(out)@ + decimal(v as nat),
    decreases v,
{
    if v < 10 {
        push_char(out, digit(v));
    } else {
        push_decimal(out, v / 10);
        push_char(out, digit(v % 10));
    }
}

pub fn push_hex_lower_fixed(out: &mut String, v: u64, n: usize)
    ensures
        final(out)@ == old(out)@ + hex_lower_fixed(v as nat, n as nat),
    decreases n,
{
    if n > 0 {
        push_hex_lower_fixed(out, v / 16, n - 1);
        let d = v % 16;
        let c = if d < 10 { digit(d) } else { ((87 + d) as u8) as char };
        push_char(out, c);
    }
}

pub fn push_hex_upper(out: &mut String, v: u32)
    ensures
        final(out)@ == old(out)@ + hex_upper(v as nat),
    decreases v,
{
    if v >= 16 {
        push_hex_upper(out, v / 16);
    }
    let d = (v % 16) as u64;
    let c = if d < 10 { digit(d) } else { ((55 + d) as u8) as char };
    push_char(out, c);
}

/// The decimal digits of `v` as a string.
pub fn decimal_text(v: u64) -> (r: String)
    ensures
        r@ == decimal(v as nat),
{
    let mut out = String::new();
    push_decimal(&mut out, v);
    out
}

/// Whether the characters are exactly those of `b`.
pub fn same_chars(a: &[char], b: &str) -> (r: bool)
    ensures
        r == (a@ == b@),
{
    let bs = chars_of(b);
    if a.len() != bs.len() {
        return false;
    }
    let mut i: usize = 0;
    while i < a.len()
        invariant
            a@.len() == bs@.len(),
            bs@ == b@,
            i <= a@.len(),
            forall|j: int| 0 <= j < i ==> a@[j] == bs@[j],
        decreases a@.len() - i,
    {
        if a[i] != bs[i] {
            return false;
        }
        i += 1;
    }
    assert(a@ =~= bs@);
    true
}

/// Whether two strings hold the same characters.
pub fn same_text(a: &str, b: &str) -> (r: bool)
    ensures
        r == (a@ == b@),
{
    let cs = chars_of(a);
    same_chars(cs.as_slice(), b)
}

/// What `{:?}` prints for a string: the string in double quotes with the
/// characters Rust escapes escaped.
pub uninterp spec fn debug_quoted(s: Seq<char>) -> Seq<char>;

/// `format!("{:?}", s)` for a string slice. The claim: the result is a
/// function of the string alone.
#[verifier::external_body]
pub(crate) fn debug_string(s: &str) -> (r: String)
    ensures
        r@ == debug_quoted(s@),
{
    format!("{:?}", s)
}

// ---------------------------------------------------------------------------
// Lists of strings.

/// The characters of each string, in order.
pub open spec fn texts(v: Seq<String>) -> Seq<Seq<char>> {
    v.map_values(|s: String| s@)
}

pub fn push_text(v: &mut Vec<String>, s: String)
    ensures
        texts(final(v)@) == texts(old(v)@).push(s@),
{
    v.push(s);
    assert(texts(v@) =~= texts(old(v)@).push(s@));
}

/// The strings one after another with `sep` between each two.
pub open spec fn joined(ss: Seq<Seq<char>>, sep: Seq<char>) -> Seq<char>
    decreases ss.len(),
{
    if ss.len() == 0 {
        Seq::empty()
    } else if ss.len() == 1 {
        ss[0]
    } else {
        joined(ss.drop_last(), sep) + sep + ss.last()
    }
}

/// `[String]::join`.
pub fn join_texts(v: &[String], sep: &str) -> (r: String)
    ensures
        r@ == joined(texts(v@), sep@),
{
    let mut out = String::new();
    let mut i: usize = 0;
    assert(texts(v@).take(0) =~= Seq::<Seq<char>>::empty());
    while i < v.len()
        invariant
            i <= v@.len(),
            out@ == joined(texts(v@).take(i as int), sep@),
        decreases v@.len() - i,
    {
        let ghost before = texts(v@).take(i as int);
        let ghost after = texts(v@).take(i + 1);
        assert(after.drop_last() =~= before);
        assert(after.last() == v@[i as int]@);
        if i > 0 {
            push_str(&mut out, sep);
        } else {
            assert(after.len() == 1);
        }
        push_str(&mut out, v[i].as_str());
        i += 1;
        proof {
            if i == 1 {
                assert(out@ =~= after[0]);
            }
        }
    }
    assert(texts(v@).take(i as int) =~= texts(v@));
    out
}

pub fn push_literal(v: &mut Vec<String>, s: &str)
    ensures
        texts(final(v)@) == texts(old(v)@).push(s@),
{
    push_text(v, s.to_owned());
}

// ---------------------------------------------------------------------------
// Whitespace, lines, and searching.

/// Unicode's White_Space property, which is what `char::is_whitespace`
/// tests.
pub open spec fn is_whitespace(c: char) -> bool {
    let v = c as u32;
    (9 <= v <= 13) || v == 32 || v == 0x85 || v == 0xa0 || v == 0x1680 || (0x2000 <= v <= 0x200a)
        || v == 0x2028 || v == 0x2029 || v == 0x202f || v == 0x205f || v == 0x3000
}

pub fn whitespace(c: char) -> (r: bool)
    ensures
        r == is_whitespace(c),
{
    let v = c as u32;
    (9 <= v && v <= 13) || v == 32 || v == 0x85 || v == 0xa0 || v == 0x1680 || (0x2000 <= v && v
        <= 0x200a) || v == 0x2028 || v == 0x2029 || v == 0x202f || v == 0x205f || v == 0x3000
}

pub open spec fn trim_start(s: Seq<char>) -> Seq<char>
    decreases s.len(),
{
    if s.len() > 0 && is_whitespace(s[0]) {
        trim_start(s.drop_first())
    } else {
        s
    }
}

pub open spec fn trim_end(s: Seq<char>) -> Seq<char>
    decreases s.len(),
{
    if s.len() > 0 && is_whitespace(s.last()) {
        trim_end(s.drop_last())
    } else {
        s
    }
}

/// Leading and trailing whitespace removed: `str::trim`.
pub open spec fn trim(s: Seq<char>) -> Seq<char> {
    trim_end(trim_start(s))
}

proof fn lemma_trim_start_skip(s: Seq<char>, i: int)
    requires
        0 <= i <= s.len(),
        forall|j: int| 0 <= j < i ==> is_whitespace(#[trigger] s[j]),
    ensures
        trim_start(s) == trim_start(s.skip(i)),
    decreases i,
{
    if i > 0 {
        assert(s.drop_first().skip(i - 1) =~= s.skip(i));
        lemma_trim_start_skip(s.drop_first(), i - 1);
    } else {
        assert(s.skip(0) =~= s);
    }
}

proof fn lemma_trim_end_take(s: Seq<char>, i: int)
    requires
        0 <= i <= s.len(),
        forall|j: int| i <= j < s.len() ==> is_whitespace(#[trigger] s[j]),
    ensures
        trim_end(s) == trim_end(s.take(i)),
    decreases s.len() - i,
{
    if i < s.len() {
        assert(s.drop_last().take(i) =~= s.take(i));
        lemma_trim_end_take(s.drop_last(), i);
    } else {
        assert(s.take(i) =~= s);
    }
}

/// The characters of `s` with leading and trailing whitespace removed.
pub fn trimmed(s: &[char]) -> (r: Vec<char>)
    ensures
        r@ == trim(s@),
{
    let mut start: usize = 0;
    while start < s.len() && whitespace(s[start])
        invariant
            start <= s@.len(),
            forall|j: int| 0 <= j < start ==> is_whitespace(#[trigger] s@[j]),
        decreases s@.len() - start,
    {
        start += 1;
    }
    proof {
        lemma_trim_start_skip(s@, start as int);
    }
    let mut end: usize = s.len();
    while end > start && whitespace(s[end - 1])
        invariant
            start <= end <= s@.len(),
            forall|j: int| end <= j < s@.len() ==> is_whitespace(#[trigger] s@[j]),
        decreases end,
    {
        end -= 1;
    }
    let mut out: Vec<char> = Vec::new();
    let mut i = start;
    while i < end
        invariant
            start <= i <= end,
            end <= s@.len(),
            out@ == s@.subrange(start as int, i as int),
        decreases end - i,
    {
        out.push(s[i]);
        i += 1;
    }
    proof {
        let rest = s@.skip(start as int);
        assert(!(rest.len() > 0 && is_whitespace(rest[0])));
        assert(trim_start(rest) == rest);
        let k = end - start;
        assert forall|j: int| k <= j < rest.len() implies is_whitespace(#[trigger] rest[j]) by {
            assert(rest[j] == s@[start + j]);
        }
        lemma_trim_end_take(rest, k as int);
        let kept = rest.take(k as int);
        assert(kept =~= s@.subrange(start as int, end as int));
        assert(!(kept.len() > 0 && is_whitespace(kept.last())));
    }
    out
}

/// The text after the run of non-whitespace characters that begins `s`.
pub open spec fn after_word(s: Seq<char>) -> Seq<char>
    decreases s.len(),
{
    if s.len() > 0 && !is_whitespace(s[0]) {
        after_word(s.drop_first())
    } else {
        s
    }
}

/// The text after a word is no longer than the text, and shorter when the
/// text begins with a word.
pub proof fn lemma_after_word_len(s: Seq<char>)
    ensures
        after_word(s).len() <= s.len(),
        s.len() > 0 && !is_whitespace(s[0]) ==> after_word(s).len() < s.len(),
    decreases s.len(),
{
    if s.len() > 0 && !is_whitespace(s[0]) {
        lemma_after_word_len(s.drop_first());
    }
}

/// `str::split_whitespace`: the maximal runs of non-whitespace characters,
/// in order.
pub open spec fn words(s: Seq<char>) -> Seq<Seq<char>>
    decreases s.len(),
{
    if s.len() == 0 {
        Seq::empty()
    } else if is_whitespace(s[0]) {
        words(s.drop_first())
    } else {
        proof {
            lemma_after_word_len(s);
        }
        seq![s.take(s.len() - after_word(s).len())] + words(after_word(s))
    }
}

proof fn lemma_after_word_run(t: Seq<char>, k: int)
    requires
        0 <= k <= t.len(),
        forall|j: int| 0 <= j < k ==> !is_whitespace(#[trigger] t[j]),
        k == t.len() || is_whitespace(t[k]),
    ensures
        after_word(t) == t.skip(k),
    decreases k,
{
    if k == 0 {
        assert(t.skip(0) =~= t);
    } else {
        assert(!is_whitespace(t[0]));
        let u = t.drop_first();
        assert forall|j: int| 0 <= j < k - 1 implies !is_whitespace(#[trigger] u[j]) by {
            assert(u[j] == t[j + 1]);
        }
        lemma_after_word_run(u, k - 1);
        assert(u.skip(k - 1) =~= t.skip(k));
    }
}

/// The whitespace-separated words of `s`.
pub fn words_of(s: &[char]) -> (r: Vec<Vec<char>>)
    ensures
        r@.len() == words(s@).len(),
        forall|i: int| 0 <= i < r@.len() ==> #[trigger] r@[i]@ == words(s@)[i],
{
    let mut out: Vec<Vec<char>> = Vec::new();
    let ghost mut done: Seq<Seq<char>> = Seq::empty();
    let mut pos: usize = 0;
    assert(s@.skip(0) =~= s@);
    assert(done + words(s@) =~= words(s@));
    while pos < s.len()
        invariant
            pos <= s@.len(),
            done.len() == out@.len(),
            forall|i: int| 0 <= i < out@.len() ==> #[trigger] out@[i]@ == done[i],
            words(s@) == done + words(s@.skip(pos as int)),
        decreases s@.len() - pos,
    {
        let ghost t = s@.skip(pos as int);
        if whitespace(s[pos]) {
            assert(t.drop_first() =~= s@.skip(pos + 1));
            pos += 1;
        } else {
            let mut e = pos;
            while e < s.len() && !whitespace(s[e])
                invariant
                    pos <= e <= s@.len(),
                    forall|j: int| pos <= j < e ==> !is_whitespace(#[trigger] s@[j]),
                decreases s@.len() - e,
            {
                e += 1;
            }
            assert(e > pos);
            proof {
                let k = (e - pos) as int;
                assert forall|j: int| 0 <= j < k implies !is_whitespace(#[trigger] t[j]) by {
                    assert(t[j] == s@[pos + j]);
                }
                if k < t.len() {
                    assert(t[k] == s@[e as int]);
                }
                lemma_after_word_run(t, k);
                assert(t.skip(k) =~= s@.skip(e as int));
                assert(t.take(t.len() - after_word(t).len()) =~= s@.subrange(pos as int, e as int));
            }
            let w = copy_range(s, pos, e);
            proof {
                done = done.push(w@);
            }
            out.push(w);
            pos = e;
            proof {
                assert(words(s@) =~= done + words(s@.skip(pos as int)));
            }
        }
    }
    proof {
        assert(s@.skip(pos as int) =~= Seq::<char>::empty());
        assert(words(s@) =~= done);
    }
    out
}

/// Whether `p` begins `s`.
pub open spec fn starts_with(s: Seq<char>, p: Seq<char>) -> bool {
    p.len() <= s.len() && s.take(p.len() as int) == p
}

/// Whether `p` ends `s`.
pub open spec fn ends_with(s: Seq<char>, p: Seq<char>) -> bool {
    p.len() <= s.len() && s.skip(s.len() - p.len()) == p
}

/// Whether `p` occurs in `s` starting at `i`.
pub open spec fn occurs_at(s: Seq<char>, p: Seq<char>, i: int) -> bool {
    0 <= i && i + p.len() <= s.len() && s.subrange(i, i + p.len()) == p
}

/// The first position at or after `i` where `p` occurs in `s`.
pub open spec fn find_from(s: Seq<char>, p: Seq<char>, i: int) -> Option<int>
    decreases s.len() + 1 - i,
{
    if i < 0 || i > s.len() {
        None
    } else if occurs_at(s, p, i) {
        Some(i)
    } else {
        find_from(s, p, i + 1)
    }
}

/// Where `p` first occurs in `s`.
pub open spec fn find(s: Seq<char>, p: Seq<char>) -> Option<int> {
    find_from(s, p, 0)
}

pub open spec fn contains(s: Seq<char>, p: Seq<char>) -> bool {
    find(s, p) is Some
}

pub fn matches_at(s: &[char], p: &[char], i: usize) -> (r: bool)
    ensures
        r == occurs_at(s@, p@, i as int),
{
    if i > s.len() || p.len() > s.len() - i {
        return false;
    }
    let mut k: usize = 0;
    while k < p.len()
        invariant
            i <= s@.len(),
            p@.len() <= s@.len() - i,
            k <= p@.len(),
            forall|j: int| 0 <= j < k ==> s@[i + j] == p@[j],
        decreases p@.len() - k,
    {
        let n = s.len();
        assert(i + k < n);
        let at = i + k;
        if s[at] != p[k] {
            assert(s@.subrange(i as int, i + p@.len())[k as int] != p@[k as int]);
            return false;
        }
        k += 1;
    }
    assert(s@.subrange(i as int, i + p@.len()) =~= p@);
    true
}

pub fn has_prefix(s: &[char], p: &[char]) -> (r: bool)
    ensures
        r == starts_with(s@, p@),
{
    let r = matches_at(s, p, 0);
    proof {
        if p@.len() <= s@.len() {
            assert(s@.subrange(0, p@.len() as int) =~= s@.take(p@.len() as int));
        }
    }
    r
}

pub fn has_suffix(s: &[char], p: &[char]) -> (r: bool)
    ensures
        r == ends_with(s@, p@),
{
    if p.len() > s.len() {
        return false;
    }
    let r = matches_at(s, p, s.len() - p.len());
    proof {
        assert(s@.subrange(s@.len() - p@.len(), s@.len() as int) =~= s@.skip(
            s@.len() - p@.len(),
        ));
    }
    r
}

/// Where `p` first occurs in `s`, searching from the start.
pub fn find_in(s: &[char], p: &[char]) -> (r: Option<usize>)
    ensures
        match r {
            Some(i) => find(s@, p@) == Some(i as int),
            None => find(s@, p@) is None,
        },
{
    let mut i: usize = 0;
    while i <= s.len()
        invariant
            i <= s@.len() + 1,
            find(s@, p@) == find_from(s@, p@, i as int),
        decreases s@.len() + 1 - i,
    {
        if matches_at(s, p, i) {
            return Some(i);
        }
        if i == s.len() {
            assert(find_from(s@, p@, i + 1) is None);
            return None;
        }
        i += 1;
    }
    None
}

pub proof fn lemma_find_from_bounds(s: Seq<char>, p: Seq<char>, i: int)
    ensures
        find_from(s, p, i) matches Some(k) ==> occurs_at(s, p, k) && i <= k && k <= s.len(),
    decreases s.len() + 1 - i,
{
    if 0 <= i <= s.len() && !occurs_at(s, p, i) {
        lemma_find_from_bounds(s, p, i + 1);
    }
}

pub open spec fn newline() -> Seq<char> {
    seq!['\n']
}

/// A line with the carriage return of a CRLF ending removed.
pub open spec fn strip_cr(l: Seq<char>) -> Seq<char> {
    if l.len() > 0 && l.last() == '\r' {
        l.drop_last()
    } else {
        l
    }
}

/// `str::lines`: split at each `\n`, with a `\r` before it dropped; a final
/// line ending adds no empty line after it.
pub open spec fn lines(s: Seq<char>) -> Seq<Seq<char>>
    decreases s.len(),
{
    if s.len() == 0 {
        Seq::empty()
    } else {
        match find(s, newline()) {
            None => seq![s],
            Some(k) => {
                proof {
                    lemma_find_from_bounds(s, newline(), 0);
                }
                seq![strip_cr(s.take(k))] + lines(s.skip(k + 1))
            },
        }
    }
}

pub fn copy_range(s: &[char], from: usize, to: usize) -> (r: Vec<char>)
    requires
        from <= to <= s@.len(),
    ensures
        r@ == s@.subrange(from as int, to as int),
{
    let mut out: Vec<char> = Vec::new();
    let mut i = from;
    while i < to
        invariant
            from <= i <= to,
            to <= s@.len(),
            out@ == s@.subrange(from as int, i as int),
        decreases to - i,
    {
        out.push(s[i]);
        i += 1;
    }
    out
}

pub fn lines_of(s: &[char]) -> (r: Vec<Vec<char>>)
    ensures
        r@.len() == lines(s@).len(),
        forall|i: int| 0 <= i < r@.len() ==> #[trigger] r@[i]@ == lines(s@)[i],
{
    let nl: [char; 1] = ['\n'];
    let ghost nls = newline();
    assert(nl@ =~= nls);
    let mut out: Vec<Vec<char>> = Vec::new();
    let mut pos: usize = 0;
    let ghost mut done: Seq<Seq<char>> = Seq::empty();
    assert(s@.skip(0) =~= s@);
    assert(done + lines(s@) =~= lines(s@));
    while pos < s.len()
        invariant
            pos <= s@.len(),
            nl@ == nls,
            nls == newline(),
            done.len() == out@.len(),
            forall|i: int| 0 <= i < out@.len() ==> #[trigger] out@[i]@ == done[i],
            lines(s@) == done + lines(s@.skip(pos as int)),
        decreases s@.len() - pos,
    {
        let rest = copy_range(s, pos, s.len());
        assert(rest@ =~= s@.skip(pos as int));
        match find_in(rest.as_slice(), &nl) {
            None => {
                let line = rest;
                proof {
                    done = done.push(line@);
                }
                out.push(line);
                proof {
                    assert(lines(s@.skip(s@.len() as int)) =~= Seq::<Seq<char>>::empty());
                    assert(lines(s@) =~= done);
                }
                pos = s.len();
            },
            Some(k) => {
                proof {
                    lemma_find_from_bounds(rest@, newline(), 0);
                }
                let mut line = copy_range(rest.as_slice(), 0, k);
                if k > 0 && line[k - 1] == '\r' {
                    line.pop();
                }
                proof {
                    assert(rest@.subrange(0, k as int) =~= rest@.take(k as int));
                    done = done.push(line@);
                    assert(rest@.skip(k + 1) =~= s@.skip(pos + k + 1));
                }
                out.push(line);
                pos = pos + k + 1;
                proof {
                    assert(lines(s@) =~= done + lines(s@.skip(pos as int)));
                }
            },
        }
    }
    proof {
        assert(s@.skip(pos as int) =~= Seq::<char>::empty());
        assert(lines(s@) =~= done);
    }
    out
}

/// What `String::from_utf8_lossy` makes of a byte string: its characters,
/// with each maximal invalid sequence replaced by U+FFFD.
pub uninterp spec fn utf8_lossy(bytes: Seq<u8>) -> Seq<char>;

/// `String::from_utf8_lossy`. The claims: the result is a function of the
/// bytes alone, and valid UTF-8 comes back as exactly the characters it
/// encodes, as the function's documentation states.
#[verifier::external_body]
pub fn from_utf8_lossy(bytes: &[u8]) -> (s: String)
    ensures
        s@ == utf8_lossy(bytes@),
        vstd::utf8::valid_utf8(bytes@) ==> s@ == vstd::utf8::decode_utf8(bytes@),
{
    String::from_utf8_lossy(bytes).into_owned()
}

/// `std::str::from_utf8`: the text the bytes encode, or nothing when they
/// are not UTF-8. The claims: it succeeds exactly on valid UTF-8, and then
/// gives the characters the bytes encode, as its documentation states.
#[verifier::external_body]
pub fn str_from_utf8(bytes: &[u8]) -> (r: Option<String>)
    ensures
        r is Some <==> vstd::utf8::valid_utf8(bytes@),
        r matches Some(s) ==> s@ == vstd::utf8::decode_utf8(bytes@),
{
    match std::str::from_utf8(bytes) {
        Ok(s) => Some(s.to_string()),
        Err(_) => None,
    }
}

pub fn bytes_range(s: &[u8], from: usize, to: usize) -> (r: Vec<u8>)
    requires
        from <= to <= s@.len(),
    ensures
        r@ == s@.subrange(from as int, to as int),
{
    let mut out: Vec<u8> = Vec::new();
    let mut i = from;
    while i < to
        invariant
            from <= i <= to,
            to <= s@.len(),
            out@ == s@.subrange(from as int, i as int),
        decreases to - i,
    {
        out.push(s[i]);
        i += 1;
    }
    out
}

} // verus!
