//! ChaCha20-Poly1305 over the RTP payload, keyed by the pairing token.
//!
//! The 12-byte RTP header stays in the clear and is authenticated as
//! associated data, the way SRTP does it: a capture still shows sequence
//! numbers, timestamps and SSRC, so loss and jitter remain diagnosable, while
//! the audio itself does not leave the machine in the clear.

use chacha20poly1305::aead::{Aead, Payload};
use chacha20poly1305::{ChaCha20Poly1305, KeyInit, Nonce};
use sha2::{Digest, Sha256};

use vstd::prelude::*;

use crate::bytes::{be16, be32, be32_bytes, be64_bytes, push_be32, push_be64, read_be16, read_be32, extend_from};
use crate::protocol::{normalize_token, normalized};
use crate::rtp::{self, SequenceExtender};
use crate::text::{debug_quoted, debug_string, push_str};
use vstd::utf8::encode_utf8;
use vstd::string::StringSliceAdditionalSpecFns;

verus! {

pub const CIPHER: &'static str = "chacha20-poly1305";

pub const KEY_LEN: usize = 32;

pub const SALT_LEN: usize = 16;

pub const TAG_LEN: usize = 16;

/// A pairing token is 48 bits, which a GPU walks in hours if the derivation is
/// cheap. PBKDF2 at this cost puts a brute force out of reach while adding a
/// couple of hundred milliseconds to a handshake that already blocks.
pub const KDF_ROUNDS: u32 = 200_000;

#[derive(Debug, PartialEq, Eq)]
pub enum Error {
    UnknownCipher(String),
    BadSalt,
}

pub open spec fn error_text(e: Error) -> Seq<char> {
    match e {
        Error::UnknownCipher(name) => "unsupported cipher "@ + debug_quoted(name@),
        Error::BadSalt => "malformed encryption salt"@,
    }
}

impl Error {
    /// What the error says to a person.
    pub fn message(&self) -> (r: String)
        ensures
            r@ == error_text(*self),
    {
        match self {
            Error::UnknownCipher(name) => {
                let mut s = "unsupported cipher ".to_owned();
                let quoted = debug_string(name.as_str());
                push_str(&mut s, quoted.as_str());
                s
            },
            Error::BadSalt => "malformed encryption salt".to_owned(),
        }
    }
}

// ---------------------------------------------------------------------------
// What the outside crates compute.

/// SHA-256 of a byte string, as `sha2` computes it.
pub uninterp spec fn sha256_digest(data: Seq<u8>) -> Seq<u8>;

/// PBKDF2 with HMAC-SHA-256, as `pbkdf2` computes it, stretched to `len`
/// bytes.
pub uninterp spec fn pbkdf2_hmac_sha256(password: Seq<u8>, salt: Seq<u8>, rounds: u32, len: nat) -> Seq<u8>;

/// ChaCha20-Poly1305 encryption (RFC 8439) as `chacha20poly1305` performs it:
/// the ciphertext with the 16-byte tag appended, or `None` where the crate
/// refuses the message.
pub uninterp spec fn aead_seal(key: Seq<u8>, nonce: Seq<u8>, aad: Seq<u8>, msg: Seq<u8>) -> Option<Seq<u8>>;

/// ChaCha20-Poly1305 decryption: the plaintext, or `None` when the tag does
/// not authenticate the ciphertext and associated data under the key and
/// nonce.
pub uninterp spec fn aead_open(key: Seq<u8>, nonce: Seq<u8>, aad: Seq<u8>, sealed: Seq<u8>) -> Option<Seq<u8>>;

/// The largest message `chacha20poly1305` encrypts: fewer than 2^32 - 1
/// blocks of 64 bytes.
pub open spec fn aead_accepts(msg_len: nat) -> bool {
    msg_len / 64 < 0xffff_ffff
}

/// `sha2::Sha256::digest`. The claim: the result is the SHA-256 digest of
/// the input, a function of the input alone, 32 bytes long.
#[verifier::external_body]
fn sha256(data: &[u8]) -> (digest: [u8; 32])
    ensures
        digest@ == sha256_digest(data@),
{
    Sha256::digest(data).into()
}

/// `pbkdf2::pbkdf2_hmac::<Sha256>` into a 32-byte buffer. The claim: the
/// output is the PBKDF2-HMAC-SHA-256 stretch of the password and salt at the
/// given cost, a function of those alone. HMAC takes keys of any length, so
/// the call never panics.
#[verifier::external_body]
fn pbkdf2_sha256(password: &[u8], salt: &[u8], rounds: u32) -> (out: [u8; 32])
    ensures
        out@ == pbkdf2_hmac_sha256(password@, salt@, rounds, 32),
{
    let mut out = [0u8; 32];
    pbkdf2::pbkdf2_hmac::<Sha256>(password, salt, rounds, &mut out);
    out
}

/// `ChaCha20Poly1305::encrypt` under a cipher made from `key`. The claims:
/// the result is what encryption computes from its four inputs; the crate
/// refuses only messages of 2^32 - 1 blocks or more; the ciphertext is the
/// message's length plus the 16-byte tag; and decryption under the same key,
/// nonce and associated data gives the message back, which is what the
/// crate's decryption does with a tag it computed itself.
#[verifier::external_body]
fn aead_encrypt(key: &[u8; 32], nonce: &[u8], aad: &[u8], msg: &[u8]) -> (sealed: Option<Vec<u8>>)
    requires
        nonce@.len() == 12,
    ensures
        sealed matches Some(c) ==> aead_seal(key@, nonce@, aad@, msg@) == Some(c@),
        sealed is None ==> aead_seal(key@, nonce@, aad@, msg@) is None,
        aead_accepts(msg@.len()) ==> sealed is Some,
        sealed matches Some(c) ==> c@.len() == msg@.len() + TAG_LEN,
        sealed matches Some(c) ==> aead_open(key@, nonce@, aad@, c@) == Some(msg@),
{
    ChaCha20Poly1305::new(key.into()).encrypt(Nonce::from_slice(nonce), Payload { msg, aad }).ok()
}

/// `ChaCha20Poly1305::decrypt` under a cipher made from `key`. The claim: the
/// result is what decryption computes from its four inputs. That a forged or
/// corrupted packet fails to authenticate holds only with overwhelming
/// probability, so it is not stated.
#[verifier::external_body]
fn aead_decrypt(key: &[u8; 32], nonce: &[u8], aad: &[u8], sealed: &[u8]) -> (opened: Option<Vec<u8>>)
    requires
        nonce@.len() == 12,
    ensures
        opened matches Some(m) ==> aead_open(key@, nonce@, aad@, sealed@) == Some(m@),
        opened is None ==> aead_open(key@, nonce@, aad@, sealed@) is None,
{
    ChaCha20Poly1305::new(key.into()).decrypt(Nonce::from_slice(nonce), Payload { msg: sealed, aad }).ok()
}

// ---------------------------------------------------------------------------
// Keys.

#[derive(Clone)]
pub struct Key([u8; KEY_LEN]);

impl Key {
    pub closed spec fn bytes(self) -> Seq<u8> {
        self.0@
    }
}

/// Which way the audio is going. The two directions must never share a key:
/// the nonce is the SSRC and the sequence number, and one key across both
/// would eventually pair the same two with opposite traffic, repeating a
/// nonce, the one failure ChaCha20-Poly1305 does not survive.
#[derive(Debug, Clone, Copy, PartialEq, Eq)]
pub enum Direction {
    Downlink,
    Uplink,
}

pub open spec fn label_spec(direction: Direction) -> Seq<u8> {
    match direction {
        Direction::Downlink => "ausha downlink".spec_bytes(),
        Direction::Uplink => "ausha uplink".spec_bytes(),
    }
}

impl Direction {
    fn label(self) -> (l: &'static [u8])
        ensures
            l@ == label_spec(self),
    {
        match self {
            Direction::Downlink => "ausha downlink".as_bytes(),
            Direction::Uplink => "ausha uplink".as_bytes(),
        }
    }
}

/// The two directions hash different labels into their keys.
pub proof fn lemma_directions_use_different_labels()
    ensures
        label_spec(Direction::Downlink) != label_spec(Direction::Uplink),
{
    reveal_strlit("ausha downlink");
    reveal_strlit("ausha uplink");
    assert(label_spec(Direction::Downlink).len() != label_spec(Direction::Uplink).len()) by {
        vstd::string::is_ascii_spec_bytes("ausha downlink");
        vstd::string::is_ascii_spec_bytes("ausha uplink");
    }
}

/// What the pairing token stretches into. Never used as a key itself: each
/// direction takes its own from this.
pub struct Secret([u8; KEY_LEN]);

impl Secret {
    pub closed spec fn bytes(self) -> Seq<u8> {
        self.0@
    }

    /// Splitting is a single hash rather than a full HKDF because the secret
    /// is already a uniformly random 256 bits; the label is only there so the
    /// two directions cannot land on the same key.
    pub fn key(&self, direction: Direction) -> (k: Key)
        ensures
            k.bytes() == sha256_digest(self.bytes() + label_spec(direction)),
    {
        let mut data: Vec<u8> = Vec::new();
        extend_from(&mut data, &self.0);
        extend_from(&mut data, direction.label());
        Key(sha256(data.as_slice()))
    }
}

// ---------------------------------------------------------------------------
// The salt.

pub open spec fn hex_digit_value(b: u8) -> Option<u8> {
    if 48 <= b <= 57 {
        Some((b - 48) as u8)
    } else if 97 <= b <= 102 {
        Some((b - 87) as u8)
    } else if 65 <= b <= 70 {
        Some((b - 55) as u8)
    } else {
        None
    }
}

/// One byte from two characters of text the way `u8::from_str_radix(_, 16)`
/// reads them: two hex digits, or a `+` sign and one.
pub open spec fn hex_pair_value(a: u8, b: u8) -> Option<u8> {
    match (hex_digit_value(a), hex_digit_value(b)) {
        (Some(hi), Some(lo)) => Some((hi * 16 + lo) as u8),
        (None, Some(lo)) => if a == 43 { Some(lo) } else { None },
        _ => None,
    }
}

/// The bytes a hex string spells, pair by pair, or `None` if its length is
/// odd or any pair is not a byte.
pub open spec fn hex_decoded(text: Seq<u8>) -> Option<Seq<u8>>
    decreases text.len(),
{
    if text.len() % 2 == 1 {
        None
    } else if text.len() == 0 {
        Some(Seq::empty())
    } else {
        match (hex_decoded(text.subrange(0, text.len() - 2)), hex_pair_value(
            text[text.len() - 2],
            text[text.len() - 1],
        )) {
            (Some(front), Some(last)) => Some(front.push(last)),
            _ => None,
        }
    }
}

/// The lower-case hex digit for `d`, as a byte of text.
pub open spec fn lower_hex_digit(d: nat) -> u8 {
    if d < 10 { (48 + d) as u8 } else { (87 + d) as u8 }
}

/// The upper-case hex digit for `d`, as a byte of text.
pub open spec fn upper_hex_digit(d: nat) -> u8 {
    if d < 10 { (48 + d) as u8 } else { (55 + d) as u8 }
}

/// Bytes written out as text, two lower-case hex digits each, high digit
/// first.
pub open spec fn hex_text(bytes: Seq<u8>) -> Seq<u8>
    decreases bytes.len(),
{
    if bytes.len() == 0 {
        Seq::empty()
    } else {
        hex_text(bytes.drop_last()) + seq![
            lower_hex_digit((bytes.last() / 16) as nat),
            lower_hex_digit((bytes.last() % 16) as nat),
        ]
    }
}

/// Two hex digits, in either case, read as the byte they spell: the first
/// is the high digit, so "0f" is 15 and "f0" is 240.
pub proof fn lemma_hex_pair_is_high_then_low(high: nat, low: nat)
    requires
        high < 16,
        low < 16,
    ensures
        hex_pair_value(lower_hex_digit(high), lower_hex_digit(low)) == Some((16 * high + low) as u8),
        hex_pair_value(upper_hex_digit(high), upper_hex_digit(low)) == Some((16 * high + low) as u8),
        hex_pair_value(lower_hex_digit(high), upper_hex_digit(low)) == Some((16 * high + low) as u8),
        hex_pair_value(upper_hex_digit(high), lower_hex_digit(low)) == Some((16 * high + low) as u8),
{
}

/// A salt decodes to the bytes it spells: any bytes written out as hex text
/// decode back to themselves.
pub proof fn lemma_hex_text_decodes_back(bytes: Seq<u8>)
    ensures
        hex_text(bytes).len() == 2 * bytes.len(),
        hex_decoded(hex_text(bytes)) == Some(bytes),
    decreases bytes.len(),
{
    if bytes.len() > 0 {
        let front = bytes.drop_last();
        let b = bytes.last();
        lemma_hex_text_decodes_back(front);
        lemma_hex_pair_is_high_then_low((b / 16) as nat, (b % 16) as nat);
        let t = hex_text(bytes);
        assert(t.subrange(0, t.len() - 2) =~= hex_text(front));
        assert(t[t.len() - 2] == lower_hex_digit((b / 16) as nat));
        assert(t[t.len() - 1] == lower_hex_digit((b % 16) as nat));
        assert(16 * (b / 16) + b % 16 == b);
        assert(front.push(b) =~= bytes);
    }
}

fn hex_digit(b: u8) -> (v: Option<u8>)
    ensures
        v == hex_digit_value(b),
{
    if 48 <= b && b <= 57 {
        Some(b - 48)
    } else if 97 <= b && b <= 102 {
        Some(b - 87)
    } else if 65 <= b && b <= 70 {
        Some(b - 55)
    } else {
        None
    }
}

fn hex_pair(a: u8, b: u8) -> (v: Option<u8>)
    ensures
        v == hex_pair_value(a, b),
{
    match (hex_digit(a), hex_digit(b)) {
        (Some(hi), Some(lo)) => Some(hi * 16 + lo),
        (None, Some(lo)) => if a == 43 { Some(lo) } else { None },
        _ => None,
    }
}

pub fn decode_hex(text: &str) -> (r: Option<Vec<u8>>)
    ensures
        match r {
            Some(v) => hex_decoded(text.spec_bytes()) == Some(v@),
            None => hex_decoded(text.spec_bytes()) is None,
        },
{
    let bytes = text.as_bytes();
    let len = bytes.len();
    if len % 2 == 1 {
        return None;
    }
    let mut out: Vec<u8> = Vec::new();
    let mut i: usize = 0;
    while i < len
        invariant
            bytes@ == text.spec_bytes(),
            len == bytes@.len(),
            len % 2 == 0,
            i % 2 == 0,
            i <= len,
            hex_decoded(bytes@.subrange(0, i as int)) == Some(out@),
        decreases len - i,
    {
        let ghost prefix = bytes@.subrange(0, i + 2);
        assert(prefix.subrange(0, prefix.len() - 2) =~= bytes@.subrange(0, i as int));
        match hex_pair(bytes[i], bytes[i + 1]) {
            Some(v) => out.push(v),
            None => {
                proof {
                    lemma_hex_undecodable_prefix(bytes@, i as int + 2);
                }
                return None;
            },
        }
        i += 2;
    }
    assert(bytes@.subrange(0, len as int) =~= bytes@);
    Some(out)
}

/// Once an even-length prefix fails to decode, so does anything it begins.
proof fn lemma_hex_undecodable_prefix(text: Seq<u8>, n: int)
    requires
        0 <= n <= text.len(),
        n % 2 == 0,
        text.len() % 2 == 0,
        hex_decoded(text.subrange(0, n)) is None,
    ensures
        hex_decoded(text) is None,
    decreases text.len() - n,
{
    if n < text.len() {
        let longer = text.subrange(0, n + 2);
        assert(longer.subrange(0, longer.len() - 2) =~= text.subrange(0, n));
        lemma_hex_undecodable_prefix(text, n + 2);
    } else {
        assert(text.subrange(0, n) =~= text);
    }
}

pub open spec fn derive_secret_spec(token: Seq<char>, salt_hex: Seq<u8>) -> Result<Seq<u8>, Error> {
    match hex_decoded(salt_hex) {
        Some(salt) => if salt.len() == SALT_LEN {
            Ok(pbkdf2_hmac_sha256(encode_utf8(normalized(token)), salt, KDF_ROUNDS, 32))
        } else {
            Err(Error::BadSalt)
        },
        None => Err(Error::BadSalt),
    }
}

/// The secret comes from the salt the sender announced, byte for byte: for
/// any sixteen salt bytes written out as hex, the secret is PBKDF2-HMAC-SHA256
/// of the normalized token over exactly those bytes, in 200 000 rounds.
pub proof fn lemma_secret_uses_the_announced_salt(token: Seq<char>, salt: Seq<u8>)
    requires
        salt.len() == 16,
    ensures
        derive_secret_spec(token, hex_text(salt)) == Ok::<Seq<u8>, Error>(
            pbkdf2_hmac_sha256(encode_utf8(normalized(token)), salt, 200_000, 32),
        ),
{
    lemma_hex_text_decodes_back(salt);
}

/// Stretches the pairing token into a session secret. The salt is fresh per
/// run, so a token reused across runs never produces the same keys twice.
pub fn derive_secret(token: &str, salt_hex: &str) -> (r: Result<Secret, Error>)
    ensures
        match (r, derive_secret_spec(token@, salt_hex.spec_bytes())) {
            (Ok(secret), Ok(bytes)) => secret.bytes() == bytes,
            (Err(e), Err(f)) => e == f,
            _ => false,
        },
{
    let salt = match decode_hex(salt_hex) {
        Some(salt) => salt,
        None => {
            return Err(Error::BadSalt);
        },
    };
    if salt.len() != SALT_LEN {
        return Err(Error::BadSalt);
    }
    let password = normalize_token(token);
    let secret = pbkdf2_sha256(password.as_str().as_bytes(), salt.as_slice(), KDF_ROUNDS);
    Ok(Secret(secret))
}

// ---------------------------------------------------------------------------
// Sealing and opening packets.

/// SSRC and the extended sequence number, which together never repeat within
/// a session: the property ChaCha20-Poly1305 needs from a nonce.
pub open spec fn nonce_spec(ssrc: u32, extended: u64) -> Seq<u8> {
    be32_bytes(ssrc) + be64_bytes(extended)
}

pub fn nonce(ssrc: u32, extended_sequence: u64) -> (n: Vec<u8>)
    ensures
        n@ == nonce_spec(ssrc, extended_sequence),
        n@.len() == 12,
{
    let mut bytes: Vec<u8> = Vec::new();
    push_be32(&mut bytes, ssrc);
    push_be64(&mut bytes, extended_sequence);
    bytes
}

/// Distinct (SSRC, extended sequence) pairs never share a nonce.
pub proof fn lemma_nonce_is_unique(s1: u32, e1: u64, s2: u32, e2: u64)
    requires
        nonce_spec(s1, e1) == nonce_spec(s2, e2),
    ensures
        s1 == s2,
        e1 == e2,
{
    let n1 = nonce_spec(s1, e1);
    let n2 = nonce_spec(s2, e2);
    assert(n1.subrange(0, 4) =~= be32_bytes(s1));
    assert(n2.subrange(0, 4) =~= be32_bytes(s2));
    assert(n1.subrange(4, 12) =~= be64_bytes(e1));
    assert(n2.subrange(4, 12) =~= be64_bytes(e2));
    crate::bytes::lemma_be32_round_trip(s1);
    crate::bytes::lemma_be32_round_trip(s2);
    crate::bytes::lemma_be64_injective(e1, e2);
}

pub open spec fn header_of(d: Seq<u8>) -> Seq<u8> {
    d.subrange(0, rtp::HEADER_LEN as int)
}

pub open spec fn body_of(d: Seq<u8>) -> Seq<u8> {
    d.subrange(rtp::HEADER_LEN as int, d.len() as int)
}

pub open spec fn sequence_in(d: Seq<u8>) -> u16 {
    be16(d[2], d[3])
}

pub open spec fn ssrc_in(d: Seq<u8>) -> u32 {
    be32(d[8], d[9], d[10], d[11])
}

/// What opening a datagram gives under `key` with the sequence state
/// `sequence`: the header followed by the decrypted payload, or `None`.
pub open spec fn opened_spec(key: Seq<u8>, sequence: SequenceExtender, d: Seq<u8>) -> Option<Seq<u8>> {
    if d.len() < rtp::HEADER_LEN {
        None
    } else {
        match aead_open(
            key,
            nonce_spec(ssrc_in(d), sequence.peek_spec(sequence_in(d)) as u64),
            header_of(d),
            body_of(d),
        ) {
            Some(m) => Some(header_of(d) + m),
            None => None,
        }
    }
}

/// What sealing a datagram gives under `key` with the sequence state
/// `sequence`: the header followed by the encrypted payload and its tag, or
/// `None`.
pub open spec fn sealed_spec(key: Seq<u8>, sequence: SequenceExtender, d: Seq<u8>) -> Option<Seq<u8>> {
    if d.len() < rtp::HEADER_LEN {
        None
    } else {
        match aead_seal(
            key,
            nonce_spec(ssrc_in(d), sequence.peek_spec(sequence_in(d)) as u64),
            header_of(d),
            body_of(d),
        ) {
            Some(c) => Some(header_of(d) + c),
            None => None,
        }
    }
}

/// The position a sequence state moves to once `d` is recorded.
pub open spec fn advanced(sequence: SequenceExtender, d: Seq<u8>) -> int {
    if sequence.moves_forward_spec(sequence_in(d)) {
        sequence.peek_spec(sequence_in(d))
    } else {
        sequence.position()
    }
}

fn split_header(datagram: &[u8]) -> (r: Option<(&[u8], &[u8])>)
    ensures
        datagram@.len() < rtp::HEADER_LEN ==> r is None,
        datagram@.len() >= rtp::HEADER_LEN ==> (r matches Some((h, b)) && h@ == header_of(datagram@)
            && b@ == body_of(datagram@)),
{
    if datagram.len() >= rtp::HEADER_LEN {
        Some(datagram.split_at(rtp::HEADER_LEN))
    } else {
        None
    }
}

fn sequence_of(header: &[u8]) -> (s: u16)
    requires
        header@.len() == rtp::HEADER_LEN,
    ensures
        s == be16(header@[2], header@[3]),
{
    read_be16(header, 2)
}

fn ssrc_of(header: &[u8]) -> (s: u32)
    requires
        header@.len() == rtp::HEADER_LEN,
    ensures
        s == be32(header@[8], header@[9], header@[10], header@[11]),
{
    read_be32(header, 8)
}

/// Encrypts outgoing packets. Lives on the sender's fan-out thread.
pub struct Sealer {
    key: Key,
    sequence: SequenceExtender,
}

impl Sealer {
    pub closed spec fn key(self) -> Seq<u8> {
        self.key.bytes()
    }

    pub closed spec fn sequence(self) -> SequenceExtender {
        self.sequence
    }

    pub fn new(key: &Key) -> (s: Self)
        ensures
            s.key() == key.bytes(),
            s.sequence() == SequenceExtender::fresh(),
            !s.sequence().started(),
            s.sequence().position() == 0,
            s.sequence().has_room(),
    {
        Self { key: Key(key.0), sequence: SequenceExtender::default() }
    }

    /// Whether the sequence space has room for another packet: false only
    /// after some 2^48 wraps of the 16-bit sequence number.
    pub fn has_room(&self) -> (r: bool)
        ensures
            r == self.sequence().has_room(),
    {
        self.sequence.has_room_for_wrap()
    }

    /// Returns the packet with its payload encrypted, or `None` if it is not a
    /// packet produced here and so has no header to authenticate.
    ///
    /// What comes back opens, under the same key and from the sequence state
    /// this call started in, to exactly the packet that went in.
    pub fn seal(&mut self, datagram: &[u8]) -> (r: Option<Vec<u8>>)
        requires
            old(self).sequence().has_room(),
        ensures
            final(self).key() == old(self).key(),
            match r {
                Some(p) => sealed_spec(old(self).key(), old(self).sequence(), datagram@) == Some(
                    p@,
                ),
                None => sealed_spec(old(self).key(), old(self).sequence(), datagram@) is None,
            },
            datagram@.len() < rtp::HEADER_LEN ==> final(self).sequence() == old(self).sequence(),
            datagram@.len() >= rtp::HEADER_LEN ==> {
                &&& final(self).sequence().started()
                &&& final(self).sequence().position() == advanced(old(self).sequence(), datagram@)
                &&& final(self).sequence().cycles() <= old(self).sequence().cycles() + 1
            },
            aead_accepts(body_of(datagram@).len()) && datagram@.len() >= rtp::HEADER_LEN ==> r is Some,
            r matches Some(p) ==> p@.len() == datagram@.len() + TAG_LEN,
            r matches Some(p) ==> opened_spec(old(self).key(), old(self).sequence(), p@) == Some(
                datagram@,
            ),
            r matches Some(p) ==> advanced(old(self).sequence(), p@) == advanced(
                old(self).sequence(),
                datagram@,
            ),
    {
        let (header, body) = match split_header(datagram) {
            Some(parts) => parts,
            None => {
                return None;
            },
        };
        let sequence = sequence_of(header);
        let extended = self.sequence.extend(sequence);
        let nonce = nonce(ssrc_of(header), extended);
        let sealed = match aead_encrypt(&self.key.0, nonce.as_slice(), header, body) {
            Some(sealed) => sealed,
            None => {
                return None;
            },
        };

        let mut out: Vec<u8> = Vec::new();
        extend_from(&mut out, header);
        extend_from(&mut out, sealed.as_slice());
        proof {
            let p = out@;
            assert(header_of(p) =~= header@);
            assert(body_of(p) =~= sealed@);
            assert(header_of(datagram@) + body_of(datagram@) =~= datagram@);
        }
        Some(out)
    }
}

/// Decrypts incoming packets. Lives wherever datagrams are read.
pub struct Opener {
    key: Key,
    sequence: SequenceExtender,
}

impl Opener {
    pub closed spec fn key(self) -> Seq<u8> {
        self.key.bytes()
    }

    pub closed spec fn sequence(self) -> SequenceExtender {
        self.sequence
    }

    pub fn new(key: &Key) -> (o: Self)
        ensures
            o.key() == key.bytes(),
            o.sequence() == SequenceExtender::fresh(),
            !o.sequence().started(),
            o.sequence().position() == 0,
            o.sequence().has_room(),
    {
        Self { key: Key(key.0), sequence: SequenceExtender::default() }
    }

    /// Whether the sequence space has room for another packet: false only
    /// after some 2^48 wraps of the 16-bit sequence number.
    pub fn has_room(&self) -> (r: bool)
        ensures
            r == self.sequence().has_room(),
    {
        self.sequence.has_room_for_wrap()
    }

    /// Returns the plaintext packet, or `None` if it does not authenticate.
    ///
    /// A packet that fails is dropped rather than reported: to the jitter
    /// buffer a forged or corrupted packet is indistinguishable from one that
    /// never arrived, and it is already equipped to conceal that. The rollover
    /// counter only advances once a packet authenticates, so a forged
    /// sequence number cannot walk the nonce away from the sender's.
    pub fn open(&mut self, datagram: &[u8]) -> (r: Option<Vec<u8>>)
        requires
            old(self).sequence().has_room(),
        ensures
            final(self).key() == old(self).key(),
            match r {
                Some(p) => opened_spec(old(self).key(), old(self).sequence(), datagram@) == Some(
                    p@,
                ),
                None => opened_spec(old(self).key(), old(self).sequence(), datagram@) is None,
            },
            r is None ==> final(self).sequence() == old(self).sequence(),
            r is Some ==> {
                &&& final(self).sequence().started()
                &&& final(self).sequence().position() == advanced(old(self).sequence(), datagram@)
                &&& final(self).sequence().cycles() <= old(self).sequence().cycles() + 1
            },
    {
        let (header, body) = match split_header(datagram) {
            Some(parts) => parts,
            None => {
                return None;
            },
        };
        let sequence = sequence_of(header);
        let extended = self.sequence.peek(sequence);
        let nonce = nonce(ssrc_of(header), extended);
        let opened = match aead_decrypt(&self.key.0, nonce.as_slice(), header, body) {
            Some(opened) => opened,
            None => {
                return None;
            },
        };
        self.sequence.commit(sequence);

        let mut out: Vec<u8> = Vec::new();
        extend_from(&mut out, header);
        extend_from(&mut out, opened.as_slice());
        Some(out)
    }
}

} // verus!
