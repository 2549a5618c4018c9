//! The sender's side of the TCP control channel: whether a hello is let in,
//! what the receiver is told, and when a quiet session is pinged or given up.
//!
//! Sockets, threads and JSON belong to the program; time comes in as
//! microseconds on a monotonic clock.

use vstd::prelude::*;

use crate::config;
use crate::ids::tokens_match;
use crate::protocol::{
    lemma_normalized_concat, lemma_separators_are_ignored, normalize_token, normalized, ServerMessage,
    StreamParams,
};
use crate::text::{hex_lower_fixed, push_hex_lower_fixed};

verus! {

/// Why a hello is refused.
#[derive(PartialEq, Eq, Structural, Debug, Clone, Copy)]
pub enum Rejection {
    /// The first message was something other than a hello.
    ExpectedHello,
    UnsupportedVersion,
    InvalidToken,
}

impl Rejection {
    /// The reason sent back to the receiver.
    pub fn reason(&self) -> (r: &'static str)
        ensures
            r@ == reason_text(*self),
    {
        match self {
            Rejection::ExpectedHello => "expected hello",
            Rejection::UnsupportedVersion => "unsupported protocol version",
            Rejection::InvalidToken => "invalid pairing token",
        }
    }
}

pub open spec fn reason_text(r: Rejection) -> Seq<char> {
    match r {
        Rejection::ExpectedHello => "expected hello"@,
        Rejection::UnsupportedVersion => "unsupported protocol version"@,
        Rejection::InvalidToken => "invalid pairing token"@,
    }
}

/// A hello is let in when it speaks this protocol version and carries the
/// session's pairing token, however it was typed.
pub open spec fn hello_verdict(ver: u16, token: Seq<char>, expected: Seq<char>) -> Result<(), Rejection> {
    if ver != config::PROTOCOL_VERSION {
        Err(Rejection::UnsupportedVersion)
    } else if normalized(token) != normalized(expected) {
        Err(Rejection::InvalidToken)
    } else {
        Ok(())
    }
}

pub fn check_hello(ver: u16, token: &str, expected: &str) -> (r: Result<(), Rejection>)
    ensures
        r == hello_verdict(ver, token@, expected@),
{
    if ver != config::PROTOCOL_VERSION {
        return Err(Rejection::UnsupportedVersion);
    }
    let typed = normalize_token(token);
    let wanted = normalize_token(expected);
    if !tokens_match(typed.as_str(), wanted.as_str()) {
        return Err(Rejection::InvalidToken);
    }
    Ok(())
}

/// The session id as the receiver is told it: sixteen lower-case hex digits.
pub fn session_text(id: u64) -> (r: String)
    ensures
        r@ == hex_lower_fixed(id as nat, 16),
{
    let mut s = String::new();
    push_hex_lower_fixed(&mut s, id, 16);
    s
}

/// The reply that lets a receiver in: its session, where to punch, and the
/// stream it will get.
pub fn accept(id: u64, media_port: u16, stream: &StreamParams) -> (m: ServerMessage)
    ensures
        m matches ServerMessage::Accept { session, media_port: port, stream: s } && session@
            == hex_lower_fixed(id as nat, 16) && port == media_port && s.codec@ == stream.codec@
            && s.rate == stream.rate && s.channels == stream.channels && s.ptime_ms
            == stream.ptime_ms && s.payload_type == stream.payload_type && s.ssrc == stream.ssrc
            && s.fec == stream.fec,
{
    let s = StreamParams {
        codec: stream.codec.clone(),
        rate: stream.rate,
        channels: stream.channels,
        ptime_ms: stream.ptime_ms,
        payload_type: stream.payload_type,
        ssrc: stream.ssrc,
        fec: stream.fec,
    };
    ServerMessage::Accept { session: session_text(id), media_port, stream: s }
}

/// The reply that turns a receiver away.
pub fn reject(rejection: Rejection) -> (m: ServerMessage)
    ensures
        m matches ServerMessage::Error { reason } && reason@ == reason_text(rejection),
{
    ServerMessage::Error { reason: rejection.reason().to_owned() }
}

pub const PING_INTERVAL_US: u64 = 2_000_000;

pub const SESSION_TIMEOUT_US: u64 = 10_000_000;

/// What a session's loop does after each read.
#[derive(PartialEq, Eq, Structural, Debug, Clone, Copy)]
pub enum KeepaliveAction {
    Wait,
    /// Send a ping stamped with the wall-clock time.
    Ping,
    /// The receiver has been silent too long: end the session.
    TimedOut,
}

/// When a session last heard from its receiver and last pinged it.
pub struct Keepalive {
    pub last_seen_us: u64,
    pub last_ping_us: u64,
}

pub open spec fn since(now_us: u64, then_us: u64) -> int {
    if now_us >= then_us {
        now_us - then_us
    } else {
        0
    }
}

impl Keepalive {
    pub fn new(now_us: u64) -> (k: Self)
        ensures
            k.last_seen_us == now_us,
            k.last_ping_us == now_us,
    {
        Keepalive { last_seen_us: now_us, last_ping_us: now_us }
    }

    /// A message arrived.
    pub fn heard(&mut self, now_us: u64)
        ensures
            final(self).last_seen_us == now_us,
            final(self).last_ping_us == old(self).last_ping_us,
    {
        self.last_seen_us = now_us;
    }

    /// Decides, after a read, whether to give up on the receiver or ping it.
    pub fn tick(&mut self, now_us: u64) -> (a: KeepaliveAction)
        ensures
            since(now_us, old(self).last_seen_us) > config::SESSION_TIMEOUT_SECS * 1_000_000
                ==> a == KeepaliveAction::TimedOut,
            since(now_us, old(self).last_seen_us) <= config::SESSION_TIMEOUT_SECS * 1_000_000 ==> {
                if since(now_us, old(self).last_ping_us) >= config::PING_INTERVAL_SECS * 1_000_000 {
                    &&& a == KeepaliveAction::Ping
                    &&& final(self).last_ping_us == now_us
                } else {
                    &&& a == KeepaliveAction::Wait
                    &&& final(self).last_ping_us == old(self).last_ping_us
                }
            },
            final(self).last_seen_us == old(self).last_seen_us,
            a == KeepaliveAction::TimedOut ==> final(self).last_ping_us == old(self).last_ping_us,
    {
        let silent = now_us.saturating_sub(self.last_seen_us);
        if silent > SESSION_TIMEOUT_US {
            return KeepaliveAction::TimedOut;
        }
        if now_us.saturating_sub(self.last_ping_us) >= PING_INTERVAL_US {
            self.last_ping_us = now_us;
            return KeepaliveAction::Ping;
        }
        KeepaliveAction::Wait
    }
}

/// The token as the sender shows it for reading aloud, in dashed groups of
/// four, authenticates exactly as the bare token does.
pub proof fn lemma_grouped_token_authenticates(token: Seq<char>)
    ensures
        normalized(crate::ids::grouped_chars(token)) == normalized(token),
    decreases token.len(),
{
    if token.len() > 4 {
        let head = token.take(4);
        let rest = token.skip(4);
        lemma_grouped_token_authenticates(rest);
        let dash = seq!['-'];
        assert(normalized(dash) == Seq::<char>::empty()) by {
            assert(dash.len() == 1);
            assert(dash.last() == '-');
            assert(!crate::text::is_ascii_alphanumeric('-'));
            assert(dash.drop_last() =~= Seq::<char>::empty());
            assert(normalized(Seq::<char>::empty()) == Seq::<char>::empty());
        }
        lemma_separators_are_ignored(head, dash, crate::ids::grouped_chars(rest));
        lemma_normalized_concat(head, crate::ids::grouped_chars(rest));
        lemma_normalized_concat(head, rest);
        assert(head + rest =~= token);
    }
}

/// A receiver that types the token as the sender displays it is let in.
pub proof fn lemma_displayed_token_is_let_in(token: Seq<char>)
    ensures
        hello_verdict(config::PROTOCOL_VERSION, crate::ids::grouped_chars(token), token) == Ok::<
            (),
            Rejection,
        >(()),
{
    lemma_grouped_token_authenticates(token);
}

} // verus!
