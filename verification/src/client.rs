//! The receiver's decisions around the pipeline: what it is configured with,
//! what its punch says, which packets the loss simulation drops, and how much
//! audio it asks for at a time.
//!
//! Sockets, threads and the audio device belong to the program; time comes in
//! as microseconds.

use vstd::prelude::*;

use crate::config;
use crate::pipeline::Latency;
use crate::protocol::{ServerMessage, StreamParams};
use crate::text::push_str;

verus! {

pub struct Config {
    pub host: String,
    pub control_port: u16,
    pub token: String,
    pub name: String,
    /// Drops this share of received packets, in percent, to exercise
    /// concealment against a real sender.
    pub simulate_loss: u32,
    pub latency: Latency,
}

/// The datagram that tells the sender where this receiver's media goes: the
/// punch prefix and the session the sender handed out.
pub fn punch_datagram(session: &str) -> (r: Vec<u8>)
    ensures
        r@ == punch_spec(session@),
{
    let mut text = config::PUNCH_PREFIX.to_owned();
    push_str(&mut text, session);
    crate::bytes::to_vec(text.as_str().as_bytes())
}

/// Where the client side of the handshake stands: it has said hello and
/// waits for the sender to accept it, or it has sent its punch and waits for
/// the sender to confirm the media path, or the session is up.
#[derive(PartialEq, Eq, Structural, Debug, Clone, Copy)]
pub enum HandshakeState {
    AwaitingAccept,
    AwaitingReady,
    Done,
}

/// What the client does after a reply.
#[derive(Debug)]
pub enum HandshakeAction {
    /// Send `datagram` to the sender's `media_port` from the socket media
    /// will arrive on, and play the stream `stream` describes.
    SendPunch { datagram: Vec<u8>, media_port: u16, stream: StreamParams },
    /// The session is up.
    Finish,
}

/// Why the handshake failed.
#[derive(Debug)]
pub enum HandshakeError {
    /// The sender refused the hello, giving this reason.
    Rejected(String),
    /// A reply that does not belong in the state the handshake was in.
    Unexpected { state: HandshakeState, got: ServerMessage },
}

/// The datagram a punch for `session` carries.
pub open spec fn punch_spec(session: Seq<char>) -> Seq<u8> {
    vstd::utf8::encode_utf8(config::PUNCH_PREFIX@ + session)
}

/// One step of the client's handshake: the reply the sender gave in `state`
/// decides what happens next. After the hello only an acceptance goes on,
/// to the punch; a refusal is reported with its reason. After the punch only
/// the sender's ready finishes it. Any other reply ends the handshake.
pub fn handshake_step(state: HandshakeState, reply: ServerMessage) -> (r: Result<
    (HandshakeState, HandshakeAction),
    HandshakeError,
>)
    ensures
        (state == HandshakeState::AwaitingAccept && reply is Accept) ==> (r matches Ok(
            (HandshakeState::AwaitingReady, HandshakeAction::SendPunch { datagram, media_port, stream }),
        ) && datagram@ == punch_spec(reply->session@) && media_port == reply->media_port && stream
            == reply->stream),
        (state == HandshakeState::AwaitingAccept && reply is Error) ==> (r matches Err(
            HandshakeError::Rejected(reason),
        ) && reason@ == reply->reason@),
        (state == HandshakeState::AwaitingReady && reply is Ready) ==> r matches Ok(
            (HandshakeState::Done, HandshakeAction::Finish),
        ),
        !((state == HandshakeState::AwaitingAccept && (reply is Accept || reply is Error)) || (state
            == HandshakeState::AwaitingReady && reply is Ready)) ==> (r matches Err(
            HandshakeError::Unexpected { state: s, got },
        ) && s == state && got == reply),
{
    match state {
        HandshakeState::AwaitingAccept => match reply {
            ServerMessage::Accept { session, media_port, stream } => {
                let datagram = punch_datagram(session.as_str());
                Ok((HandshakeState::AwaitingReady, HandshakeAction::SendPunch { datagram, media_port, stream }))
            },
            ServerMessage::Error { reason } => Err(HandshakeError::Rejected(reason)),
            other => Err(HandshakeError::Unexpected { state, got: other }),
        },
        HandshakeState::AwaitingReady => match reply {
            ServerMessage::Ready => Ok((HandshakeState::Done, HandshakeAction::Finish)),
            other => Err(HandshakeError::Unexpected { state, got: other }),
        },
        HandshakeState::Done => Err(HandshakeError::Unexpected { state, got: reply }),
    }
}

/// One step of the xorshift generator that decides simulated losses.
pub open spec fn xorshift(x: u64) -> u64 {
    let a = x ^ (x << 13u64);
    let b = a ^ (a >> 7u64);
    b ^ (b << 17u64)
}

/// Independent random loss, not every Nth packet: periodic dropping never
/// produces the consecutive runs that are the hard case for a jitter buffer.
pub struct LossSimulator {
    pub state: u64,
    /// Percent of packets dropped.
    pub percent: u32,
}

pub const LOSS_SEED: u64 = 0x2545_f491_4f6c_dd1d;

impl LossSimulator {
    pub fn new(percent: u32) -> (s: Self)
        ensures
            s.state == LOSS_SEED,
            s.percent == percent,
    {
        LossSimulator { state: LOSS_SEED, percent }
    }

    /// Whether the packet just received is to be dropped.
    pub fn drops_next(&mut self) -> (r: bool)
        ensures
            final(self).state == xorshift(old(self).state),
            final(self).percent == old(self).percent,
            r == (old(self).percent > 0 && xorshift(old(self).state) % 100 < old(self).percent),
    {
        let mut x = self.state;
        x ^= x << 13;
        x ^= x >> 7;
        x ^= x << 17;
        self.state = x;
        self.percent > 0 && x % 100 < self.percent as u64
    }
}

/// Interleaved samples in one frame of the stream.
pub open spec fn chunk_len_spec(params: StreamParams) -> int {
    (params.rate / 1000 * params.ptime_ms) as int * params.channels as int
}

pub fn chunk_len(params: &StreamParams) -> (n: usize)
    requires
        (params.rate / 1000) * params.ptime_ms <= u32::MAX,
        chunk_len_spec(*params) <= usize::MAX,
    ensures
        n == chunk_len_spec(*params),
{
    (params.rate / 1000 * params.ptime_ms) as usize * params.channels as usize
}

/// Whether a run limited to `run_for_secs` is over, `elapsed_us` after it
/// started.
pub fn past_deadline(run_for_secs: Option<u64>, elapsed_us: u64) -> (r: bool)
    ensures
        r == (run_for_secs matches Some(s) && elapsed_us >= s * 1_000_000),
{
    match run_for_secs {
        Some(s) => (elapsed_us as u128) >= (s as u128) * 1_000_000,
        None => false,
    }
}

/// The one-way offset between the sender's clock and this one, assuming a
/// symmetric path. Not used for playback yet; it is what A/V sync with the
/// desktop will need.
pub fn clock_offset(sent_us: u64, received_us: u64) -> (offset: i64)
    requires
        sent_us <= i64::MAX,
        received_us <= i64::MAX,
    ensures
        offset == received_us - sent_us,
{
    received_us as i64 - sent_us as i64
}

} // verus!
