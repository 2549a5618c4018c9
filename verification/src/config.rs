//! Stream and protocol constants shared by the control channel and the media path.

use vstd::prelude::*;

verus! {

pub const PROTOCOL_VERSION: u16 = 1;

pub const DEFAULT_CONTROL_PORT: u16 = 6996;

pub const DEFAULT_MEDIA_PORT: u16 = 6997;

pub const DEFAULT_BITRATE_KBPS: u32 = 128;

pub const SAMPLE_RATE: u32 = 48000;

pub const CHANNELS: u8 = 2;

pub const FRAME_MS: u32 = 20;

pub const RTP_PAYLOAD_TYPE: u8 = 96;

pub const EXPECTED_LOSS_PERCENT: u32 = 5;

/// How often the sender pings a receiver, in seconds.
pub const PING_INTERVAL_SECS: u64 = 2;

/// Silence after which a session is considered gone, in seconds.
pub const SESSION_TIMEOUT_SECS: u64 = 10;

/// How long the handshake waits for the UDP punch, in seconds.
pub const PUNCH_TIMEOUT_SECS: u64 = 10;

pub const MAX_DATAGRAM: usize = 2048;

pub const PUNCH_PREFIX: &'static str = "AUSHA/1 ";

/// Four frames. The buffer sits at this depth while playing, so it rides out
/// three consecutive losses; at 10% independent loss a longer run is rare.
pub const JITTER_MIN_MS: u32 = 80;

pub const JITTER_MAX_MS: u32 = 200;

} // verus!
