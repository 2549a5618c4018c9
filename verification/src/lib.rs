//! Protocol types and the decisions of a desktop-audio streaming system:
//! RTP framing and sequence extension, the jitter buffer's per-frame
//! decisions, payload sealing keyed by the pairing token, the control
//! channel's line framing, handshake and keepalive, the registry of
//! receivers and the punch that reaches them, and the parsers and command
//! lines the sender and receiver are driven by.
//!
//! Nothing here touches sockets, threads, child processes, audio devices or
//! floating point: packets, command output and timestamps come in as
//! arguments, decisions go out as values.

pub mod advertise;
pub mod audiocapture;
pub mod bytes;
pub mod capture;
pub mod client;
pub mod command;
pub mod config;
pub mod control;
pub mod crypto;
pub mod dshow;
pub mod ids;
pub mod jitter;
pub mod lines;
pub mod net;
pub mod numbers;
pub mod pairing;
pub mod pipeline;
pub mod pipesource;
pub mod protocol;
pub mod receiver_cli;
pub mod registry;
pub mod relay;
pub mod rtp;
pub mod sdp;
pub mod sender_cli;
pub mod sink;
pub mod speakers;
pub mod text;
pub mod uplink;
