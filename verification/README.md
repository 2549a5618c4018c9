# ausha

Desktop audio streamed to receivers on the local network: the sender captures
what the desktop plays with ffmpeg, encodes it as Opus over RTP, and fans each
packet out to every receiver that paired with it; a receiver buffers, decodes
and plays it.

`src/` is the library, written in Verus and proved against its contracts:
RTP framing and sequence extension, the jitter buffer's per-frame decisions,
payload sealing keyed by the pairing token, the control channel's line
framing and handshake decisions, the session registry, the punch that tells
the sender where a receiver is, and the parsers and command lines around
them. Packets, command output and time come in as arguments; decisions go out
as values.

`app/` is the program around it: sockets, threads, child processes, mDNS,
the JSON on the control channel, and the floating-point audio path (Opus
decoding, drift correction, resampling). Run as `ausha` it sends; run as
`ausha-recv`, or as `ausha recv`, it receives.

`tests/` exercises the library through its public interface.
