# webrtc_core

A verified core of a WebRTC media stack, written in Verus: the wire formats
(STUN, TURN, DTLS records and handshake messages, SCTP data-channel
messages, SFrame headers), the SDP model with its parser and printer, ICE
candidates and the agent's pairing, congestion control (AIMD, GCC, TWCC,
probing), the pacer, jitter and ring buffers, and the peer-connection
signaling state machine, DTLS record protection with AES-128-GCM, and the
per-packet decisions of an engine shard. Each public function carries a
contract. Laws that relate several functions are proof functions: the
round trips of the binary encodings (STUN, DTLS record headers,
certificates, data-channel messages, SFrame headers, video rotation,
transceiver directions), the offer/answer and rollback transitions, the
orderings of ICE priorities, the bounds of the rate controllers, and the
SDP round trip: a session read from text, printed and read again keeps
its version, name, timing and the fields of each media section
(`src/pc/sdp_roundtrip.rs`), and DTLS record protection: a record sealed
by one side opens to its plaintext at the other.

- `src/` — the verified library. Cryptography comes from `ring` and
  `aes-gcm`, payload buffers from `bytes`, through small trusted wrappers
  in `src/crypto.rs`, `src/datachannel.rs`, `src/pacer.rs` and
  `src/text.rs`.
- `tests/` — tests run against the compiled library.
- `app/` — what stays outside verification: thread affinity, callback
  dispatch, floating-point audio processing and statistics, codec plug-in
  registries, address conversions and error types with their messages.
