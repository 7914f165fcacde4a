# secs_transport

The SECS-I (SEMI E4) transport, verified with Verus.

- `src/transport/secs1/block.rs`: block headers and their ten wire bytes, blocks,
  the checksum, the handshake codes.
- `src/transport/secs1/message.rs`: raw frames (ten header bytes and data) and their
  header fields.
- `src/transport/secs1/codec.rs`: the length / payload / checksum framing on a
  `BytesMut` (`src/transport/secs1/buffer.rs` holds the trusted `BytesMut` operations).
- `src/transport/secs1/link.rs`: the decisions of the block transfer protocol
  (ENQ/EOT line control, T2 retries, reception of a frame byte by byte, ACK/NAK).
- `src/transport/secs1/transport.rs`: assembly of received blocks into messages.
- `app/`: the serial line, tokio tasks and timers, the `tokio_util` codec traits and
  the `thiserror` error type, driving the verified decisions.
