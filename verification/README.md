# ombrac-mux

Many streams over one byte transport, with flow control, pings and half-closed
streams. The protocol is a verified Verus library; nothing in it waits or does
input or output.

- `src/wire.rs`, `src/frame.rs`, `src/basic.rs`: frames and their bytes.
- `src/stream/`: windows, the state of a stream, the streams of a connection,
  reading and writing.
- `src/connection.rs`: what a frame of the peer means, pings, opening streams.
- `src/laws.rs`: what holds of the multiplexer as a whole.
- `src/error.rs`: failures, their classes and messages.
- `src/buffer.rs`, `src/channel.rs`: what is believed of the `bytes` and
  `tokio` crates.
- `app/`: asynchronous connections and streams on `tokio`, around the library.
- `tests/`: the library at work on concrete values.
