# rctpower_protocol

The RCT Power serial protocol (inverter port 8899) as a Verus-verified
library: building frames, parsing received bytes into frames, CRC16 and the
encoding and decoding of values.

## Layout

- `src/` — the verified library.
  - `types.rs`: commands, object groups, data types, frame types, values.
  - `codec.rs`: CRC16, value encoding/decoding, `encode_for`.
  - `float_bits.rs`: integer/float conversions on IEEE-754 bit patterns
    (the semantics of Rust's `as` casts), used by `encode_for`.
  - `frame.rs`: `make_frame` and the incremental parser `ReceiveFrame`,
    specified by a byte-by-byte model (`rx_step`, `rx_run`).
  - `frame_laws.rs`: what the parser gives back of frames built by
    `make_frame` (with or without leading garbage) and of plant frames, how
    it counts bytes, how a frame completes and stays complete, and
    properties of the escaping.
  - `registry.rs`, `proxy.rs`: object descriptions, the description of
    forwarded frames and its one-line text, and the cutting of a byte
    stream into frames.
  - `client.rs`: connection settings and the write-and-verify policy (an
    answer to a write is taken only when it holds the written value).
  - `writable.rs`: reading values for writable parameters from text, and
    the checks a value gets before its range.
- `app/` — the TCP clients (blocking and tokio), the multiplexing proxy, the
  write-side validation rules and the reading of decimal fractions (floating
  point), and text renderings.
- `tests/` — tests of the library.

Float values travel inside the library as their 32-bit patterns
(`DataValue::F32(bits)`); `app/` converts with `f32::from_bits`.
