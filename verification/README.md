# kdtv

Wire codecs, transmit gate and safety kernel for a replacement controller of
the Kohler DTV+ shower system, written in Verus: every function in `src/`
carries a contract and is proved against it.

## Layout

- `src/saturn/` — the Saturn valve bus: framing and checksum, control bytes,
  fault codes, outlet tables, timing, the allowlisting encoder and the
  resynchronising decoder.
- `src/dtv/` — the DTV+ steam link: byte stuffing, opcodes, device addresses,
  the steam parameter block, the encoder and the decoder.
- `src/fixtures.rs` — the evidence base of recorded frames, its ordering and
  its SHA-256 pin.
- `src/gate.rs` — the transmit gate: which scope an encoder may be built for.
- `src/safety/` — sessions, per-zone authority, events, grants, the kernel
  that authorises and stops water, and the RTD watch's decisions.
- `src/time.rs`, `src/units.rs` — durations, instants and clamped units.
- `app/` — JSON configuration and fixture files, readable error text, and the
  floating-point temperature conversion; none of it is verified.
- `tests/` — example-based and generated-input tests of the library.

## Trust

The proofs rest on the contracts of a few calls into outside crates, each a
small wrapper marked `#[verifier::external_body]` with a doc comment saying
what it assumes: `heapless::Vec` for the receive buffers, frames and payloads,
`smallvec` for the kernel's effects and the RTD watch's events, `sha2` for the
fixture digest (named, not described), `hex` for hex text and `str::trim`.
`heapless::Vec`'s `Clone` is declared with no promise about its result.

The laws of the library — round trips, resynchronisation, checksum coverage,
what the kernel keeps and never does — are public `lemma_` proof functions
beside the code they speak of.
