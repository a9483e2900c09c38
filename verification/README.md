# keet

The logic of a terminal audio player, with contracts that Verus proves.

- `src/` decides: what the decoder does next, how the playlist is shuffled, sorted
  and searched, what a key means, what is remembered between sessions, and what
  every line of every screen holds. Samples never come here as numbers: only their
  bits pass, on their way into the ring.
- `app/` acts: it opens files, decodes and filters sound, talks to the device, the
  terminal and the network, and hands the library plain values.
- `tests/` runs the library.

Times are billionths of a second, gains thousandths of a decibel, frequencies
thousandths of a hertz. Paths are texts with slashes between their parts, and two
are one where their parts are. Each screen is described by a spec function that gives its
lines; `FrameWriter` counts them, so that the next frame starts where this one did.
Files named `*_laws.rs` hold what is true of several functions together.

What the proofs take for granted of other crates and of the standard library stands
in `ansi.rs`, `cover.rs`, `json.rs`, `ring.rs` and `text.rs`, each item with a
comment that says what it claims.
