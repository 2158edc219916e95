# progressive_list

An SSZ `ProgressiveList` (EIP-7916): a list with no capacity bound whose wire
format is that of a plain list, so only its merkleization differs.

- `src/list.rs` — the list type, modelled as the sequence of its elements.
- `src/ssz_codec.rs` — SSZ encoding and decoding of lists of `u64`, with the
  round trip in both directions proved.
- `src/scale_codec.rs` — SCALE encoding and decoding, the compact length
  included, the length rules of fixed and bounded lists re-applied on decode,
  and the round trips proved.
- `src/merkle.rs` — what merkleizing a list writes to the progressive hasher,
  and the length mixed in above the spine's root.
- `src/le.rs` — little-endian bytes of a `u64`.
- `app/` — the outside traits (serde, `ssz`, `parity-scale-codec`, `tree_hash`)
  on a copy of the type, and the call into the progressive hasher.
