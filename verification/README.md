# ART nodes, verified

The node layer of an adaptive radix tree: leaves, the four widths of inner
node (4, 16, 48 and 256 children) and the operations that add, find, and grow
children, with machine-checked contracts and proofs.

- `src/lib.rs` — the `ArtKey` trait (a key as a string of bytes), with
  implementations for `Vec<u8>` and `[u8; N]`.
- `src/nodes.rs` — the node types, the `ArtNodeTrait` operations and their
  contracts. Each inner node is specified as a partial map from bytes to
  children (`child` / `lookup`); `add_child` inserts into it, `grow_and_add`
  moves it into the next wider kind, and the lookups read it.
- `src/lemmas.rs` — facts about the first and last place of a byte in a
  sequence, used by the 4- and 16-wide nodes.
- `tests/` — executable tests.
