# helix_db

The decisions of a graph database's search and storage layers, written in Rust
and verified with Verus: secondary-index rows and range scans, full-text hits,
the split cache, vector reads, configuration, and the evidence that a storage
migration kept every logical fact.

- `src/` is the library. Every function states what it returns, and Verus proves
  it. Public proof functions named `law_*` state what holds across functions.
- `tests/` runs the library on concrete values.
- `app/` connects it to object storage, local files and tasks.

Where the library rests on another crate, the item that calls it says what is
taken for granted: bitmaps (`src/bitmap.rs`), hashes (`src/digest.rs`), text
(`src/render.rs`, `src/config/warm_mode.rs`, `src/parity/snapshot.rs`) and the
storage engine's default cache sizes (`src/config/cache.rs`).
