# rust_jaccard

Byte-level Jaccard similarity between binary files, verified with Verus.

Each binary is reduced to three sets of 64-bit hashes: the SHA-256-derived hashes of its
aligned 4-, 16- and 8-byte chunks. Two binaries are compared set by set with the Jaccard
coefficient |A ∩ B| / |A ∪ B|, kept as an exact fraction.

Layout:

- `src/digest.rs` — the SHA-256 call (the one trusted item) and the 64-bit chunk hash.
- `src/features.rs` — chunking and feature extraction.
- `src/jaccard.rs` — the coefficient, per-binary comparison, and its laws.
- `src/pairwise.rs` — reference and pairwise comparison runs, pair keys.
- `src/limits.rs` — pairwise input limits and their messages.
- `src/filetype.rs` — which files count as binaries (extension, then magic number).
- `app/` — the command-line program: directory walking, file reading, parallel loading,
  floating-point weighting of the exact coefficients, and Parquet export.
