# corim

A verified library for CoRIM (Concise Reference Integrity Manifest) documents: CBOR
encoding and decoding, the CoRIM, CoMID and CoTL data types, signed (COSE_Sign1)
envelopes, builders, structural diagnostics, baseline comparison of whole documents and
of protected headers, and the Intel, PSA, CCA and Azure profile rules.

Every function in `src/` carries a contract. Verus proves each of them, except for a few
trusted items that it believes without proof: the wrappers of std calls (`String::from_utf8`,
`Debug` formatting of a string, `RandomState::new` and `BuildHasher::hash_one`), whose
contracts say only what std documents. Contracts are stated over
mathematical models: a CBOR data item is a `cbor::VModel`, and encoding and decoding are
given by the spec functions `cbor::enc` and `cbor::decode_spec`, with the law that
decoding what was encoded gives the item back. Round-trip laws for the data types, the
signed envelope and the builders are public proof functions next to the code they speak
of.

Layout:

- `src/cbor.rs` — data items, the byte-level encoding, the decoder.
- `src/types/` — CoRIM, CoMID, CoTL, triple and signed-envelope types.
- `src/builder.rs`, `src/builder/comid.rs` — builders of CoRIM, CoTL and CoMID tags.
- `src/diagnose.rs` — the issue report of an encoded document.
- `src/baseline.rs`, `src/baseline/document.rs` — conformance findings between two
  documents (profile, identifier, CoMIDs paired by tag id, their triples, measurements and
  measurement values) and between two protected headers.
- `src/profile/` — profile registry and profile-specific rules.
- `src/compat.rs` — legacy outer-wrapper handling.
- `app/` — the system clock, decimal rendering of binary64 operands, and error types with
  `Display`.
- `tests/` — tests run against the compiled library.
