# forge

Planning, packing and naming logic of a model merging and quantization
toolkit, verified with Verus.

- `src/` — the verified library: bit packing of quantized codes, GGUF
  layout and encoding, OneComp width planning, MergeKit configuration
  vocabulary, tensor-name rules (roles, layers, passthrough, MoE
  structure), slot planning for heterogeneous merges, cross-attention
  fusion plans, shard tables, KV-cache sizing and the Metal GEMV request
  checks. Every public function states its result in `ensures`; laws that
  relate several functions are public `proof fn`s.
- `tests/` — tests run against the compiled library.
- `app/` — the unverified host side: floating-point merge and quantization
  kernels, file and network I/O, serde forms of the configuration types,
  and the parallel merge driver, all calling into the library for their
  decisions.

Two calls are trusted rather than proved: `str::to_lowercase` (in
`text.rs`) and `regex::Regex` compilation and matching (in `fusion.rs`).
