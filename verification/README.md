# vsel_proof

The proof layer of VSEL, the Verifiable Semantic Execution Layer, written in
Verus: every function of the library carries a contract that Verus proves.

## Layout

- `src/` — the verified library.
  - `types`, `goldilocks`, `encoding`, `codec`, `text`, `words`: hashes,
    domain tags, observables, Goldilocks elements, little-endian and
    hexadecimal encodings, length-prefixed framing, and text handling.
  - `public_inputs`, `witness`, `constraints`, `prover`: the statement a
    proof binds (roots, observables, domain, version), witnesses, constraint
    systems, and the canonical commitment data and proof assembly.
  - `backend`, `hash_backend`: the backend interface and the SHA3 backend.
  - `plonky3_backend`, `plonky3_compose`, `plonky3_circuit`, `circuit`,
    `trace_gen`: the Plonky3 STARK backend's proof format, composition of
    proofs, circuit compilation, and execution traces.
  - `recursive_air`, `recursive`: the recursive verifier AIR's column layout
    and constraints, and recursive proof composition.
  - `cairo_stark`, `cairo_native`, `native_wrapper`, `native_identity`: the
    Cairo/STARK artifact format, pinned native adapters, and the native
    wrapper's request, attestation and certificate handling.
  - `replay`: the proof replay guard.
- `tests/` — tests of the library on concrete values.
- `app/` — the native Cairo/STARK wrapper program and the parts that need
  I/O or the Plonky3 types: command execution, configuration from the
  environment, the STARK configuration, and the AIR as a Plonky3 `Air`.

## Main properties proved

Serialization round trips (STARK proofs, Cairo artifacts, hash-backend
proofs, verifier certificates, native proof bundles), the well-formedness
of compiled circuits, the column layout of the recursive verifier AIR,
the statements of composed proofs, replay protection, and the shape of
generated traces.
