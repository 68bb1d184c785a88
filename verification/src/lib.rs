//! Proof-layer library: recursive verifier AIR layout, proof artifact
//! encodings, replay protection and composition rules.

pub mod recursive_air;
pub mod types;
pub mod text;
pub mod encoding;
pub mod public_inputs;
pub mod codec;
pub mod cairo_stark;
pub mod cairo_native;
pub mod goldilocks;
pub mod plonky3_backend;
pub mod backend;
pub mod circuit;
pub mod constraints;
pub mod witness;
pub mod plonky3_circuit;
pub mod prover;
pub mod replay;
pub mod hash_backend;
pub mod plonky3_compose;
pub mod trace_gen;
pub mod recursive;
pub mod words;
pub mod native_wrapper;
pub mod native_identity;
