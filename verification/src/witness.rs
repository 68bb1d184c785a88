//! Witnesses, as the proof layer reads them: the commitments of the
//! intermediate states, the input sequence and the auxiliary values.

use vstd::prelude::*;

verus! {

/// One input of the witness: its payload and authorization nonce.
#[derive(Clone, Debug)]
pub struct WitnessInput {
    pub payload_type: String,
    pub data: Vec<u8>,
    pub nonce: u64,
}

/// Auxiliary computation values, by name, in ascending name order.
#[derive(Clone, Debug)]
pub struct AuxiliaryComputation {
    pub values: Vec<(String, Vec<u8>)>,
}

impl AuxiliaryComputation {
    /// No auxiliary values.
    pub fn empty() -> (a: AuxiliaryComputation)
        ensures
            a.values@.len() == 0,
    {
        AuxiliaryComputation { values: Vec::new() }
    }
}

/// A witness: commitments of the intermediate canonical states, the inputs,
/// and the auxiliary computation.
#[derive(Clone, Debug)]
pub struct Witness {
    pub intermediate_states: Vec<crate::types::Hash>,
    pub input_sequence: Vec<WitnessInput>,
    pub aux_computation: AuxiliaryComputation,
}

impl Witness {
    /// Whether the witness has nothing to prove.
    pub fn is_empty(&self) -> (b: bool)
        ensures
            b == (self.input_sequence@.len() == 0 && self.intermediate_states@.len() == 0
                && self.aux_computation.values@.len() == 0),
    {
        self.input_sequence.len() == 0 && self.intermediate_states.len() == 0
            && self.aux_computation.values.len() == 0
    }
}

} // verus!
