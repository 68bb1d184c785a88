//! Public inputs of a proof: the externally visible statement
//! `(root_init, root_final, observables, domain, version)`.

use vstd::prelude::*;

use crate::types::{
    observables_equal, observables_view, DomainTag, Observable, ObservableModel, ProtocolVersion,
};

verus! {

/// Public inputs of the proof system.
#[derive(Clone, Debug, PartialEq, Eq)]
pub struct PublicInputs {
    /// Commitment of the initial canonical state.
    pub root_init: crate::types::Hash,
    /// Commitment of the final canonical state.
    pub root_final: crate::types::Hash,
    /// All observables of the execution trace, in order.
    pub observables: Vec<Observable>,
    /// Domain separation tag of the proof context.
    pub domain: DomainTag,
    /// Protocol version of the execution.
    pub version: ProtocolVersion,
}

/// Abstract value of public inputs.
pub struct PublicInputsModel {
    pub root_init: Seq<u8>,
    pub root_final: Seq<u8>,
    pub observables: Seq<ObservableModel>,
    pub domain: Seq<u8>,
    pub version: ProtocolVersion,
}

impl View for PublicInputs {
    type V = PublicInputsModel;

    open spec fn view(&self) -> PublicInputsModel {
        PublicInputsModel {
            root_init: self.root_init@,
            root_final: self.root_final@,
            observables: observables_view(self.observables@),
            domain: self.domain@,
            version: self.version,
        }
    }
}

/// One step of an execution trace, as far as the public inputs read it.
pub struct TraceEntry {
    /// Commitment of the state after the step.
    pub post_state_commitment: crate::types::Hash,
    /// Observable produced by the step.
    pub observable: Observable,
}

/// An execution trace, as far as the public inputs read it: the commitment
/// of the initial canonical state, its execution domain and protocol
/// version, and the entries in order.
pub struct Trace {
    pub initial_state_commitment: crate::types::Hash,
    pub execution_domain: DomainTag,
    pub protocol_version: ProtocolVersion,
    pub entries: Vec<TraceEntry>,
}

impl Trace {
    /// Commitment of the final state: that of the last entry, or the
    /// initial commitment for an empty trace.
    pub open spec fn final_commitment(&self) -> Seq<u8> {
        if self.entries@.len() == 0 {
            self.initial_state_commitment@
        } else {
            self.entries@.last().post_state_commitment@
        }
    }

    /// Observables of the entries, in order.
    pub open spec fn observables(&self) -> Seq<ObservableModel> {
        self.entries@.map_values(|e: TraceEntry| e.observable@)
    }

    /// The public inputs that the trace determines.
    pub open spec fn public_inputs_spec(&self) -> PublicInputsModel {
        PublicInputsModel {
            root_init: self.initial_state_commitment@,
            root_final: self.final_commitment(),
            observables: self.observables(),
            domain: self.execution_domain@,
            version: self.protocol_version,
        }
    }
}

impl PublicInputs {
    /// Extracts the public inputs of a trace.
    pub fn from_trace(trace: &Trace) -> (p: PublicInputs)
        ensures
            p@ == trace.public_inputs_spec(),
    {
        let root_init = trace.initial_state_commitment;
        let root_final = if trace.entries.len() > 0 {
            trace.entries[trace.entries.len() - 1].post_state_commitment
        } else {
            root_init
        };
        let mut observables: Vec<Observable> = Vec::new();
        let mut i: usize = 0;
        while i < trace.entries.len()
            invariant
                i <= trace.entries.len(),
                observables@.len() == i,
                forall|k: int| 0 <= k < i ==> observables@[k]@ == trace.entries@[k].observable@,
            decreases trace.entries.len() - i,
        {
            observables.push(trace.entries[i].observable.duplicate());
            i += 1;
        }
        let p = PublicInputs {
            root_init,
            root_final,
            observables,
            domain: trace.execution_domain,
            version: trace.protocol_version,
        };
        assert(p@.observables =~= trace.observables());
        p
    }

    /// Observable binding: the given observables are exactly the public
    /// observables, in order.
    pub fn verify_observable_binding(&self, observables: &[Observable]) -> (b: bool)
        ensures
            b == (observables_view(observables@) == self@.observables),
    {
        observables_equal(observables, self.observables.as_slice())
    }

    /// Whether these public inputs are the ones the trace determines.
    pub fn matches_trace(&self, trace: &Trace) -> (b: bool)
        ensures
            b == (self@ == trace.public_inputs_spec()),
    {
        if !self.root_init.eq_hash(&trace.initial_state_commitment) {
            return false;
        }
        let expected_final = if trace.entries.len() > 0 {
            trace.entries[trace.entries.len() - 1].post_state_commitment
        } else {
            trace.initial_state_commitment
        };
        if !self.root_final.eq_hash(&expected_final) {
            return false;
        }
        if self.observables.len() != trace.entries.len() {
            proof {
                if self@ == trace.public_inputs_spec() {
                    assert(self@.observables.len() == trace.observables().len());
                }
            }
            return false;
        }
        let mut i: usize = 0;
        while i < self.observables.len()
            invariant
                i <= self.observables.len(),
                self.observables.len() == trace.entries.len(),
                forall|k: int| 0 <= k < i ==> self.observables@[k]@ == trace.entries@[k].observable@,
            decreases self.observables.len() - i,
        {
            if !self.observables[i].eq_observable(&trace.entries[i].observable) {
                proof {
                    if self@ == trace.public_inputs_spec() {
                        assert(self@.observables[i as int] == trace.observables()[i as int]);
                    }
                }
                return false;
            }
            i += 1;
        }
        assert(self@.observables =~= trace.observables());
        if !self.domain.eq_tag(&trace.execution_domain) {
            return false;
        }
        if self.version != trace.protocol_version {
            return false;
        }
        true
    }
}

} // verus!
