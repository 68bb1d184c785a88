//! Core values that proofs bind to: hashes, domain tags, protocol versions
//! and the observables of an execution.

use vstd::prelude::*;

verus! {

/// A 32-byte commitment.
#[derive(Clone, Copy, Debug, PartialEq, Eq, PartialOrd, Ord)]
pub struct Hash(pub [u8; 32]);

impl View for Hash {
    type V = Seq<u8>;

    open spec fn view(&self) -> Seq<u8> {
        self.0@
    }
}

/// The all-zero 32-byte sequence.
pub open spec fn zero_hash_bytes() -> Seq<u8> {
    Seq::new(32, |i: int| 0u8)
}

/// Byte-wise equality of two byte slices.
pub fn bytes_equal(a: &[u8], b: &[u8]) -> (eq: bool)
    ensures
        eq == (a@ == b@),
{
    if a.len() != b.len() {
        return false;
    }
    let mut i: usize = 0;
    while i < a.len()
        invariant
            i <= a.len(),
            a@.len() == b@.len(),
            forall|k: int| 0 <= k < i ==> a@[k] == b@[k],
        decreases a.len() - i,
    {
        if a[i] != b[i] {
            return false;
        }
        i += 1;
    }
    assert(a@ =~= b@);
    true
}

impl Hash {
    /// Whether the two hashes hold the same bytes.
    pub fn eq_hash(&self, other: &Hash) -> (eq: bool)
        ensures
            eq == (self@ == other@),
    {
        bytes_equal(self.0.as_slice(), other.0.as_slice())
    }

    /// Whether every byte of the hash is zero.
    pub fn is_zero(&self) -> (z: bool)
        ensures
            z == (self@ == zero_hash_bytes()),
    {
        let mut i: usize = 0;
        while i < 32
            invariant
                i <= 32,
                self@.len() == 32,
                forall|k: int| 0 <= k < i ==> self@[k] == 0u8,
            decreases 32 - i,
        {
            if self.0[i] != 0 {
                return false;
            }
            i += 1;
        }
        assert(self@ =~= zero_hash_bytes());
        true
    }
}

/// Domain separation tag.
#[derive(Clone, Copy, Debug, PartialEq, Eq)]
pub struct DomainTag(pub Hash);

impl View for DomainTag {
    type V = Seq<u8>;

    open spec fn view(&self) -> Seq<u8> {
        self.0@
    }
}

impl DomainTag {
    /// Whether the two tags hold the same bytes.
    pub fn eq_tag(&self, other: &DomainTag) -> (eq: bool)
        ensures
            eq == (self@ == other@),
    {
        self.0.eq_hash(&other.0)
    }
}

/// Protocol version under which an execution was performed.
#[derive(Clone, Copy, Debug, PartialEq, Eq, Structural)]
pub struct ProtocolVersion {
    pub major: u32,
    pub minor: u32,
    pub patch: u32,
}

/// Class of a state transition.
#[derive(Clone, Copy, Debug, PartialEq, Eq, Structural)]
pub enum TransitionClass {
    Reject,
    Init,
    Error,
    Batch,
    Update,
    Noop,
}

/// Outcome of a state transition.
#[derive(Clone, Copy, Debug, PartialEq, Eq, Structural)]
pub enum TransitionStatus {
    Success,
    Rejected,
    Error,
}

/// Byte tag of a transition class in commitments.
pub open spec fn transition_class_tag_spec(class: TransitionClass) -> u8 {
    match class {
        TransitionClass::Reject => 0,
        TransitionClass::Init => 1,
        TransitionClass::Error => 2,
        TransitionClass::Batch => 3,
        TransitionClass::Update => 4,
        TransitionClass::Noop => 5,
    }
}

/// Byte tag of a transition status in commitments.
pub open spec fn transition_status_tag_spec(status: TransitionStatus) -> u8 {
    match status {
        TransitionStatus::Success => 0,
        TransitionStatus::Rejected => 1,
        TransitionStatus::Error => 2,
    }
}

/// Byte tag of a transition class.
pub fn transition_class_tag(class: TransitionClass) -> (t: u8)
    ensures
        t == transition_class_tag_spec(class),
{
    match class {
        TransitionClass::Reject => 0,
        TransitionClass::Init => 1,
        TransitionClass::Error => 2,
        TransitionClass::Batch => 3,
        TransitionClass::Update => 4,
        TransitionClass::Noop => 5,
    }
}

/// Byte tag of a transition status.
pub fn transition_status_tag(status: TransitionStatus) -> (t: u8)
    ensures
        t == transition_status_tag_spec(status),
{
    match status {
        TransitionStatus::Success => 0,
        TransitionStatus::Rejected => 1,
        TransitionStatus::Error => 2,
    }
}

/// An output event of a transition.
#[derive(Clone, Debug, PartialEq, Eq)]
pub struct OutputEvent {
    pub event_type: String,
    pub data: Vec<u8>,
}

impl View for OutputEvent {
    type V = (Seq<char>, Seq<u8>);

    open spec fn view(&self) -> (Seq<char>, Seq<u8>) {
        (self.event_type@, self.data@)
    }
}

/// The externally visible outcome of one transition.
#[derive(Clone, Debug, PartialEq, Eq)]
pub struct Observable {
    pub transition_class: TransitionClass,
    pub outputs: Vec<OutputEvent>,
    pub gas_used: u64,
    pub status: TransitionStatus,
}

/// Abstract value of an observable.
pub struct ObservableModel {
    pub transition_class: TransitionClass,
    pub outputs: Seq<(Seq<char>, Seq<u8>)>,
    pub gas_used: u64,
    pub status: TransitionStatus,
}

impl View for Observable {
    type V = ObservableModel;

    open spec fn view(&self) -> ObservableModel {
        ObservableModel {
            transition_class: self.transition_class,
            outputs: self.outputs@.map_values(|o: OutputEvent| o@),
            gas_used: self.gas_used,
            status: self.status,
        }
    }
}

impl OutputEvent {
    /// A copy of the event.
    pub fn duplicate(&self) -> (r: OutputEvent)
        ensures
            r@ == self@,
    {
        OutputEvent { event_type: self.event_type.clone(), data: copy_bytes(self.data.as_slice()) }
    }

    /// Field-wise equality of two events.
    pub fn eq_event(&self, other: &OutputEvent) -> (eq: bool)
        ensures
            eq == (self@ == other@),
    {
        let same_type = self.event_type == other.event_type;
        let same_data = bytes_equal(self.data.as_slice(), other.data.as_slice());
        same_type && same_data
    }
}

/// An owned copy of a byte slice.
pub fn copy_bytes(b: &[u8]) -> (r: Vec<u8>)
    ensures
        r@ == b@,
{
    let mut r: Vec<u8> = Vec::new();
    let mut i: usize = 0;
    while i < b.len()
        invariant
            i <= b.len(),
            r@ == b@.subrange(0, i as int),
        decreases b.len() - i,
    {
        r.push(b[i]);
        i += 1;
        assert(r@ =~= b@.subrange(0, i as int));
    }
    assert(b@.subrange(0, b.len() as int) =~= b@);
    r
}

/// Abstract values of a sequence of observables.
pub open spec fn observables_view(s: Seq<Observable>) -> Seq<ObservableModel> {
    s.map_values(|o: Observable| o@)
}

impl Observable {
    /// A copy of the observable.
    pub fn duplicate(&self) -> (r: Observable)
        ensures
            r@ == self@,
    {
        let mut outputs: Vec<OutputEvent> = Vec::new();
        let mut i: usize = 0;
        while i < self.outputs.len()
            invariant
                i <= self.outputs.len(),
                outputs@.len() == i,
                forall|k: int| 0 <= k < i ==> outputs@[k]@ == self.outputs@[k]@,
            decreases self.outputs.len() - i,
        {
            outputs.push(self.outputs[i].duplicate());
            i += 1;
        }
        let r = Observable {
            transition_class: self.transition_class,
            outputs,
            gas_used: self.gas_used,
            status: self.status,
        };
        assert(r@.outputs =~= self@.outputs);
        r
    }

    /// Field-wise equality of two observables.
    pub fn eq_observable(&self, other: &Observable) -> (eq: bool)
        ensures
            eq == (self@ == other@),
    {
        if self.transition_class != other.transition_class || self.gas_used != other.gas_used
            || self.status != other.status || self.outputs.len() != other.outputs.len() {
            proof {
                if self@ == other@ {
                    assert(self@.outputs.len() == other@.outputs.len());
                }
            }
            return false;
        }
        let mut i: usize = 0;
        while i < self.outputs.len()
            invariant
                i <= self.outputs.len(),
                self.outputs.len() == other.outputs.len(),
                forall|k: int| 0 <= k < i ==> self.outputs@[k]@ == other.outputs@[k]@,
            decreases self.outputs.len() - i,
        {
            if !self.outputs[i].eq_event(&other.outputs[i]) {
                proof {
                    if self@ == other@ {
                        assert(self@.outputs[i as int] == other@.outputs[i as int]);
                    }
                }
                return false;
            }
            i += 1;
        }
        assert(self@.outputs =~= other@.outputs);
        true
    }
}

/// Element-wise equality of two observable sequences.
pub fn observables_equal(a: &[Observable], b: &[Observable]) -> (eq: bool)
    ensures
        eq == (observables_view(a@) == observables_view(b@)),
{
    if a.len() != b.len() {
        proof {
            if a@.map_values(|o: Observable| o@) == b@.map_values(|o: Observable| o@) {
                assert(a@.map_values(|o: Observable| o@).len() == a@.len());
            }
        }
        return false;
    }
    let mut i: usize = 0;
    while i < a.len()
        invariant
            i <= a.len(),
            a.len() == b.len(),
            forall|k: int| 0 <= k < i ==> a@[k]@ == b@[k]@,
        decreases a.len() - i,
    {
        if !a[i].eq_observable(&b[i]) {
            proof {
                if a@.map_values(|o: Observable| o@) == b@.map_values(|o: Observable| o@) {
                    assert(a@.map_values(|o: Observable| o@)[i as int] == a@[i as int]@);
                }
            }
            return false;
        }
        i += 1;
    }
    assert(a@.map_values(|o: Observable| o@) =~= b@.map_values(|o: Observable| o@));
    true
}

} // verus!
