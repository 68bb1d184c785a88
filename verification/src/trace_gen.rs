//! Shape of the execution trace a witness gives: its length, padded to a
//! power of two for FRI, and the field encoding of byte strings.

use vstd::arithmetic::power2::pow2;
use vstd::prelude::*;

use crate::goldilocks::{GoldilocksField, GOLDILOCKS_MODULUS};
use crate::text::{
    chars_equal, chars_start_with, concat2, decimal, decimal_spec, has_prefix, str_chars,
    utf8_bytes,
};
use crate::witness::{Witness, WitnessInput};
use crate::words::chars_end_with;

verus! {

/// Whether `r` is the least power of two that is at least `n`.
pub open spec fn is_next_power_of_two(n: nat, r: nat) -> bool {
    exists|k: nat| r == #[trigger] pow2(k) && n <= r && (k == 0 || pow2((k - 1) as nat) < n)
}

/// The least power of two that is at least `n` (one for zero).
pub fn next_power_of_two(n: usize) -> (r: usize)
    requires
        n <= usize::MAX / 2 + 1,
    ensures
        is_next_power_of_two(n as nat, r as nat),
{
    let mut p: usize = 1;
    let ghost mut k: nat = 0;
    proof {
        vstd::arithmetic::power2::lemma2_to64();
    }
    while p < n
        invariant
            n <= usize::MAX / 2 + 1,
            p as nat == pow2(k),
            p >= 1,
            k == 0 || pow2((k - 1) as nat) < n,
        decreases usize::MAX - p,
    {
        proof {
            vstd::arithmetic::power2::lemma_pow2_unfold(k + 1);
        }
        p = p * 2;
        proof {
            k = k + 1;
        }
    }
    p
}

/// Number of execution steps of a witness: its inputs, at least one.
pub open spec fn witness_trace_length_spec(w: Witness) -> nat {
    if w.input_sequence@.len() == 0 {
        1
    } else {
        w.input_sequence@.len()
    }
}

/// Number of execution steps of a witness: its inputs, at least one.
pub fn witness_trace_length(witness: &Witness) -> (n: usize)
    ensures
        n as nat == witness_trace_length_spec(*witness),
{
    if witness.input_sequence.len() == 0 {
        1
    } else {
        witness.input_sequence.len()
    }
}

/// Little-endian value of up to eight bytes.
pub open spec fn le_value(b: Seq<u8>) -> nat
    decreases b.len(),
{
    if b.len() == 0 {
        0
    } else {
        b[0] as nat + 256 * le_value(b.drop_first())
    }
}

/// Field elements of a byte string: each 7-byte chunk, the last one
/// possibly shorter, read as a little-endian value.
pub open spec fn chunk_elements(b: Seq<u8>) -> Seq<nat>
    decreases b.len(),
{
    if b.len() == 0 {
        Seq::empty()
    } else if b.len() <= 7 {
        seq![le_value(b)]
    } else {
        seq![le_value(b.subrange(0, 7))] + chunk_elements(b.subrange(7, b.len() as int))
    }
}

proof fn lemma_le_value_bound(b: Seq<u8>)
    ensures
        le_value(b) < pow2(8 * b.len()),
    decreases b.len(),
{
    if b.len() > 0 {
        let m: nat = (b.len() - 1) as nat;
        lemma_le_value_bound(b.drop_first());
        vstd::arithmetic::power2::lemma_pow2_adds(8, 8 * m);
        vstd::arithmetic::power2::lemma2_to64();
        assert(pow2(8) == 256);
        assert(8 + 8 * m == 8 * b.len());
        let big = pow2(8 * m);
        assert(pow2(8 * b.len()) == 256 * big);
        assert(b[0] < 256);
        assert(le_value(b) == b[0] as nat + 256 * le_value(b.drop_first()));
    } else {
        vstd::arithmetic::power2::lemma2_to64();
    }
}

/// Little-endian value of a chunk of at most seven bytes.
fn chunk_value(b: &[u8], start: usize, end: usize) -> (v: u64)
    requires
        start <= end <= b@.len(),
        end - start <= 7,
    ensures
        v as nat == le_value(b@.subrange(start as int, end as int)),
    decreases end - start,
{
    if start == end {
        assert(b@.subrange(start as int, end as int).len() == 0);
        0
    } else {
        let rest = chunk_value(b, start + 1, end);
        proof {
            let s = b@.subrange(start as int, end as int);
            assert(s.drop_first() =~= b@.subrange(start + 1, end as int));
            lemma_le_value_bound(s.drop_first());
            vstd::arithmetic::power2::lemma2_to64();
            assert(pow2(8 * (end - start - 1) as nat) <= pow2(48)) by {
                if 8 * (end - start - 1) < 48 {
                    vstd::arithmetic::power2::lemma_pow2_strictly_increases(
                        8 * (end - start - 1) as nat,
                        48,
                    );
                }
            }
            vstd::arithmetic::power2::lemma2_to64_rest();
            assert(pow2(48) == 0x1_0000_0000_0000);
            assert(rest < 0x1_0000_0000_0000);
        }
        b[start] as u64 + 256 * rest
    }
}

/// Encodes a byte string as field elements, seven bytes per element, so
/// that every element is below the Goldilocks modulus.
pub fn encode_bytes_as_field_elements(bytes: &[u8]) -> (r: Vec<GoldilocksField>)
    ensures
        r@.len() == chunk_elements(bytes@).len(),
        forall|i: int| 0 <= i < r@.len() ==> (#[trigger] r@[i]).0 as nat == chunk_elements(bytes@)[i],
{
    let mut out: Vec<GoldilocksField> = Vec::new();
    let mut start: usize = 0;
    assert(bytes@.subrange(0, bytes@.len() as int) =~= bytes@);
    assert(out@.map_values(|g: GoldilocksField| g.0 as nat) =~= Seq::<nat>::empty());
    while start < bytes.len()
        invariant
            start <= bytes@.len(),
            chunk_elements(bytes@) == out@.map_values(|g: GoldilocksField| g.0 as nat)
                + chunk_elements(bytes@.subrange(start as int, bytes@.len() as int)),
        decreases bytes.len() - start,
    {
        let end: usize = if bytes.len() - start <= 7 {
            bytes.len()
        } else {
            start + 7
        };
        let v = chunk_value(bytes, start, end);
        let ghost before = out@;
        out.push(GoldilocksField(v));
        proof {
            let rest = bytes@.subrange(start as int, bytes@.len() as int);
            assert(rest.subrange(0, (end - start) as int) =~= bytes@.subrange(start as int, end as int));
            assert(rest.subrange((end - start) as int, rest.len() as int) =~= bytes@.subrange(
                end as int,
                bytes@.len() as int,
            ));
            if rest.len() <= 7 {
                assert(rest =~= bytes@.subrange(start as int, end as int));
                assert(bytes@.subrange(end as int, bytes@.len() as int).len() == 0);
                assert(chunk_elements(bytes@.subrange(end as int, bytes@.len() as int)) =~= Seq::empty());
            }
            assert(out@.map_values(|g: GoldilocksField| g.0 as nat) =~= before.map_values(
                |g: GoldilocksField| g.0 as nat,
            ).push(v as nat));
        }
        start = end;
    }
    proof {
        assert(bytes@.subrange(start as int, bytes@.len() as int).len() == 0);
        assert(chunk_elements(bytes@.subrange(start as int, bytes@.len() as int)) =~= Seq::empty());
        assert(chunk_elements(bytes@) =~= out@.map_values(|g: GoldilocksField| g.0 as nat));
    }
    out
}

// ---------------------------------------------------------------------------
// Column layout
// ---------------------------------------------------------------------------

/// Named columns, in the order a layout walks them, by their names' text.
pub open spec fn cols_view(cols: Seq<(String, usize)>) -> Seq<(Seq<char>, usize)> {
    cols.map_values(|p: (String, usize)| (p.0@, p.1))
}

/// The column of the first entry named `name`.
pub open spec fn lookup_col(cols: Seq<(Seq<char>, usize)>, name: Seq<char>) -> Option<usize>
    decreases cols.len(),
{
    if cols.len() == 0 {
        None
    } else if cols[0].0 == name {
        Some(cols[0].1)
    } else {
        lookup_col(cols.drop_first(), name)
    }
}

/// No name occurs twice.
pub open spec fn distinct_names(cols: Seq<(Seq<char>, usize)>) -> bool {
    forall|i: int, j: int| 0 <= i < j < cols.len() ==> #[trigger] cols[i].0 != #[trigger] cols[j].0
}

/// Column of the flag that marks the rows that carry execution steps.
pub open spec fn flag_column_name() -> Seq<char> {
    "__constraint_satisfaction_flag"@
}

/// Column layout of a trace, as generation reads it: the number of
/// columns, and the named witness and auxiliary columns, each in the order
/// the layout walks them.
pub struct ColumnMap {
    pub total_cols: usize,
    pub witness_cols: Vec<(String, usize)>,
    pub aux_cols: Vec<(String, usize)>,
}

impl ColumnMap {
    /// Names are unique within each group, and the flag column, where
    /// there is one, lies within the row.
    pub open spec fn wf(&self) -> bool {
        &&& distinct_names(cols_view(self.witness_cols@))
        &&& distinct_names(cols_view(self.aux_cols@))
        &&& (lookup_col(cols_view(self.aux_cols@), flag_column_name()) matches Some(c) ==> c
            < self.total_cols)
    }
}

fn find_col(cols: &Vec<(String, usize)>, name: &str) -> (r: Option<usize>)
    ensures
        r == lookup_col(cols_view(cols@), name@),
{
    let n = str_chars(name);
    let ghost cv = cols_view(cols@);
    assert(cv.subrange(0, cv.len() as int) =~= cv);
    let mut i: usize = 0;
    while i < cols.len()
        invariant
            i <= cols.len(),
            n@ == name@,
            cv == cols_view(cols@),
            lookup_col(cv, name@) == lookup_col(cv.subrange(i as int, cv.len() as int), name@),
        decreases cols.len() - i,
    {
        let ghost rest = cv.subrange(i as int, cv.len() as int);
        assert(rest.drop_first() =~= cv.subrange(i + 1, cv.len() as int));
        assert(rest[0] == (cols@[i as int].0@, cols@[i as int].1));
        let c = str_chars(cols[i].0.as_str());
        if chars_equal(c.as_slice(), n.as_slice()) {
            return Some(cols[i].1);
        }
        i += 1;
    }
    None
}

// ---------------------------------------------------------------------------
// Rows
// ---------------------------------------------------------------------------

/// Values of a row of field elements.
pub open spec fn elems_view(v: Seq<GoldilocksField>) -> Seq<nat> {
    v.map_values(|g: GoldilocksField| g.0 as nat)
}

/// A row of `n` zeros.
pub open spec fn zero_row(n: nat) -> Seq<nat> {
    Seq::new(n, |i: int| 0nat)
}

/// The row with `v` in column `col`, when the column lies within it.
pub open spec fn set_col(row: Seq<nat>, col: usize, v: nat) -> Seq<nat> {
    if col < row.len() {
        row.update(col as int, v)
    } else {
        row
    }
}

/// The row with `v` in the column named `name`, where there is one.
pub open spec fn set_named(row: Seq<nat>, cols: Seq<(Seq<char>, usize)>, name: Seq<char>, v: nat) -> Seq<
    nat,
> {
    match lookup_col(cols, name) {
        Some(c) => set_col(row, c, v),
        None => row,
    }
}

/// The row with the first `n` elements written, in turn, to the columns
/// named `prefix` followed by each element's index.
pub open spec fn named_writes(
    row: Seq<nat>,
    cols: Seq<(Seq<char>, usize)>,
    prefix: Seq<char>,
    elems: Seq<nat>,
    n: nat,
) -> Seq<nat>
    decreases n,
{
    if n == 0 {
        row
    } else {
        set_named(
            named_writes(row, cols, prefix, elems, (n - 1) as nat),
            cols,
            prefix + decimal_spec((n - 1) as nat),
            elems[n - 1],
        )
    }
}

/// A Goldilocks element from a `u64`: the value modulo the prime.
pub open spec fn reduce_spec(v: u64) -> nat {
    (v % GOLDILOCKS_MODULUS) as nat
}

/// Encodes a `u64` as a Goldilocks element, reducing it modulo the prime.
pub fn encode_u64(val: u64) -> (g: GoldilocksField)
    ensures
        g.0 as nat == reduce_spec(val),
{
    GoldilocksField(val % GOLDILOCKS_MODULUS)
}

fn zeros(n: usize) -> (row: Vec<GoldilocksField>)
    ensures
        elems_view(row@) == zero_row(n as nat),
{
    let mut row: Vec<GoldilocksField> = Vec::new();
    let mut i: usize = 0;
    while i < n
        invariant
            i <= n,
            elems_view(row@) == zero_row(i as nat),
        decreases n - i,
    {
        let ghost before = row@;
        row.push(GoldilocksField(0));
        assert(elems_view(row@) =~= elems_view(before).push(0nat));
        i += 1;
        assert(elems_view(row@) =~= zero_row(i as nat));
    }
    row
}

fn write_col(row: &mut Vec<GoldilocksField>, col: usize, v: GoldilocksField)
    ensures
        elems_view(final(row)@) == set_col(elems_view(old(row)@), col, v.0 as nat),
        final(row)@.len() == old(row)@.len(),
{
    if col < row.len() {
        row.set(col, v);
    }
    assert(elems_view(row@) =~= set_col(elems_view(old(row)@), col, v.0 as nat));
}

fn write_named(row: &mut Vec<GoldilocksField>, cols: &Vec<(String, usize)>, name: &str, v: GoldilocksField)
    ensures
        elems_view(final(row)@) == set_named(elems_view(old(row)@), cols_view(cols@), name@, v.0 as nat),
        final(row)@.len() == old(row)@.len(),
{
    match find_col(cols, name) {
        Some(c) => write_col(row, c, v),
        None => {},
    }
}

fn write_all_named(
    row: &mut Vec<GoldilocksField>,
    cols: &Vec<(String, usize)>,
    prefix: &str,
    elems: &Vec<GoldilocksField>,
)
    ensures
        elems_view(final(row)@) == named_writes(
            elems_view(old(row)@),
            cols_view(cols@),
            prefix@,
            elems_view(elems@),
            elems@.len(),
        ),
        final(row)@.len() == old(row)@.len(),
{
    let ghost start = elems_view(row@);
    let mut i: usize = 0;
    while i < elems.len()
        invariant
            i <= elems.len(),
            row@.len() == old(row)@.len(),
            start == elems_view(old(row)@),
            elems_view(row@) == named_writes(
                start,
                cols_view(cols@),
                prefix@,
                elems_view(elems@),
                i as nat,
            ),
        decreases elems.len() - i,
    {
        let name = concat2(prefix, decimal(i as u64).as_str());
        write_named(row, cols, name.as_str(), elems[i]);
        i += 1;
    }
}


// ---------------------------------------------------------------------------
// Filling a row
// ---------------------------------------------------------------------------

/// Witness columns that the walk over generic columns leaves alone: those
/// that input data fills by name.
pub open spec fn named_input_column(name: Seq<char>) -> bool {
    has_prefix(name, "input_payload_"@) || name == "input_nonce"@ || name == "payload_type"@
}

/// The walk over the first `k` witness columns that fills each generic
/// column within the row with the next payload element while any remain:
/// the row, and how many elements were used.
pub open spec fn generic_fill(row: Seq<nat>, cols: Seq<(Seq<char>, usize)>, elems: Seq<nat>, k: nat) -> (
    Seq<nat>,
    nat,
)
    decreases k,
{
    if k == 0 {
        (row, 0)
    } else {
        let prev = generic_fill(row, cols, elems, (k - 1) as nat);
        let name = cols[k - 1].0;
        let c = cols[k - 1].1;
        if named_input_column(name) {
            prev
        } else if c < prev.0.len() && prev.1 < elems.len() {
            (prev.0.update(c as int, elems[prev.1 as int]), prev.1 + 1)
        } else {
            prev
        }
    }
}

/// A row with an input's data: its payload elements in the columns named
/// `input_payload_<i>`, its nonce in `input_nonce`, the first element of
/// its payload type in `payload_type`, then the payload elements again in
/// the generic witness columns, in walk order.
pub open spec fn input_row(row: Seq<nat>, cols: Seq<(Seq<char>, usize)>, input: WitnessInput) -> Seq<
    nat,
> {
    let elems = chunk_elements(input.data@);
    let r1 = named_writes(row, cols, "input_payload_"@, elems, elems.len());
    let r2 = set_named(r1, cols, "input_nonce"@, reduce_spec(input.nonce));
    let types = chunk_elements(utf8_bytes(input.payload_type@));
    let r3 = if types.len() > 0 {
        set_named(r2, cols, "payload_type"@, types[0])
    } else {
        r2
    };
    generic_fill(r3, cols, elems, cols.len()).0
}

fn encoded(bytes: &[u8]) -> (r: Vec<GoldilocksField>)
    ensures
        elems_view(r@) == chunk_elements(bytes@),
{
    let r = encode_bytes_as_field_elements(bytes);
    assert(elems_view(r@) =~= chunk_elements(bytes@));
    r
}

/// Fills the witness columns of a row from an input.
pub fn fill_witness_columns_from_input(
    row: &mut Vec<GoldilocksField>,
    input: &WitnessInput,
    col_map: &ColumnMap,
)
    ensures
        elems_view(final(row)@) == input_row(
            elems_view(old(row)@),
            cols_view(col_map.witness_cols@),
            *input,
        ),
        final(row)@.len() == old(row)@.len(),
{
    let ghost cols = cols_view(col_map.witness_cols@);
    let payload = encoded(input.data.as_slice());
    write_all_named(row, &col_map.witness_cols, "input_payload_", &payload);
    write_named(row, &col_map.witness_cols, "input_nonce", encode_u64(input.nonce));
    match find_col(&col_map.witness_cols, "payload_type") {
        Some(c) => {
            if c < row.len() {
                let types = encoded(input.payload_type.as_str().as_bytes());
                if types.len() > 0 {
                    row.set(c, types[0]);
                }
            }
        },
        None => {},
    }
    let ghost r3 = elems_view(row@);
    assert(r3 == ({
        let r1 = named_writes(
            elems_view(old(row)@),
            cols,
            "input_payload_"@,
            elems_view(payload@),
            payload@.len(),
        );
        let r2 = set_named(r1, cols, "input_nonce"@, reduce_spec(input.nonce));
        let types = chunk_elements(utf8_bytes(input.payload_type@));
        if types.len() > 0 {
            set_named(r2, cols, "payload_type"@, types[0])
        } else {
            r2
        }
    }));
    let p = str_chars("input_payload_");
    let nonce = str_chars("input_nonce");
    let ptype = str_chars("payload_type");
    let mut used: usize = 0;
    let mut k: usize = 0;
    while k < col_map.witness_cols.len()
        invariant
            k <= col_map.witness_cols.len(),
            cols == cols_view(col_map.witness_cols@),
            p@ == "input_payload_"@,
            nonce@ == "input_nonce"@,
            ptype@ == "payload_type"@,
            row@.len() == r3.len(),
            (elems_view(row@), used as nat) == generic_fill(r3, cols, elems_view(payload@), k as nat),
            used <= payload@.len(),
        decreases col_map.witness_cols.len() - k,
    {
        let name = str_chars(col_map.witness_cols[k].0.as_str());
        let col = col_map.witness_cols[k].1;
        assert(cols[k as int] == (col_map.witness_cols@[k as int].0@, col));
        let skip = chars_start_with(name.as_slice(), p.as_slice()) || chars_equal(
            name.as_slice(),
            nonce.as_slice(),
        ) || chars_equal(name.as_slice(), ptype.as_slice());
        if !skip && col < row.len() && used < payload.len() {
            let ghost before = row@;
            row.set(col, payload[used]);
            assert(elems_view(row@) =~= elems_view(before).update(
                col as int,
                elems_view(payload@)[used as int],
            ));
            used += 1;
        }
        k += 1;
    }
    assert(cols.len() == col_map.witness_cols@.len());
}


/// What trace generation reads of an intermediate state: its commitment,
/// the total supply, and the environment's timestamp and block height.
#[derive(Clone, Copy, Debug, PartialEq, Eq)]
pub struct StateColumns {
    pub commitment: crate::types::Hash,
    pub total_supply: u64,
    pub timestamp: u64,
    pub block_height: u64,
}

/// A row with a state's data: the elements of its commitment in the
/// columns named `state_commit_<i>`, then its total supply, timestamp and
/// block height in the columns of those names.
pub open spec fn state_row(row: Seq<nat>, cols: Seq<(Seq<char>, usize)>, st: StateColumns) -> Seq<nat> {
    let elems = chunk_elements(st.commitment@);
    let r1 = named_writes(row, cols, "state_commit_"@, elems, elems.len());
    let r2 = set_named(r1, cols, "total_supply"@, reduce_spec(st.total_supply));
    let r3 = set_named(r2, cols, "timestamp"@, reduce_spec(st.timestamp));
    set_named(r3, cols, "block_height"@, reduce_spec(st.block_height))
}

/// Fills the witness columns of a row from an intermediate state.
pub fn fill_witness_columns_from_state(
    row: &mut Vec<GoldilocksField>,
    state: &StateColumns,
    col_map: &ColumnMap,
)
    ensures
        elems_view(final(row)@) == state_row(
            elems_view(old(row)@),
            cols_view(col_map.witness_cols@),
            *state,
        ),
        final(row)@.len() == old(row)@.len(),
{
    let commit = encoded(state.commitment.0.as_slice());
    write_all_named(row, &col_map.witness_cols, "state_commit_", &commit);
    write_named(row, &col_map.witness_cols, "total_supply", encode_u64(state.total_supply));
    write_named(row, &col_map.witness_cols, "timestamp", encode_u64(state.timestamp));
    write_named(row, &col_map.witness_cols, "block_height", encode_u64(state.block_height));
}

/// Auxiliary values by their names' text.
pub open spec fn aux_values_view(v: Seq<(String, Vec<u8>)>) -> Seq<(Seq<char>, Seq<u8>)> {
    v.map_values(|p: (String, Vec<u8>)| (p.0@, p.1@))
}

/// A row with the first `k` auxiliary values, each as the first element
/// of its encoding, in the auxiliary column of its name.
pub open spec fn aux_fill(
    row: Seq<nat>,
    cols: Seq<(Seq<char>, usize)>,
    values: Seq<(Seq<char>, Seq<u8>)>,
    k: nat,
) -> Seq<nat>
    decreases k,
{
    if k == 0 {
        row
    } else {
        let prev = aux_fill(row, cols, values, (k - 1) as nat);
        let elems = chunk_elements(values[k - 1].1);
        if elems.len() > 0 {
            set_named(prev, cols, values[k - 1].0, elems[0])
        } else {
            prev
        }
    }
}

/// Fills the auxiliary columns of row `step_index` from the witness's
/// auxiliary values. A value whose name has no column is tried again under
/// its name with the step's suffix, which is the same name.
pub fn fill_auxiliary_columns(
    row: &mut Vec<GoldilocksField>,
    aux: &crate::witness::AuxiliaryComputation,
    col_map: &ColumnMap,
    step_index: usize,
)
    ensures
        elems_view(final(row)@) == aux_fill(
            elems_view(old(row)@),
            cols_view(col_map.aux_cols@),
            aux_values_view(aux.values@),
            aux.values@.len(),
        ),
        final(row)@.len() == old(row)@.len(),
{
    let ghost cols = cols_view(col_map.aux_cols@);
    let ghost values = aux_values_view(aux.values@);
    let ghost start = elems_view(row@);
    let suffix = concat2("_", decimal(step_index as u64).as_str());
    let mut k: usize = 0;
    while k < aux.values.len()
        invariant
            k <= aux.values.len(),
            cols == cols_view(col_map.aux_cols@),
            values == aux_values_view(aux.values@),
            start == elems_view(old(row)@),
            row@.len() == old(row)@.len(),
            elems_view(row@) == aux_fill(start, cols, values, k as nat),
        decreases aux.values.len() - k,
    {
        let name = aux.values[k].0.as_str();
        let value_bytes = aux.values[k].1.as_slice();
        assert(values[k as int] == (name@, value_bytes@));
        match find_col(&col_map.aux_cols, name) {
            Some(c) => {
                if c < row.len() {
                    let elems = encoded(value_bytes);
                    if elems.len() > 0 {
                        row.set(c, elems[0]);
                    }
                }
            },
            None => {
                let chars = str_chars(name);
                if chars_end_with(chars.as_slice(), suffix.as_str()) {
                    let suffix_chars = str_chars(suffix.as_str());
                    let base_len = chars.len() - suffix_chars.len();
                    let base = crate::text::string_from_chars(&chars.as_slice()[0..base_len]);
                    let indexed = concat2(base.as_str(), suffix.as_str());
                    assert(indexed@ =~= name@);
                    match find_col(&col_map.aux_cols, indexed.as_str()) {
                        Some(c) => {
                            if c < row.len() {
                                let elems = encoded(value_bytes);
                                if elems.len() > 0 {
                                    row.set(c, elems[0]);
                                }
                            }
                        },
                        None => {},
                    }
                }
            },
        }
        k += 1;
    }
}

// ---------------------------------------------------------------------------
// Trace generation
// ---------------------------------------------------------------------------

/// A row with the flag set that marks it as carrying an execution step.
pub open spec fn flag_row(row: Seq<nat>, cols: Seq<(Seq<char>, usize)>) -> Seq<nat> {
    set_named(row, cols, flag_column_name(), 1)
}

/// Row `r` of the trace, for a row that carries an execution step: the
/// input of step `r` and the intermediate state `r`, where there are such,
/// the auxiliary values, and the flag.
pub open spec fn active_row(w: Witness, states: Seq<StateColumns>, m: ColumnMap, r: int) -> Seq<nat> {
    let wc = cols_view(m.witness_cols@);
    let ac = cols_view(m.aux_cols@);
    let z = zero_row(m.total_cols as nat);
    let r1 = if r < w.input_sequence@.len() {
        input_row(z, wc, w.input_sequence@[r])
    } else {
        z
    };
    let r2 = if r < states.len() {
        state_row(r1, wc, states[r])
    } else {
        r1
    };
    let r3 = aux_fill(
        r2,
        ac,
        aux_values_view(w.aux_computation.values@),
        w.aux_computation.values@.len(),
    );
    flag_row(r3, ac)
}

/// The rows of a trace of `height` rows: a row per execution step, then
/// rows of zeros.
pub open spec fn trace_rows(w: Witness, states: Seq<StateColumns>, m: ColumnMap, height: nat) -> Seq<
    Seq<nat>,
> {
    Seq::new(
        height,
        |r: int|
            if r < witness_trace_length_spec(w) {
                active_row(w, states, m, r)
            } else {
                zero_row(m.total_cols as nat)
            },
    )
}

proof fn lemma_named_writes_len(
    row: Seq<nat>,
    cols: Seq<(Seq<char>, usize)>,
    prefix: Seq<char>,
    elems: Seq<nat>,
    n: nat,
)
    ensures
        named_writes(row, cols, prefix, elems, n).len() == row.len(),
    decreases n,
{
    if n > 0 {
        lemma_named_writes_len(row, cols, prefix, elems, (n - 1) as nat);
    }
}

proof fn lemma_generic_fill_len(row: Seq<nat>, cols: Seq<(Seq<char>, usize)>, elems: Seq<nat>, k: nat)
    ensures
        generic_fill(row, cols, elems, k).0.len() == row.len(),
    decreases k,
{
    if k > 0 {
        lemma_generic_fill_len(row, cols, elems, (k - 1) as nat);
    }
}

proof fn lemma_aux_fill_len(
    row: Seq<nat>,
    cols: Seq<(Seq<char>, usize)>,
    values: Seq<(Seq<char>, Seq<u8>)>,
    k: nat,
)
    ensures
        aux_fill(row, cols, values, k).len() == row.len(),
    decreases k,
{
    if k > 0 {
        lemma_aux_fill_len(row, cols, values, (k - 1) as nat);
    }
}

/// Every row of a generated trace is as wide as the layout; a row that
/// carries an execution step has its flag, where the layout has one, set
/// to one, and every padding row is zero.
pub proof fn lemma_trace_rows(w: Witness, states: Seq<StateColumns>, m: ColumnMap, height: nat, r: int)
    requires
        m.wf(),
        0 <= r < height,
    ensures
        trace_rows(w, states, m, height)[r].len() == m.total_cols,
        r < witness_trace_length_spec(w) ==> (lookup_col(cols_view(m.aux_cols@), flag_column_name())
            matches Some(c) ==> trace_rows(w, states, m, height)[r][c as int] == 1),
        r >= witness_trace_length_spec(w) ==> trace_rows(w, states, m, height)[r] == zero_row(
            m.total_cols as nat,
        ),
{
    let wc = cols_view(m.witness_cols@);
    let ac = cols_view(m.aux_cols@);
    let z = zero_row(m.total_cols as nat);
    if r < witness_trace_length_spec(w) {
        let r1 = if r < w.input_sequence@.len() {
            input_row(z, wc, w.input_sequence@[r])
        } else {
            z
        };
        if r < w.input_sequence@.len() {
            let input = w.input_sequence@[r];
            let elems = chunk_elements(input.data@);
            let a = named_writes(z, wc, "input_payload_"@, elems, elems.len());
            lemma_named_writes_len(z, wc, "input_payload_"@, elems, elems.len());
            let b = set_named(a, wc, "input_nonce"@, reduce_spec(input.nonce));
            let types = chunk_elements(utf8_bytes(input.payload_type@));
            let c = if types.len() > 0 {
                set_named(b, wc, "payload_type"@, types[0])
            } else {
                b
            };
            lemma_generic_fill_len(c, wc, elems, wc.len());
        }
        let r2 = if r < states.len() {
            state_row(r1, wc, states[r])
        } else {
            r1
        };
        if r < states.len() {
            let elems = chunk_elements(states[r].commitment@);
            lemma_named_writes_len(r1, wc, "state_commit_"@, elems, elems.len());
        }
        let values = aux_values_view(w.aux_computation.values@);
        lemma_aux_fill_len(r2, ac, values, w.aux_computation.values@.len());
    }
}

/// A trace matrix: its values row after row, its width and its height.
pub struct TraceMatrix {
    pub values: Vec<GoldilocksField>,
    pub width: usize,
    pub height: usize,
}

fn build_row(witness: &Witness, states: &[StateColumns], col_map: &ColumnMap, r: usize) -> (row: Vec<
    GoldilocksField,
>)
    requires
        col_map.wf(),
    ensures
        elems_view(row@) == active_row(*witness, states@, *col_map, r as int),
        row@.len() == col_map.total_cols,
{
    let mut row = zeros(col_map.total_cols);
    assert(row@.len() == col_map.total_cols) by {
        assert(elems_view(row@).len() == row@.len());
    }
    if r < witness.input_sequence.len() {
        fill_witness_columns_from_input(&mut row, &witness.input_sequence[r], col_map);
    }
    if r < states.len() {
        fill_witness_columns_from_state(&mut row, &states[r], col_map);
    }
    fill_auxiliary_columns(&mut row, &witness.aux_computation, col_map, r);
    match find_col(&col_map.aux_cols, "__constraint_satisfaction_flag") {
        Some(c) => {
            let ghost before = row@;
            row.set(c, GoldilocksField(1));
            assert(elems_view(row@) =~= elems_view(before).update(c as int, 1));
        },
        None => {},
    }
    row
}

fn append_elems(dst: &mut Vec<GoldilocksField>, src: &Vec<GoldilocksField>)
    ensures
        final(dst)@ == old(dst)@ + src@,
{
    let mut i: usize = 0;
    while i < src.len()
        invariant
            i <= src.len(),
            dst@ == old(dst)@ + src@.take(i as int),
        decreases src.len() - i,
    {
        dst.push(src[i]);
        i += 1;
        assert(dst@ =~= old(dst)@ + src@.take(i as int));
    }
    assert(src@.take(i as int) =~= src@);
}

/// The trace of a witness under a column layout: one row per execution
/// step, padded with rows of zeros to a power of two. `states` holds what
/// the trace reads of the witness's intermediate states, in order.
pub fn generate_trace(witness: &Witness, states: &[StateColumns], col_map: &ColumnMap) -> (t:
    TraceMatrix)
    requires
        col_map.wf(),
        witness.input_sequence@.len() <= usize::MAX / 2 + 1,
        forall|h: nat|
            #[trigger] is_next_power_of_two(witness_trace_length_spec(*witness), h) ==> h
                * col_map.total_cols <= usize::MAX,
        states@.len() == witness.intermediate_states@.len(),
        forall|i: int|
            0 <= i < states@.len() ==> (#[trigger] states@[i]).commitment
                == witness.intermediate_states@[i],
    ensures
        t.width == col_map.total_cols,
        is_next_power_of_two(witness_trace_length_spec(*witness), t.height as nat),
        elems_view(t.values@) == trace_rows(*witness, states@, *col_map, t.height as nat).flatten(),
{
    let raw = witness_trace_length(witness);
    let height = next_power_of_two(raw);
    let width = col_map.total_cols;
    let ghost rows = trace_rows(*witness, states@, *col_map, height as nat);
    assert(height * width <= usize::MAX);
    let mut values: Vec<GoldilocksField> = Vec::new();
    assert(rows.take(0).flatten() =~= Seq::<nat>::empty());
    let mut r: usize = 0;
    while r < height
        invariant
            r <= height,
            height * width <= usize::MAX,
            width == col_map.total_cols,
            col_map.wf(),
            raw == witness_trace_length_spec(*witness),
            rows == trace_rows(*witness, states@, *col_map, height as nat),
            values@.len() == r * width,
            elems_view(values@) == rows.take(r as int).flatten(),
        decreases height - r,
    {
        let row = if r < raw {
            build_row(witness, states, col_map, r)
        } else {
            zeros(width)
        };
        assert(elems_view(row@) == rows[r as int]);
        assert(row@.len() == width) by {
            assert(elems_view(row@).len() == row@.len());
        }
        assert((r + 1) * width <= height * width) by (nonlinear_arith)
            requires
                r + 1 <= height,
        ;
        assert((r + 1) * width == r * width + width) by (nonlinear_arith);
        let ghost before = values@;
        append_elems(&mut values, &row);
        proof {
            rows.take(r as int).lemma_flatten_push(rows[r as int]);
            assert(rows.take(r + 1) =~= rows.take(r as int).push(rows[r as int]));
            assert(elems_view(values@) =~= elems_view(before) + elems_view(row@));
        }
        r += 1;
    }
    assert(rows.take(height as int) =~= rows);
    TraceMatrix { values, width, height }
}

/// Rows and columns of the trace a witness gives under a column layout of
/// `num_cols` columns: the step count padded to a power of two.
pub fn trace_dimensions(witness: &Witness, num_cols: usize) -> (d: (usize, usize))
    requires
        witness.input_sequence@.len() <= usize::MAX / 2 + 1,
    ensures
        is_next_power_of_two(witness_trace_length_spec(*witness), d.0 as nat),
        d.1 == num_cols,
{
    let raw = witness_trace_length(witness);
    (next_power_of_two(raw), num_cols)
}

/// A column a name looks up is the column of one of the entries.
proof fn lemma_lookup_col_in(cols: Seq<(Seq<char>, usize)>, name: Seq<char>)
    ensures
        lookup_col(cols, name) matches Some(c) ==> exists|i: int|
            0 <= i < cols.len() && #[trigger] cols[i].1 == c,
    decreases cols.len(),
{
    if cols.len() > 0 && cols[0].0 != name {
        lemma_lookup_col_in(cols.drop_first(), name);
        if lookup_col(cols, name) is Some {
            let c = lookup_col(cols, name)->0;
            let i = choose|i: int| 0 <= i < cols.drop_first().len() && #[trigger] cols.drop_first()[i].1 == c;
            assert(cols[i + 1].1 == c);
        }
    } else if cols.len() > 0 {
        assert(cols[0].1 == lookup_col(cols, name)->0);
    }
}

/// Writing values by name leaves a column that no entry names as it was.
proof fn lemma_set_named_keeps(row: Seq<nat>, cols: Seq<(Seq<char>, usize)>, name: Seq<char>, v: nat, c: int)
    requires
        0 <= c < row.len(),
        forall|i: int| 0 <= i < cols.len() ==> cols[i].1 != c,
    ensures
        set_named(row, cols, name, v).len() == row.len(),
        set_named(row, cols, name, v)[c] == row[c],
{
    lemma_lookup_col_in(cols, name);
    if lookup_col(cols, name) is Some {
        let c2 = lookup_col(cols, name)->0;
        let i = choose|i: int| 0 <= i < cols.len() && #[trigger] cols[i].1 == c2;
        assert(c2 != c);
    }
}

/// Auxiliary values leave a column that no auxiliary entry names as it was.
proof fn lemma_aux_fill_keeps(
    row: Seq<nat>,
    cols: Seq<(Seq<char>, usize)>,
    values: Seq<(Seq<char>, Seq<u8>)>,
    k: nat,
    c: int,
)
    requires
        0 <= c < row.len(),
        forall|i: int| 0 <= i < cols.len() ==> cols[i].1 != c,
    ensures
        aux_fill(row, cols, values, k)[c] == row[c],
    decreases k,
{
    if k > 0 {
        lemma_aux_fill_keeps(row, cols, values, (k - 1) as nat, c);
        lemma_aux_fill_len(row, cols, values, (k - 1) as nat);
        let prev = aux_fill(row, cols, values, (k - 1) as nat);
        let elems = chunk_elements(values[k - 1].1);
        if elems.len() > 0 {
            lemma_set_named_keeps(prev, cols, values[k - 1].0, elems[0], c);
        }
    }
}

/// Law: a trace row that carries a state holds the state's total supply,
/// timestamp and block height, each reduced into the field, in the witness
/// column of that name: for a column `c` inside the row that no auxiliary
/// entry names, the name that looks `c` up is the one whose value `c`
/// holds, unless a field written after it looks `c` up too.
pub proof fn lemma_trace_state_fields(
    w: Witness,
    states: Seq<StateColumns>,
    m: ColumnMap,
    height: nat,
    r: int,
    c: usize,
)
    requires
        m.wf(),
        0 <= r < height,
        r < witness_trace_length_spec(w),
        r < states.len(),
        c < m.total_cols,
        forall|i: int| 0 <= i < m.aux_cols@.len() ==> (#[trigger] m.aux_cols@[i]).1 != c,
    ensures
        ({
            let wc = cols_view(m.witness_cols@);
            let row = trace_rows(w, states, m, height)[r];
            &&& lookup_col(wc, "total_supply"@) == Some(c) && lookup_col(wc, "timestamp"@) != Some(c)
                && lookup_col(wc, "block_height"@) != Some(c) ==> row[c as int] == reduce_spec(
                states[r].total_supply,
            )
            &&& lookup_col(wc, "timestamp"@) == Some(c) && lookup_col(wc, "block_height"@) != Some(c)
                ==> row[c as int] == reduce_spec(states[r].timestamp)
            &&& lookup_col(wc, "block_height"@) == Some(c) ==> row[c as int] == reduce_spec(
                states[r].block_height,
            )
        }),
{
    let wc = cols_view(m.witness_cols@);
    let ac = cols_view(m.aux_cols@);
    let z = zero_row(m.total_cols as nat);
    let r1 = if r < w.input_sequence@.len() {
        input_row(z, wc, w.input_sequence@[r])
    } else {
        z
    };
    if r < w.input_sequence@.len() {
        let input = w.input_sequence@[r];
        let elems = chunk_elements(input.data@);
        let a = named_writes(z, wc, "input_payload_"@, elems, elems.len());
        lemma_named_writes_len(z, wc, "input_payload_"@, elems, elems.len());
        let b = set_named(a, wc, "input_nonce"@, reduce_spec(input.nonce));
        let types = chunk_elements(utf8_bytes(input.payload_type@));
        let cc = if types.len() > 0 {
            set_named(b, wc, "payload_type"@, types[0])
        } else {
            b
        };
        lemma_generic_fill_len(cc, wc, elems, wc.len());
    }
    let st = states[r];
    let elems = chunk_elements(st.commitment@);
    let q1 = named_writes(r1, wc, "state_commit_"@, elems, elems.len());
    lemma_named_writes_len(r1, wc, "state_commit_"@, elems, elems.len());
    let q2 = set_named(q1, wc, "total_supply"@, reduce_spec(st.total_supply));
    let q3 = set_named(q2, wc, "timestamp"@, reduce_spec(st.timestamp));
    let q4 = set_named(q3, wc, "block_height"@, reduce_spec(st.block_height));
    assert(q4 == state_row(r1, wc, st));
    assert forall|i: int| 0 <= i < ac.len() implies ac[i].1 != c by {
        assert(ac[i].1 == m.aux_cols@[i].1);
    }
    let values = aux_values_view(w.aux_computation.values@);
    let n = w.aux_computation.values@.len();
    lemma_aux_fill_keeps(q4, ac, values, n, c as int);
    lemma_aux_fill_len(q4, ac, values, n);
    let q5 = aux_fill(q4, ac, values, n);
    lemma_set_named_keeps(q5, ac, flag_column_name(), 1, c as int);
    assert(trace_rows(w, states, m, height)[r] == flag_row(q5, ac));
}

} // verus!
