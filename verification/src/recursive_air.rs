//! Column layout of the recursive verifier AIR.
//!
//! The recursive verifier encodes an inner STARK verification as AIR
//! constraints. This module allocates the trace columns of that AIR and
//! lists the polynomial constraints it emits. Columns are allocated in this
//! order:
//!
//! 1. inner public inputs,
//! 2. FRI commitment witnesses (one digest per round),
//! 3. FRI query responses (one per query per round),
//! 4. Merkle path verification columns (per query, per round),
//! 5. FRI folding consistency columns (per query, per round),
//! 6. query evaluation point columns (per query),
//! 7. state chain columns (inner `root_final`, outer `root_init`).

use vstd::prelude::*;

verus! {

/// Number of Goldilocks elements in one Poseidon2 digest.
pub const POSEIDON2_DIGEST_ELEMENTS: usize = 4;

/// Number of Goldilocks elements encoding a 32-byte state root
/// (7-byte chunks: ceil(32 / 7) = 5).
pub const STATE_ROOT_ELEMENTS: usize = 5;

/// Default Merkle tree depth for FRI commitments.
pub const DEFAULT_MERKLE_DEPTH: usize = 20;

/// Column indices holding the inner proof's `root_final` and the outer
/// proof's `root_init`; the AIR asserts element-wise equality between them.
#[derive(Clone, Debug)]
pub struct StateChainColumns {
    pub inner_root_final: Vec<usize>,
    pub outer_root_init: Vec<usize>,
}

/// Column indices verifying one Merkle authentication path.
#[derive(Clone, Debug)]
pub struct MerklePathColumns {
    pub leaf: Vec<usize>,
    pub expected_root: Vec<usize>,
    /// Sibling digests, one per tree level.
    pub siblings: Vec<Vec<usize>>,
    /// Path direction bits, one per tree level.
    pub path_bits: Vec<usize>,
    /// Intermediate hash outputs, one digest per tree level.
    pub intermediates: Vec<Vec<usize>>,
}

/// Column indices for one FRI folding step `folded = even + challenge * odd`.
#[derive(Clone, Debug)]
pub struct FriFoldingColumns {
    pub even_eval: usize,
    pub odd_eval: usize,
    pub folded_eval: usize,
    pub challenge: usize,
    pub challenge_times_odd: usize,
}

/// Column indices checking that a query point is `generator^index`.
#[derive(Clone, Debug)]
pub struct QueryConsistencyColumns {
    pub query_point: usize,
    pub domain_generator: usize,
    pub index_bits: Vec<usize>,
    pub squaring_intermediates: Vec<usize>,
}

/// The recursive verifier AIR: an inner STARK verifier as constraints.
pub struct RecursiveVerifierAir {
    pub inner_air_width: usize,
    pub num_fri_queries: usize,
    pub num_fri_commit_rounds: usize,
    pub merkle_depth: usize,
    pub chain_cols: StateChainColumns,
    pub total_cols: usize,
    pub num_public_values: usize,
    pub public_input_offset: usize,
    pub num_public_input_cols: usize,
    pub fri_commitment_offset: usize,
    pub num_fri_commitment_cols: usize,
    pub query_response_offset: usize,
    pub num_query_response_cols: usize,
    pub merkle_paths: Vec<MerklePathColumns>,
    pub fri_foldings: Vec<FriFoldingColumns>,
    pub query_consistencies: Vec<QueryConsistencyColumns>,
}

// ---------------------------------------------------------------------------
// Layout model
// ---------------------------------------------------------------------------

/// The `n` consecutive columns starting at `start`.
pub open spec fn seq_range(start: int, n: int) -> Seq<usize> {
    Seq::new(n as nat, |j: int| (start + j) as usize)
}

/// Columns used by one Merkle path of the given depth: leaf and root
/// digests, then per level a sibling digest, a path bit and an
/// intermediate digest.
pub open spec fn merkle_path_width(depth: int) -> int {
    8 + 9 * depth
}

/// Columns used by one FRI folding step.
pub open spec fn folding_width() -> int {
    5
}

/// Columns used by one query consistency check: point, generator, and
/// per level an index bit and a squaring intermediate.
pub open spec fn query_width(depth: int) -> int {
    2 + 2 * depth
}

pub open spec fn fri_commitment_start(pv: int) -> int {
    pv
}

pub open spec fn query_response_start(pv: int, r: int) -> int {
    pv + 4 * r
}

pub open spec fn merkle_start(pv: int, q: int, r: int) -> int {
    pv + 4 * r + q * r
}

pub open spec fn folding_start(pv: int, q: int, r: int, m: int) -> int {
    merkle_start(pv, q, r) + (q * r) * merkle_path_width(m)
}

pub open spec fn query_start(pv: int, q: int, r: int, m: int) -> int {
    folding_start(pv, q, r, m) + folding_width() * (q * r)
}

pub open spec fn chain_start(pv: int, q: int, r: int, m: int) -> int {
    query_start(pv, q, r, m) + q * query_width(m)
}

/// Total trace width for `pv` public values, `q` queries, `r` rounds and
/// Merkle depth `m`.
pub open spec fn total_width(pv: int, q: int, r: int, m: int) -> int {
    chain_start(pv, q, r, m) + 2 * 5
}

/// `mp` holds the Merkle path columns of the given depth starting at `start`.
pub open spec fn merkle_path_at(mp: MerklePathColumns, start: int, depth: int) -> bool {
    &&& mp.leaf@ == seq_range(start, 4)
    &&& mp.expected_root@ == seq_range(start + 4, 4)
    &&& mp.siblings@.len() == depth
    &&& mp.path_bits@.len() == depth
    &&& mp.intermediates@.len() == depth
    &&& forall|l: int|
        0 <= l < depth ==> #[trigger] mp.siblings@[l]@ == seq_range(start + 8 + 9 * l, 4)
    &&& forall|l: int| 0 <= l < depth ==> #[trigger] mp.path_bits@[l] == start + 8 + 9 * l + 4
    &&& forall|l: int|
        0 <= l < depth ==> #[trigger] mp.intermediates@[l]@ == seq_range(start + 8 + 9 * l + 5, 4)
}

/// `ff` holds the five folding columns starting at `start`.
pub open spec fn folding_at(ff: FriFoldingColumns, start: int) -> bool {
    &&& ff.even_eval == start
    &&& ff.odd_eval == start + 1
    &&& ff.folded_eval == start + 2
    &&& ff.challenge == start + 3
    &&& ff.challenge_times_odd == start + 4
}

/// `qc` holds the query consistency columns of the given depth at `start`.
pub open spec fn query_at(qc: QueryConsistencyColumns, start: int, depth: int) -> bool {
    &&& qc.query_point == start
    &&& qc.domain_generator == start + 1
    &&& qc.index_bits@ == seq_range(start + 2, depth)
    &&& qc.squaring_intermediates@ == seq_range(start + 2 + depth, depth)
}

impl RecursiveVerifierAir {
    /// Every column group sits where the allocation order puts it.
    pub open spec fn wf(self) -> bool {
        let pv = self.num_public_values as int;
        let q = self.num_fri_queries as int;
        let r = self.num_fri_commit_rounds as int;
        let m = self.merkle_depth as int;
        &&& self.public_input_offset == 0
        &&& self.num_public_input_cols == pv
        &&& self.fri_commitment_offset == fri_commitment_start(pv)
        &&& self.num_fri_commitment_cols == 4 * r
        &&& self.query_response_offset == query_response_start(pv, r)
        &&& self.num_query_response_cols == q * r
        &&& self.merkle_paths@.len() == q * r
        &&& forall|p: int|
            0 <= p < q * r ==> #[trigger] merkle_path_at(
                self.merkle_paths@[p],
                merkle_start(pv, q, r) + p * merkle_path_width(m),
                m,
            )
        &&& self.fri_foldings@.len() == q * r
        &&& forall|k: int|
            0 <= k < q * r ==> #[trigger] folding_at(
                self.fri_foldings@[k],
                folding_start(pv, q, r, m) + folding_width() * k,
            )
        &&& self.query_consistencies@.len() == q
        &&& forall|i: int|
            0 <= i < q ==> #[trigger] query_at(
                self.query_consistencies@[i],
                query_start(pv, q, r, m) + i * query_width(m),
                m,
            )
        &&& self.chain_cols.inner_root_final@ == seq_range(chain_start(pv, q, r, m), 5)
        &&& self.chain_cols.outer_root_init@ == seq_range(chain_start(pv, q, r, m) + 5, 5)
        &&& self.total_cols == total_width(pv, q, r, m)
    }
}

// ---------------------------------------------------------------------------
// Arithmetic facts about the layout
// ---------------------------------------------------------------------------

proof fn lemma_mul_step(p: int, w: int)
    by (nonlinear_arith)
    ensures
        (p + 1) * w == p * w + w,
{
}

proof fn lemma_mul_le(p: int, n: int, w: int)
    by (nonlinear_arith)
    requires
        0 <= p <= n,
        0 <= w,
    ensures
        p * w <= n * w,
{
}

proof fn lemma_nonneg_mul(a: int, b: int)
    by (nonlinear_arith)
    requires
        0 <= a,
        0 <= b,
    ensures
        0 <= a * b,
{
}

proof fn lemma_nested_index(query: int, round: int, q: int, r: int)
    by (nonlinear_arith)
    requires
        0 <= query < q,
        0 <= round < r,
    ensures
        query * r + round + 1 <= q * r,
        (query + 1) * r == query * r + r,
{
}

/// The group starts are ordered and every group fits below the total.
proof fn lemma_layout_monotone(pv: int, q: int, r: int, m: int)
    requires
        0 <= pv,
        0 <= q,
        0 <= r,
        0 <= m,
    ensures
        0 <= q * r,
        0 <= q * r <= merkle_start(pv, q, r),
        merkle_start(pv, q, r) <= folding_start(pv, q, r, m),
        folding_start(pv, q, r, m) <= query_start(pv, q, r, m),
        query_start(pv, q, r, m) <= chain_start(pv, q, r, m),
        chain_start(pv, q, r, m) + 10 == total_width(pv, q, r, m),
        4 * r <= merkle_start(pv, q, r),
{
    lemma_nonneg_mul(q, r);
    lemma_nonneg_mul(q * r, merkle_path_width(m));
    lemma_nonneg_mul(q, query_width(m));
}

// ---------------------------------------------------------------------------
// Column allocation
// ---------------------------------------------------------------------------

/// Allocate `n` consecutive columns starting at `start`.
fn alloc_range(start: usize, n: usize) -> (cols: Vec<usize>)
    requires
        start + n <= usize::MAX,
    ensures
        cols@ == seq_range(start as int, n as int),
{
    let mut cols: Vec<usize> = Vec::new();
    let mut j: usize = 0;
    while j < n
        invariant
            j <= n,
            start + n <= usize::MAX,
            cols@ == seq_range(start as int, j as int),
        decreases n - j,
    {
        cols.push(start + j);
        j += 1;
    }
    cols
}

/// Allocate the columns of one Merkle path of the given depth at `start`.
fn alloc_merkle_path(start: usize, depth: usize) -> (mp: MerklePathColumns)
    requires
        start + merkle_path_width(depth as int) <= usize::MAX,
    ensures
        merkle_path_at(mp, start as int, depth as int),
{
    let leaf = alloc_range(start, POSEIDON2_DIGEST_ELEMENTS);
    let expected_root = alloc_range(start + 4, POSEIDON2_DIGEST_ELEMENTS);
    let mut siblings: Vec<Vec<usize>> = Vec::new();
    let mut path_bits: Vec<usize> = Vec::new();
    let mut intermediates: Vec<Vec<usize>> = Vec::new();
    let mut next_col: usize = start + 8;
    let mut level: usize = 0;
    while level < depth
        invariant
            level <= depth,
            start + merkle_path_width(depth as int) <= usize::MAX,
            next_col == start + 8 + 9 * level,
            siblings@.len() == level,
            path_bits@.len() == level,
            intermediates@.len() == level,
            forall|l: int|
                0 <= l < level ==> #[trigger] siblings@[l]@ == seq_range(start + 8 + 9 * l, 4),
            forall|l: int| 0 <= l < level ==> #[trigger] path_bits@[l] == start + 8 + 9 * l + 4,
            forall|l: int|
                0 <= l < level ==> #[trigger] intermediates@[l]@ == seq_range(
                    start + 8 + 9 * l + 5,
                    4,
                ),
        decreases depth - level,
    {
        let sibling = alloc_range(next_col, POSEIDON2_DIGEST_ELEMENTS);
        siblings.push(sibling);
        next_col += 4;
        path_bits.push(next_col);
        next_col += 1;
        let intermediate = alloc_range(next_col, POSEIDON2_DIGEST_ELEMENTS);
        intermediates.push(intermediate);
        next_col += 4;
        level += 1;
    }
    MerklePathColumns { leaf, expected_root, siblings, path_bits, intermediates }
}

/// Allocate the query consistency columns of the given depth at `start`.
fn alloc_query_consistency(start: usize, depth: usize) -> (qc: QueryConsistencyColumns)
    requires
        start + query_width(depth as int) <= usize::MAX,
    ensures
        query_at(qc, start as int, depth as int),
{
    let query_point = start;
    let domain_generator = start + 1;
    let index_bits = alloc_range(start + 2, depth);
    let squaring_intermediates = alloc_range(start + 2 + depth, depth);
    QueryConsistencyColumns { query_point, domain_generator, index_bits, squaring_intermediates }
}

impl RecursiveVerifierAir {
    /// Allocate every column group of the recursive verifier AIR.
    ///
    /// The layout is exactly the one `wf` describes; the width must fit in
    /// a `usize`.
    pub fn new(
        inner_air_width: usize,
        num_fri_queries: usize,
        num_fri_commit_rounds: usize,
        merkle_depth: usize,
        num_public_values: usize,
    ) -> (air: Self)
        requires
            total_width(
                num_public_values as int,
                num_fri_queries as int,
                num_fri_commit_rounds as int,
                merkle_depth as int,
            ) <= usize::MAX,
        ensures
            air.wf(),
            air.inner_air_width == inner_air_width,
            air.num_fri_queries == num_fri_queries,
            air.num_fri_commit_rounds == num_fri_commit_rounds,
            air.merkle_depth == merkle_depth,
            air.num_public_values == num_public_values,
    {
        let ghost pv = num_public_values as int;
        let ghost q = num_fri_queries as int;
        let ghost r = num_fri_commit_rounds as int;
        let ghost m = merkle_depth as int;
        let ghost total = total_width(pv, q, r, m);
        proof {
            lemma_layout_monotone(pv, q, r, m);
        }

        let mut next_col: usize = 0;

        // 1. Inner public input columns.
        let public_input_offset = next_col;
        let num_public_input_cols = num_public_values;
        next_col += num_public_input_cols;

        // 2. FRI commitment witness columns: one digest per round.
        let fri_commitment_offset = next_col;
        let num_fri_commitment_cols = num_fri_commit_rounds * POSEIDON2_DIGEST_ELEMENTS;
        next_col += num_fri_commitment_cols;

        // 3. FRI query response columns: one value per query per round.
        let query_response_offset = next_col;
        let num_query_response_cols = num_fri_queries * num_fri_commit_rounds;
        next_col += num_query_response_cols;

        // 4. Merkle path verification columns.
        let ghost mstart = merkle_start(pv, q, r);
        let ghost mw = merkle_path_width(m);
        let mut merkle_paths: Vec<MerklePathColumns> = Vec::new();
        let mut query: usize = 0;
        assert((0 * r) * mw == 0) by (nonlinear_arith);
        while query < num_fri_queries
            invariant
                query <= num_fri_queries,
                q == num_fri_queries,
                r == num_fri_commit_rounds,
                m == merkle_depth,
                pv == num_public_values,
                mstart == merkle_start(pv, q, r),
                mw == merkle_path_width(m),
                total == total_width(pv, q, r, m),
                total <= usize::MAX,
                0 <= q * r,
                mstart + (q * r) * mw == folding_start(pv, q, r, m),
                folding_start(pv, q, r, m) <= total,
                merkle_paths@.len() == query * r,
                next_col == mstart + (query * r) * mw,
                forall|p: int|
                    0 <= p < query * r ==> #[trigger] merkle_path_at(
                        merkle_paths@[p],
                        mstart + p * mw,
                        m,
                    ),
            decreases num_fri_queries - query,
        {
            let mut round: usize = 0;
            while round < num_fri_commit_rounds
                invariant
                    query < num_fri_queries,
                    round <= num_fri_commit_rounds,
                    q == num_fri_queries,
                    r == num_fri_commit_rounds,
                    m == merkle_depth,
                    mw == merkle_path_width(m),
                    total <= usize::MAX,
                    0 <= q * r,
                    mstart + (q * r) * mw <= total,
                    merkle_paths@.len() == query * r + round,
                    next_col == mstart + (query * r + round) * mw,
                    forall|p: int|
                        0 <= p < query * r + round ==> #[trigger] merkle_path_at(
                            merkle_paths@[p],
                            mstart + p * mw,
                            m,
                        ),
                decreases num_fri_commit_rounds - round,
            {
                proof {
                    let p = query * r + round;
                    lemma_nested_index(query as int, round as int, q, r);
                    lemma_mul_step(p, mw);
                    lemma_mul_le(p + 1, q * r, mw);
                }
                let mp = alloc_merkle_path(next_col, merkle_depth);
                merkle_paths.push(mp);
                next_col += 8 + 9 * merkle_depth;
                round += 1;
            }
            proof {
                lemma_mul_step(query as int, r);
            }
            query += 1;
        }

        // 5. FRI folding consistency columns.
        let ghost fstart = folding_start(pv, q, r, m);
        let mut fri_foldings: Vec<FriFoldingColumns> = Vec::new();
        let mut query: usize = 0;
        while query < num_fri_queries
            invariant
                query <= num_fri_queries,
                q == num_fri_queries,
                r == num_fri_commit_rounds,
                total <= usize::MAX,
                0 <= q * r,
                fstart + 5 * (q * r) == query_start(pv, q, r, m),
                query_start(pv, q, r, m) <= total,
                fri_foldings@.len() == query * r,
                next_col == fstart + 5 * (query * r),
                forall|k: int|
                    0 <= k < query * r ==> #[trigger] folding_at(fri_foldings@[k], fstart + 5 * k),
            decreases num_fri_queries - query,
        {
            let mut round: usize = 0;
            while round < num_fri_commit_rounds
                invariant
                    query < num_fri_queries,
                    round <= num_fri_commit_rounds,
                    q == num_fri_queries,
                    r == num_fri_commit_rounds,
                    total <= usize::MAX,
                    fstart + 5 * (q * r) <= total,
                    fri_foldings@.len() == query * r + round,
                    next_col == fstart + 5 * (query * r + round),
                    forall|k: int|
                        0 <= k < query * r + round ==> #[trigger] folding_at(
                            fri_foldings@[k],
                            fstart + 5 * k,
                        ),
                decreases num_fri_commit_rounds - round,
            {
                proof {
                    lemma_nested_index(query as int, round as int, q, r);
                }
                let even_eval = next_col;
                next_col += 1;
                let odd_eval = next_col;
                next_col += 1;
                let folded_eval = next_col;
                next_col += 1;
                let challenge = next_col;
                next_col += 1;
                let challenge_times_odd = next_col;
                next_col += 1;
                fri_foldings.push(
                    FriFoldingColumns {
                        even_eval,
                        odd_eval,
                        folded_eval,
                        challenge,
                        challenge_times_odd,
                    },
                );
                round += 1;
            }
            proof {
                lemma_mul_step(query as int, r);
            }
            query += 1;
        }

        // 6. Query evaluation point consistency columns.
        let ghost qstart = query_start(pv, q, r, m);
        let ghost qw = query_width(m);
        let mut query_consistencies: Vec<QueryConsistencyColumns> = Vec::new();
        let mut query: usize = 0;
        while query < num_fri_queries
            invariant
                query <= num_fri_queries,
                q == num_fri_queries,
                m == merkle_depth,
                qw == query_width(m),
                total <= usize::MAX,
                qstart + q * qw == chain_start(pv, q, r, m),
                chain_start(pv, q, r, m) + 10 == total,
                query_consistencies@.len() == query,
                next_col == qstart + query * qw,
                forall|i: int|
                    0 <= i < query ==> #[trigger] query_at(
                        query_consistencies@[i],
                        qstart + i * qw,
                        m,
                    ),
            decreases num_fri_queries - query,
        {
            proof {
                lemma_mul_step(query as int, qw);
                lemma_mul_le(query as int + 1, q, qw);
            }
            let qc = alloc_query_consistency(next_col, merkle_depth);
            query_consistencies.push(qc);
            next_col += 2 + 2 * merkle_depth;
            query += 1;
        }

        // 7. State chain columns.
        let inner_root_final = alloc_range(next_col, STATE_ROOT_ELEMENTS);
        next_col += STATE_ROOT_ELEMENTS;
        let outer_root_init = alloc_range(next_col, STATE_ROOT_ELEMENTS);
        next_col += STATE_ROOT_ELEMENTS;
        let chain_cols = StateChainColumns { inner_root_final, outer_root_init };

        let total_cols = next_col;

        RecursiveVerifierAir {
            inner_air_width,
            num_fri_queries,
            num_fri_commit_rounds,
            merkle_depth,
            chain_cols,
            total_cols,
            num_public_values,
            public_input_offset,
            num_public_input_cols,
            fri_commitment_offset,
            num_fri_commitment_cols,
            query_response_offset,
            num_query_response_cols,
            merkle_paths,
            fri_foldings,
            query_consistencies,
        }
    }
}


impl RecursiveVerifierAir {
    /// Return the inner AIR width.
    pub fn inner_air_width(&self) -> (w: usize)
        ensures
            w == self.inner_air_width,
    {
        self.inner_air_width
    }

    /// Return the number of FRI queries being verified.
    pub fn num_fri_queries(&self) -> (n: usize)
        ensures
            n == self.num_fri_queries,
    {
        self.num_fri_queries
    }

    /// Return the number of FRI commitment rounds.
    pub fn num_fri_commit_rounds(&self) -> (n: usize)
        ensures
            n == self.num_fri_commit_rounds,
    {
        self.num_fri_commit_rounds
    }

    /// Return the Merkle tree depth.
    pub fn merkle_depth(&self) -> (d: usize)
        ensures
            d == self.merkle_depth,
    {
        self.merkle_depth
    }

    /// Return the state chain columns.
    pub fn chain_cols(&self) -> (cols: &StateChainColumns)
        ensures
            cols == &self.chain_cols,
    {
        &self.chain_cols
    }

    /// Return the total number of columns in the trace.
    pub fn trace_width(&self) -> (w: usize)
        ensures
            w == self.total_cols,
    {
        self.total_cols
    }

    /// Return the number of public values.
    pub fn get_num_public_values(&self) -> (n: usize)
        ensures
            n == self.num_public_values,
    {
        self.num_public_values
    }

    /// Return the column offset for inner public inputs.
    pub fn public_input_offset(&self) -> (o: usize)
        ensures
            o == self.public_input_offset,
    {
        self.public_input_offset
    }

    /// Return the column offset for FRI commitments.
    pub fn fri_commitment_offset(&self) -> (o: usize)
        ensures
            o == self.fri_commitment_offset,
    {
        self.fri_commitment_offset
    }

    /// Return the column offset for query responses.
    pub fn query_response_offset(&self) -> (o: usize)
        ensures
            o == self.query_response_offset,
    {
        self.query_response_offset
    }

    /// The recursive verifier with the default parameters: 34 FRI queries,
    /// 10 folding rounds and Merkle depth 20.
    pub fn with_defaults(inner_air_width: usize, num_public_values: usize) -> (air: Self)
        requires
            total_width(num_public_values as int, 34, 10, DEFAULT_MERKLE_DEPTH as int)
                <= usize::MAX,
        ensures
            air.wf(),
            air.inner_air_width == inner_air_width,
            air.num_fri_queries == 34,
            air.num_fri_commit_rounds == 10,
            air.merkle_depth == DEFAULT_MERKLE_DEPTH,
            air.num_public_values == num_public_values,
    {
        Self::new(inner_air_width, 34, 10, DEFAULT_MERKLE_DEPTH, num_public_values)
    }
}


// ---------------------------------------------------------------------------
// Column roles: every column of the trace has exactly one role
// ---------------------------------------------------------------------------

/// The role a trace column plays in the recursive verifier AIR.
pub ghost enum ColumnRole {
    PublicInput(nat),
    FriCommitment(nat),
    QueryResponse(nat),
    /// Merkle path `p`, digest element `j`.
    MerkleLeaf(nat, nat),
    MerkleRoot(nat, nat),
    /// Merkle path `p`, level `l`, digest element `j`.
    MerkleSibling(nat, nat, nat),
    MerklePathBit(nat, nat),
    MerkleIntermediate(nat, nat, nat),
    /// Folding step `k`.
    FoldingEven(nat),
    FoldingOdd(nat),
    FoldingFolded(nat),
    FoldingChallenge(nat),
    FoldingChallengeTimesOdd(nat),
    /// Query `i`.
    QueryPoint(nat),
    DomainGenerator(nat),
    /// Query `i`, bit `l`.
    IndexBit(nat, nat),
    SquaringIntermediate(nat, nat),
    /// State root element `i`.
    InnerRootFinal(nat),
    OuterRootInit(nat),
}

impl RecursiveVerifierAir {
    /// `role` names a column that this AIR allocates.
    pub open spec fn role_valid(self, role: ColumnRole) -> bool {
        let pv = self.num_public_values as int;
        let q = self.num_fri_queries as int;
        let r = self.num_fri_commit_rounds as int;
        let m = self.merkle_depth as int;
        match role {
            ColumnRole::PublicInput(i) => i < pv,
            ColumnRole::FriCommitment(i) => i < 4 * r,
            ColumnRole::QueryResponse(i) => i < q * r,
            ColumnRole::MerkleLeaf(p, j) => p < q * r && j < 4,
            ColumnRole::MerkleRoot(p, j) => p < q * r && j < 4,
            ColumnRole::MerkleSibling(p, l, j) => p < q * r && l < m && j < 4,
            ColumnRole::MerklePathBit(p, l) => p < q * r && l < m,
            ColumnRole::MerkleIntermediate(p, l, j) => p < q * r && l < m && j < 4,
            ColumnRole::FoldingEven(k) => k < q * r,
            ColumnRole::FoldingOdd(k) => k < q * r,
            ColumnRole::FoldingFolded(k) => k < q * r,
            ColumnRole::FoldingChallenge(k) => k < q * r,
            ColumnRole::FoldingChallengeTimesOdd(k) => k < q * r,
            ColumnRole::QueryPoint(i) => i < q,
            ColumnRole::DomainGenerator(i) => i < q,
            ColumnRole::IndexBit(i, l) => i < q && l < m,
            ColumnRole::SquaringIntermediate(i, l) => i < q && l < m,
            ColumnRole::InnerRootFinal(i) => i < 5,
            ColumnRole::OuterRootInit(i) => i < 5,
        }
    }

    /// The column this AIR holds for `role`, read from its column groups.
    pub open spec fn column_of(self, role: ColumnRole) -> int {
        match role {
            ColumnRole::PublicInput(i) => self.public_input_offset + i,
            ColumnRole::FriCommitment(i) => self.fri_commitment_offset + i,
            ColumnRole::QueryResponse(i) => self.query_response_offset + i,
            ColumnRole::MerkleLeaf(p, j) => self.merkle_paths@[p as int].leaf@[j as int] as int,
            ColumnRole::MerkleRoot(p, j) => self.merkle_paths@[p as int].expected_root@[j as int] as int,
            ColumnRole::MerkleSibling(p, l, j) => self.merkle_paths@[p as int].siblings@[l as int]@[j as int] as int,
            ColumnRole::MerklePathBit(p, l) => self.merkle_paths@[p as int].path_bits@[l as int] as int,
            ColumnRole::MerkleIntermediate(p, l, j) => self.merkle_paths@[p as int].intermediates@[l as int]@[j as int] as int,
            ColumnRole::FoldingEven(k) => self.fri_foldings@[k as int].even_eval as int,
            ColumnRole::FoldingOdd(k) => self.fri_foldings@[k as int].odd_eval as int,
            ColumnRole::FoldingFolded(k) => self.fri_foldings@[k as int].folded_eval as int,
            ColumnRole::FoldingChallenge(k) => self.fri_foldings@[k as int].challenge as int,
            ColumnRole::FoldingChallengeTimesOdd(k) => self.fri_foldings@[k as int].challenge_times_odd as int,
            ColumnRole::QueryPoint(i) => self.query_consistencies@[i as int].query_point as int,
            ColumnRole::DomainGenerator(i) => self.query_consistencies@[i as int].domain_generator as int,
            ColumnRole::IndexBit(i, l) => self.query_consistencies@[i as int].index_bits@[l as int] as int,
            ColumnRole::SquaringIntermediate(i, l) => self.query_consistencies@[i as int].squaring_intermediates@[l as int] as int,
            ColumnRole::InnerRootFinal(i) => self.chain_cols.inner_root_final@[i as int] as int,
            ColumnRole::OuterRootInit(i) => self.chain_cols.outer_root_init@[i as int] as int,
        }
    }

    /// The role of trace column `c`.
    pub open spec fn role_at_column(self, c: int) -> ColumnRole {
        let pv = self.num_public_values as int;
        let q = self.num_fri_queries as int;
        let r = self.num_fri_commit_rounds as int;
        let m = self.merkle_depth as int;
        if c < fri_commitment_start(pv) {
            ColumnRole::PublicInput(c as nat)
        } else if c < query_response_start(pv, r) {
            ColumnRole::FriCommitment((c - fri_commitment_start(pv)) as nat)
        } else if c < merkle_start(pv, q, r) {
            ColumnRole::QueryResponse((c - query_response_start(pv, r)) as nat)
        } else if c < folding_start(pv, q, r, m) {
            let x = c - merkle_start(pv, q, r);
            let p = (x / merkle_path_width(m)) as nat;
            let o = x % merkle_path_width(m);
            if o < 4 {
                ColumnRole::MerkleLeaf(p, o as nat)
            } else if o < 8 {
                ColumnRole::MerkleRoot(p, (o - 4) as nat)
            } else {
                let l = ((o - 8) / 9) as nat;
                let s = (o - 8) % 9;
                if s < 4 {
                    ColumnRole::MerkleSibling(p, l, s as nat)
                } else if s == 4 {
                    ColumnRole::MerklePathBit(p, l)
                } else {
                    ColumnRole::MerkleIntermediate(p, l, (s - 5) as nat)
                }
            }
        } else if c < query_start(pv, q, r, m) {
            let x = c - folding_start(pv, q, r, m);
            let k = (x / 5) as nat;
            let s = x % 5;
            if s == 0 {
                ColumnRole::FoldingEven(k)
            } else if s == 1 {
                ColumnRole::FoldingOdd(k)
            } else if s == 2 {
                ColumnRole::FoldingFolded(k)
            } else if s == 3 {
                ColumnRole::FoldingChallenge(k)
            } else {
                ColumnRole::FoldingChallengeTimesOdd(k)
            }
        } else if c < chain_start(pv, q, r, m) {
            let x = c - query_start(pv, q, r, m);
            let i = (x / query_width(m)) as nat;
            let o = x % query_width(m);
            if o == 0 {
                ColumnRole::QueryPoint(i)
            } else if o == 1 {
                ColumnRole::DomainGenerator(i)
            } else if o < 2 + m {
                ColumnRole::IndexBit(i, (o - 2) as nat)
            } else {
                ColumnRole::SquaringIntermediate(i, (o - 2 - m) as nat)
            }
        } else if c < chain_start(pv, q, r, m) + 5 {
            ColumnRole::InnerRootFinal((c - chain_start(pv, q, r, m)) as nat)
        } else {
            ColumnRole::OuterRootInit((c - chain_start(pv, q, r, m) - 5) as nat)
        }
    }
}

proof fn lemma_div_mod_unique(x: int, d: int, k: int, o: int)
    requires
        0 < d,
        0 <= o < d,
        x == k * d + o,
    ensures
        x / d == k,
        x % d == o,
{
    vstd::arithmetic::div_mod::lemma_fundamental_div_mod_converse(x, d, k, o);
}

proof fn lemma_div_mod_bounds(x: int, d: int, n: int)
    requires
        0 < d,
        0 <= x < n * d,
    ensures
        0 <= x / d < n,
        0 <= x % d < d,
        x == (x / d) * d + x % d,
{
    vstd::arithmetic::div_mod::lemma_fundamental_div_mod(x, d);
    vstd::arithmetic::div_mod::lemma_mod_pos_bound(x, d);
    vstd::arithmetic::div_mod::lemma_div_pos_is_pos(x, d);
    assert((x / d) * d == d * (x / d)) by (nonlinear_arith);
    if x / d >= n {
        assert((x / d) * d >= n * d) by (nonlinear_arith)
            requires
                x / d >= n,
                d > 0,
        ;
    }
}

/// A valid role's column lies below the trace width and names that role.
proof fn lemma_role_column_roundtrip(air: RecursiveVerifierAir, role: ColumnRole)
    requires
        air.wf(),
        air.role_valid(role),
    ensures
        0 <= air.column_of(role) < air.total_cols,
        air.role_at_column(air.column_of(role)) == role,
{
    let pv = air.num_public_values as int;
    let q = air.num_fri_queries as int;
    let r = air.num_fri_commit_rounds as int;
    let m = air.merkle_depth as int;
    let mw = merkle_path_width(m);
    let qw = query_width(m);
    lemma_layout_monotone(pv, q, r, m);
    match role {
        ColumnRole::PublicInput(i) => {},
        ColumnRole::FriCommitment(i) => {},
        ColumnRole::QueryResponse(i) => {},
        ColumnRole::MerkleLeaf(p, j) => { let p = p as int; let j = j as int;
            assert(merkle_path_at(air.merkle_paths@[p as int], merkle_start(pv, q, r) + p * mw, m));
            lemma_mul_le(p + 1, q * r, mw);
            lemma_mul_step(p as int, mw);
            lemma_div_mod_unique(p * mw + j, mw, p as int, j as int);
        },
        ColumnRole::MerkleRoot(p, j) => { let p = p as int; let j = j as int;
            assert(merkle_path_at(air.merkle_paths@[p as int], merkle_start(pv, q, r) + p * mw, m));
            lemma_mul_le(p + 1, q * r, mw);
            lemma_mul_step(p as int, mw);
            lemma_div_mod_unique(p * mw + 4 + j, mw, p as int, 4 + j);
        },
        ColumnRole::MerkleSibling(p, l, j) => { let p = p as int; let l = l as int; let j = j as int;
            let mp = air.merkle_paths@[p as int];
            assert(merkle_path_at(mp, merkle_start(pv, q, r) + p * mw, m));
            assert(mp.siblings@[l as int]@ == seq_range(merkle_start(pv, q, r) + p * mw + 8 + 9 * l, 4));
            lemma_mul_le(p + 1, q * r, mw);
            lemma_mul_step(p as int, mw);
            lemma_div_mod_unique(p * mw + 8 + 9 * l + j, mw, p as int, 8 + 9 * l + j);
            lemma_div_mod_unique(9 * l + j, 9, l as int, j as int);
        },
        ColumnRole::MerklePathBit(p, l) => { let p = p as int; let l = l as int;
            let mp = air.merkle_paths@[p as int];
            assert(merkle_path_at(mp, merkle_start(pv, q, r) + p * mw, m));
            assert(mp.path_bits@[l as int] == merkle_start(pv, q, r) + p * mw + 8 + 9 * l + 4);
            lemma_mul_le(p + 1, q * r, mw);
            lemma_mul_step(p as int, mw);
            lemma_div_mod_unique(p * mw + 8 + 9 * l + 4, mw, p as int, 8 + 9 * l + 4);
            lemma_div_mod_unique(9 * l + 4, 9, l as int, 4);
        },
        ColumnRole::MerkleIntermediate(p, l, j) => { let p = p as int; let l = l as int; let j = j as int;
            let mp = air.merkle_paths@[p as int];
            assert(merkle_path_at(mp, merkle_start(pv, q, r) + p * mw, m));
            assert(mp.intermediates@[l as int]@ == seq_range(merkle_start(pv, q, r) + p * mw + 8 + 9 * l + 5, 4));
            lemma_mul_le(p + 1, q * r, mw);
            lemma_mul_step(p as int, mw);
            lemma_div_mod_unique(p * mw + 8 + 9 * l + 5 + j, mw, p as int, 8 + 9 * l + 5 + j);
            lemma_div_mod_unique(9 * l + 5 + j, 9, l as int, 5 + j);
        },
        ColumnRole::FoldingEven(k) => { let k = k as int;
            assert(folding_at(air.fri_foldings@[k as int], folding_start(pv, q, r, m) + 5 * k));
            lemma_div_mod_unique(5 * k, 5, k as int, 0);
        },
        ColumnRole::FoldingOdd(k) => { let k = k as int;
            assert(folding_at(air.fri_foldings@[k as int], folding_start(pv, q, r, m) + 5 * k));
            lemma_div_mod_unique(5 * k + 1, 5, k as int, 1);
        },
        ColumnRole::FoldingFolded(k) => { let k = k as int;
            assert(folding_at(air.fri_foldings@[k as int], folding_start(pv, q, r, m) + 5 * k));
            lemma_div_mod_unique(5 * k + 2, 5, k as int, 2);
        },
        ColumnRole::FoldingChallenge(k) => { let k = k as int;
            assert(folding_at(air.fri_foldings@[k as int], folding_start(pv, q, r, m) + 5 * k));
            lemma_div_mod_unique(5 * k + 3, 5, k as int, 3);
        },
        ColumnRole::FoldingChallengeTimesOdd(k) => { let k = k as int;
            assert(folding_at(air.fri_foldings@[k as int], folding_start(pv, q, r, m) + 5 * k));
            lemma_div_mod_unique(5 * k + 4, 5, k as int, 4);
        },
        ColumnRole::QueryPoint(i) => { let i = i as int;
            assert(query_at(air.query_consistencies@[i as int], query_start(pv, q, r, m) + i * qw, m));
            lemma_mul_le(i + 1, q, qw);
            lemma_mul_step(i as int, qw);
            lemma_div_mod_unique(i * qw, qw, i as int, 0);
        },
        ColumnRole::DomainGenerator(i) => { let i = i as int;
            assert(query_at(air.query_consistencies@[i as int], query_start(pv, q, r, m) + i * qw, m));
            lemma_mul_le(i + 1, q, qw);
            lemma_mul_step(i as int, qw);
            lemma_div_mod_unique(i * qw + 1, qw, i as int, 1);
        },
        ColumnRole::IndexBit(i, l) => { let i = i as int; let l = l as int;
            let qc = air.query_consistencies@[i as int];
            assert(query_at(qc, query_start(pv, q, r, m) + i * qw, m));
            lemma_mul_le(i + 1, q, qw);
            lemma_mul_step(i as int, qw);
            assert(qc.index_bits@[l as int] == query_start(pv, q, r, m) + i * qw + 2 + l);
            lemma_div_mod_unique(i * qw + 2 + l, qw, i as int, 2 + l);
        },
        ColumnRole::SquaringIntermediate(i, l) => { let i = i as int; let l = l as int;
            let qc = air.query_consistencies@[i as int];
            assert(query_at(qc, query_start(pv, q, r, m) + i * qw, m));
            lemma_mul_le(i + 1, q, qw);
            lemma_mul_step(i as int, qw);
            assert(qc.squaring_intermediates@[l as int] == query_start(pv, q, r, m) + i * qw + 2 + m + l);
            lemma_div_mod_unique(i * qw + 2 + m + l, qw, i as int, 2 + m + l);
        },
        ColumnRole::InnerRootFinal(i) => {},
        ColumnRole::OuterRootInit(i) => {},
    }
}

/// Law: distinct roles of a well-formed recursive verifier AIR occupy
/// distinct columns, and every allocated column lies inside the trace.
pub proof fn lemma_columns_distinct_and_in_bounds(
    air: RecursiveVerifierAir,
    a: ColumnRole,
    b: ColumnRole,
)
    requires
        air.wf(),
        air.role_valid(a),
        air.role_valid(b),
        a != b,
    ensures
        air.column_of(a) != air.column_of(b),
        0 <= air.column_of(a) < air.total_cols,
        0 <= air.column_of(b) < air.total_cols,
{
    lemma_role_column_roundtrip(air, a);
    lemma_role_column_roundtrip(air, b);
}


/// Law: every column of a well-formed recursive verifier AIR is allocated
/// to some role; no column of the trace is left unused.
pub proof fn lemma_columns_cover_trace(air: RecursiveVerifierAir, c: int)
    requires
        air.wf(),
        0 <= c < air.total_cols,
    ensures
        air.role_valid(air.role_at_column(c)),
        air.column_of(air.role_at_column(c)) == c,
{
    let pv = air.num_public_values as int;
    let q = air.num_fri_queries as int;
    let r = air.num_fri_commit_rounds as int;
    let m = air.merkle_depth as int;
    let mw = merkle_path_width(m);
    let qw = query_width(m);
    lemma_layout_monotone(pv, q, r, m);
    if c < fri_commitment_start(pv) {
    } else if c < query_response_start(pv, r) {
    } else if c < merkle_start(pv, q, r) {
    } else if c < folding_start(pv, q, r, m) {
        let x = c - merkle_start(pv, q, r);
        lemma_div_mod_bounds(x, mw, q * r);
        let p = x / mw;
        let o = x % mw;
        let mp = air.merkle_paths@[p];
        assert(merkle_path_at(mp, merkle_start(pv, q, r) + p * mw, m));
        if o >= 8 {
            let y = o - 8;
            lemma_div_mod_bounds(y, 9, m);
            let l = y / 9;
            assert(mp.siblings@[l]@ == seq_range(merkle_start(pv, q, r) + p * mw + 8 + 9 * l, 4));
            assert(mp.intermediates@[l]@ == seq_range(
                merkle_start(pv, q, r) + p * mw + 8 + 9 * l + 5,
                4,
            ));
            assert(mp.path_bits@[l] == merkle_start(pv, q, r) + p * mw + 8 + 9 * l + 4);
        }
    } else if c < query_start(pv, q, r, m) {
        let x = c - folding_start(pv, q, r, m);
        lemma_div_mod_bounds(x, 5, q * r);
        assert(folding_at(air.fri_foldings@[x / 5], folding_start(pv, q, r, m) + 5 * (x / 5)));
    } else if c < chain_start(pv, q, r, m) {
        let x = c - query_start(pv, q, r, m);
        lemma_div_mod_bounds(x, qw, q);
        let i = x / qw;
        let qc = air.query_consistencies@[i];
        assert(query_at(qc, query_start(pv, q, r, m) + i * qw, m));
    } else {
    }
}


// ---------------------------------------------------------------------------
// Constraints emitted by the recursive verifier AIR
// ---------------------------------------------------------------------------

/// One polynomial identity over the columns of the current row.
#[derive(Clone, Copy, Debug, PartialEq, Eq)]
pub enum AirConstraint {
    /// `x * (1 - x) = 0`: the column holds a bit.
    Boolean(usize),
    /// `left - right = 0`.
    Equal(usize, usize),
    /// `product - challenge * odd = 0`.
    FoldProduct { product: usize, challenge: usize, odd: usize },
    /// `folded - even - product = 0`.
    FoldSum { folded: usize, even: usize, product: usize },
}

/// Merkle path constraints: every path bit is boolean, and (for a
/// non-empty path) the last intermediate digest equals the expected root.
pub open spec fn merkle_path_constraints(mp: MerklePathColumns, depth: int) -> Seq<AirConstraint> {
    mp.path_bits@.map_values(|b: usize| AirConstraint::Boolean(b)) + if depth > 0 {
        Seq::new(
            4,
            |j: int| AirConstraint::Equal(mp.intermediates@[depth - 1]@[j], mp.expected_root@[j]),
        )
    } else {
        Seq::empty()
    }
}

/// FRI folding constraints: `cto = challenge * odd` and
/// `folded = even + cto`.
pub open spec fn folding_constraints(ff: FriFoldingColumns) -> Seq<AirConstraint> {
    seq![
        AirConstraint::FoldProduct {
            product: ff.challenge_times_odd,
            challenge: ff.challenge,
            odd: ff.odd_eval,
        },
        AirConstraint::FoldSum {
            folded: ff.folded_eval,
            even: ff.even_eval,
            product: ff.challenge_times_odd,
        },
    ]
}

/// Query constraints: index bits are boolean and the last squaring
/// intermediate equals the query point.
pub open spec fn query_constraints(qc: QueryConsistencyColumns) -> Seq<AirConstraint> {
    qc.index_bits@.map_values(|b: usize| AirConstraint::Boolean(b)) + if qc.squaring_intermediates@.len()
        > 0 {
        seq![AirConstraint::Equal(qc.squaring_intermediates@.last(), qc.query_point)]
    } else {
        Seq::empty()
    }
}

/// State chain constraints: `inner_root_final[i] = outer_root_init[i]`.
pub open spec fn chain_constraints(cc: StateChainColumns) -> Seq<AirConstraint> {
    Seq::new(
        5,
        |i: int| AirConstraint::Equal(cc.inner_root_final@[i], cc.outer_root_init@[i]),
    )
}

impl RecursiveVerifierAir {
    /// All constraints, in emission order: Merkle paths, FRI foldings,
    /// query consistency, state chaining.
    pub open spec fn constraint_model(self) -> Seq<AirConstraint> {
        self.merkle_paths@.map_values(
            |mp: MerklePathColumns| merkle_path_constraints(mp, self.merkle_depth as int),
        ).flatten() + self.fri_foldings@.map_values(
            |ff: FriFoldingColumns| folding_constraints(ff),
        ).flatten() + self.query_consistencies@.map_values(
            |qc: QueryConsistencyColumns| query_constraints(qc),
        ).flatten() + chain_constraints(self.chain_cols)
    }
}

fn booleans(cols: &Vec<usize>) -> (cs: Vec<AirConstraint>)
    ensures
        cs@ == cols@.map_values(|b: usize| AirConstraint::Boolean(b)),
{
    let mut cs: Vec<AirConstraint> = Vec::new();
    let mut i: usize = 0;
    while i < cols.len()
        invariant
            i <= cols.len(),
            cs@ == cols@.take(i as int).map_values(|b: usize| AirConstraint::Boolean(b)),
        decreases cols.len() - i,
    {
        cs.push(AirConstraint::Boolean(cols[i]));
        assert(cols@.take(i + 1) == cols@.take(i as int).push(cols@[i as int]));
        i += 1;
    }
    assert(cols@.take(cols.len() as int) == cols@);
    cs
}

fn merkle_path_constraint_list(mp: &MerklePathColumns, depth: usize) -> (cs: Vec<AirConstraint>)
    requires
        depth > 0 ==> mp.intermediates@.len() == depth,
        depth > 0 ==> mp.intermediates@[depth - 1]@.len() == 4,
        mp.expected_root@.len() == 4,
    ensures
        cs@ == merkle_path_constraints(*mp, depth as int),
{
    let mut cs = booleans(&mp.path_bits);
    let ghost bits = cs@;
    if depth > 0 {
        let last_level = depth - 1;
        let mut j: usize = 0;
        while j < POSEIDON2_DIGEST_ELEMENTS
            invariant
                j <= 4,
                depth > 0,
                last_level == depth - 1,
                mp.intermediates@.len() == depth,
                mp.intermediates@[depth - 1]@.len() == 4,
                mp.expected_root@.len() == 4,
                cs@ == bits + Seq::new(
                    j as nat,
                    |k: int|
                        AirConstraint::Equal(
                            mp.intermediates@[depth - 1]@[k],
                            mp.expected_root@[k],
                        ),
                ),
            decreases 4 - j,
        {
            if j < mp.intermediates[last_level].len() && j < mp.expected_root.len() {
                cs.push(AirConstraint::Equal(mp.intermediates[last_level][j], mp.expected_root[j]));
            }
            j += 1;
        }
    }
    assert(cs@ =~= merkle_path_constraints(*mp, depth as int));
    cs
}

fn query_constraint_list(qc: &QueryConsistencyColumns) -> (cs: Vec<AirConstraint>)
    ensures
        cs@ == query_constraints(*qc),
{
    let mut cs = booleans(&qc.index_bits);
    if !qc.squaring_intermediates.is_empty() {
        let last_idx = qc.squaring_intermediates.len() - 1;
        cs.push(AirConstraint::Equal(qc.squaring_intermediates[last_idx], qc.query_point));
    }
    assert(cs@ =~= query_constraints(*qc));
    cs
}

impl RecursiveVerifierAir {
    /// The polynomial identities the AIR asserts on every row, in the order
    /// they are emitted: Merkle path checks, FRI folding checks, query
    /// point checks, and the state chain equalities.
    pub fn constraints(&self) -> (cs: Vec<AirConstraint>)
        requires
            self.wf(),
        ensures
            cs@ == self.constraint_model(),
    {
        let ghost m = self.merkle_depth as int;
        let ghost mf = |mp: MerklePathColumns| merkle_path_constraints(mp, m);
        let ghost ff = |f: FriFoldingColumns| folding_constraints(f);
        let ghost qf = |qc: QueryConsistencyColumns| query_constraints(qc);
        let mut cs: Vec<AirConstraint> = Vec::new();

        // 1. Merkle path verification.
        let mut k: usize = 0;
        while k < self.merkle_paths.len()
            invariant
                self.wf(),
                m == self.merkle_depth,
                mf == (|mp: MerklePathColumns| merkle_path_constraints(mp, m)),
                k <= self.merkle_paths.len(),
                cs@ == self.merkle_paths@.take(k as int).map_values(mf).flatten(),
            decreases self.merkle_paths.len() - k,
        {
            let ghost pv = self.num_public_values as int;
            let ghost q = self.num_fri_queries as int;
            let ghost r = self.num_fri_commit_rounds as int;
            assert(merkle_path_at(
                self.merkle_paths@[k as int],
                merkle_start(pv, q, r) + k * merkle_path_width(m),
                m,
            ));
            let mut next = merkle_path_constraint_list(&self.merkle_paths[k], self.merkle_depth);
            cs.append(&mut next);
            proof {
                let prefix = self.merkle_paths@.take(k as int).map_values(mf);
                assert(self.merkle_paths@.take(k + 1).map_values(mf) =~= prefix.push(
                    mf(self.merkle_paths@[k as int]),
                ));
                prefix.lemma_flatten_push(mf(self.merkle_paths@[k as int]));
            }
            k += 1;
        }
        assert(self.merkle_paths@.take(self.merkle_paths.len() as int) == self.merkle_paths@);
        let ghost merkle_part = cs@;

        // 2. FRI folding consistency.
        let mut k: usize = 0;
        while k < self.fri_foldings.len()
            invariant
                ff == (|f: FriFoldingColumns| folding_constraints(f)),
                k <= self.fri_foldings.len(),
                cs@ == merkle_part + self.fri_foldings@.take(k as int).map_values(ff).flatten(),
            decreases self.fri_foldings.len() - k,
        {
            let f = &self.fri_foldings[k];
            cs.push(
                AirConstraint::FoldProduct {
                    product: f.challenge_times_odd,
                    challenge: f.challenge,
                    odd: f.odd_eval,
                },
            );
            cs.push(
                AirConstraint::FoldSum {
                    folded: f.folded_eval,
                    even: f.even_eval,
                    product: f.challenge_times_odd,
                },
            );
            proof {
                let prefix = self.fri_foldings@.take(k as int).map_values(ff);
                assert(self.fri_foldings@.take(k + 1).map_values(ff) =~= prefix.push(
                    ff(self.fri_foldings@[k as int]),
                ));
                prefix.lemma_flatten_push(ff(self.fri_foldings@[k as int]));
                assert(cs@ =~= merkle_part + self.fri_foldings@.take(k + 1).map_values(ff).flatten());
            }
            k += 1;
        }
        assert(self.fri_foldings@.take(self.fri_foldings.len() as int) == self.fri_foldings@);
        let ghost folding_part = cs@;

        // 3. Query evaluation point consistency.
        let mut k: usize = 0;
        while k < self.query_consistencies.len()
            invariant
                qf == (|qc: QueryConsistencyColumns| query_constraints(qc)),
                k <= self.query_consistencies.len(),
                cs@ == folding_part + self.query_consistencies@.take(k as int).map_values(
                    qf,
                ).flatten(),
            decreases self.query_consistencies.len() - k,
        {
            let mut next = query_constraint_list(&self.query_consistencies[k]);
            cs.append(&mut next);
            proof {
                let prefix = self.query_consistencies@.take(k as int).map_values(qf);
                assert(self.query_consistencies@.take(k + 1).map_values(qf) =~= prefix.push(
                    qf(self.query_consistencies@[k as int]),
                ));
                prefix.lemma_flatten_push(qf(self.query_consistencies@[k as int]));
            }
            k += 1;
        }
        assert(self.query_consistencies@.take(self.query_consistencies.len() as int)
            == self.query_consistencies@);
        let ghost query_part = cs@;

        // 4. State chaining: inner root_final equals outer root_init.
        let mut i: usize = 0;
        while i < STATE_ROOT_ELEMENTS
            invariant
                i <= 5,
                self.chain_cols.inner_root_final@.len() == 5,
                self.chain_cols.outer_root_init@.len() == 5,
                cs@ == query_part + chain_constraints(self.chain_cols).take(i as int),
            decreases 5 - i,
        {
            if i < self.chain_cols.inner_root_final.len() && i < self.chain_cols.outer_root_init.len() {
                cs.push(
                    AirConstraint::Equal(
                        self.chain_cols.inner_root_final[i],
                        self.chain_cols.outer_root_init[i],
                    ),
                );
            }
            assert(chain_constraints(self.chain_cols).take(i + 1) =~= chain_constraints(
                self.chain_cols,
            ).take(i as int).push(chain_constraints(self.chain_cols)[i as int]));
            i += 1;
        }
        assert(chain_constraints(self.chain_cols).take(5) =~= chain_constraints(self.chain_cols));
        cs
    }
}

/// Law: the AIR enforces state chaining. For every state root element the
/// constraint list holds `inner_root_final[i] = outer_root_init[i]`, and the
/// two columns are distinct, so the equality is not trivially satisfied.
pub proof fn lemma_state_chain_enforced(air: RecursiveVerifierAir, i: nat)
    requires
        air.wf(),
        i < STATE_ROOT_ELEMENTS,
    ensures
        air.constraint_model().contains(
            AirConstraint::Equal(
                air.column_of(ColumnRole::InnerRootFinal(i)) as usize,
                air.column_of(ColumnRole::OuterRootInit(i)) as usize,
            ),
        ),
        air.column_of(ColumnRole::InnerRootFinal(i)) != air.column_of(ColumnRole::OuterRootInit(i)),
{
    let cs = air.constraint_model();
    let chain = chain_constraints(air.chain_cols);
    let prefix_len = cs.len() - 5;
    assert(cs[prefix_len + i] == chain[i as int]);
    lemma_columns_distinct_and_in_bounds(
        air,
        ColumnRole::InnerRootFinal(i),
        ColumnRole::OuterRootInit(i),
    );
}

/// An entry of one of the flattened sequences is in the flattening.
proof fn lemma_flatten_has(ss: Seq<Seq<AirConstraint>>, i: int, k: int)
    requires
        0 <= i < ss.len(),
        0 <= k < ss[i].len(),
    ensures
        ss.flatten().contains(ss[i][k]),
    decreases ss.len(),
{
    if i == 0 {
        assert(ss.flatten()[k] == ss[0][k]);
    } else {
        lemma_flatten_has(ss.drop_first(), i - 1, k);
        let t = choose|t: int|
            0 <= t < ss.drop_first().flatten().len() && ss.drop_first().flatten()[t] == ss[i][k];
        assert(ss.flatten()[ss.first().len() + t] == ss[i][k]);
    }
}

/// Whatever is in a flattening comes from one of the flattened sequences.
proof fn lemma_flatten_member(ss: Seq<Seq<AirConstraint>>, x: AirConstraint)
    requires
        ss.flatten().contains(x),
    ensures
        exists|i: int| 0 <= i < ss.len() && #[trigger] ss[i].contains(x),
    decreases ss.len(),
{
    let flat = ss.flatten();
    let t = choose|t: int| 0 <= t < flat.len() && flat[t] == x;
    if t < ss.first().len() {
        assert(ss[0][t] == x);
        assert(ss[0].contains(x));
    } else {
        assert(ss.drop_first().flatten()[t - ss.first().len()] == x);
        lemma_flatten_member(ss.drop_first(), x);
        let i = choose|i: int| 0 <= i < ss.drop_first().len() && #[trigger] ss.drop_first()[i].contains(x);
        assert(ss[i + 1] == ss.drop_first()[i]);
    }
}

/// Law: the AIR ties each query point to the last of its squaring
/// intermediates, the value the repeated squaring ends at, and to no
/// other of them.
pub proof fn lemma_query_point_constrained(air: RecursiveVerifierAir, i: nat, j: nat)
    requires
        air.wf(),
        i < air.num_fri_queries,
        0 < air.merkle_depth,
        j < air.merkle_depth,
    ensures
        air.constraint_model().contains(
            AirConstraint::Equal(
                air.column_of(ColumnRole::SquaringIntermediate(i, (air.merkle_depth - 1) as nat)) as usize,
                air.column_of(ColumnRole::QueryPoint(i)) as usize,
            ),
        ),
        j + 1 < air.merkle_depth ==> !air.constraint_model().contains(
            AirConstraint::Equal(
                air.column_of(ColumnRole::SquaringIntermediate(i, j)) as usize,
                air.column_of(ColumnRole::QueryPoint(i)) as usize,
            ),
        ),
{
    let pv = air.num_public_values as int;
    let q = air.num_fri_queries as int;
    let r = air.num_fri_commit_rounds as int;
    let m = air.merkle_depth as int;
    let mf = |mp: MerklePathColumns| merkle_path_constraints(mp, m);
    let ff = |f: FriFoldingColumns| folding_constraints(f);
    let qf = |qc: QueryConsistencyColumns| query_constraints(qc);
    let ms = air.merkle_paths@.map_values(mf);
    let fs = air.fri_foldings@.map_values(ff);
    let qs = air.query_consistencies@.map_values(qf);
    let mm = ms.flatten();
    let fm = fs.flatten();
    let qm = qs.flatten();
    let cm = chain_constraints(air.chain_cols);
    let model = air.constraint_model();
    assert(model == mm + fm + qm + cm);
    let qc = air.query_consistencies@[i as int];
    assert(query_at(qc, query_start(pv, q, r, m) + i * query_width(m), m));
    let last = AirConstraint::Equal(
        air.column_of(ColumnRole::SquaringIntermediate(i, (m - 1) as nat)) as usize,
        air.column_of(ColumnRole::QueryPoint(i)) as usize,
    );
    // The last intermediate is tied to the query point.
    assert(qs[i as int] == query_constraints(qc));
    assert(query_constraints(qc)[qc.index_bits@.len() as int] == last);
    lemma_flatten_has(qs, i as int, qc.index_bits@.len() as int);
    let t = choose|t: int| 0 <= t < qm.len() && qm[t] == last;
    assert(model[mm.len() + fm.len() + t] == last);
    // No other intermediate is.
    if j + 1 < m {
        let other = AirConstraint::Equal(
            air.column_of(ColumnRole::SquaringIntermediate(i, j)) as usize,
            air.column_of(ColumnRole::QueryPoint(i)) as usize,
        );
        if model.contains(other) {
            let u = choose|u: int| 0 <= u < model.len() && model[u] == other;
            let sij = ColumnRole::SquaringIntermediate(i, j);
            if u < mm.len() {
                assert(mm[u] == other);
                lemma_flatten_member(ms, other);
                let p = choose|p: int| 0 <= p < ms.len() && #[trigger] ms[p].contains(other);
                let mp = air.merkle_paths@[p];
                assert(merkle_path_at(mp, merkle_start(pv, q, r) + p * merkle_path_width(m), m));
                let cs = merkle_path_constraints(mp, m);
                let k = choose|k: int| 0 <= k < cs.len() && cs[k] == other;
                let nb = mp.path_bits@.len() as int;
                assert(k >= nb);
                let jj = k - nb;
                lemma_columns_distinct_and_in_bounds(
                    air,
                    sij,
                    ColumnRole::MerkleIntermediate(p as nat, (m - 1) as nat, jj as nat),
                );
                assert(false);
            } else if u < mm.len() + fm.len() {
                assert(fm[u - mm.len()] == other);
                lemma_flatten_member(fs, other);
                let k = choose|k: int| 0 <= k < fs.len() && #[trigger] fs[k].contains(other);
                assert(fs[k] == folding_constraints(air.fri_foldings@[k]));
                assert(false);
            } else if u < mm.len() + fm.len() + qm.len() {
                assert(qm[u - mm.len() - fm.len()] == other);
                lemma_flatten_member(qs, other);
                let g = choose|g: int| 0 <= g < qs.len() && #[trigger] qs[g].contains(other);
                let qg = air.query_consistencies@[g];
                assert(query_at(qg, query_start(pv, q, r, m) + g * query_width(m), m));
                let cs = query_constraints(qg);
                let k = choose|k: int| 0 <= k < cs.len() && cs[k] == other;
                assert(k == qg.index_bits@.len());
                lemma_columns_distinct_and_in_bounds(
                    air,
                    sij,
                    ColumnRole::SquaringIntermediate(g as nat, (m - 1) as nat),
                );
                assert(false);
            } else {
                let k = u - mm.len() - fm.len() - qm.len();
                assert(cm[k] == other);
                lemma_columns_distinct_and_in_bounds(air, sij, ColumnRole::InnerRootFinal(k as nat));
                assert(false);
            }
        }
    }
}

/// Law: the AIR checks every Merkle path against its expected root, element
/// by element, at the last level, and checks every FRI folding step:
/// `challenge_times_odd = challenge * odd` and
/// `folded = even + challenge_times_odd`.
pub proof fn lemma_paths_and_foldings_enforced(air: RecursiveVerifierAir, p: nat, k: nat)
    requires
        air.wf(),
        p < air.num_fri_queries * air.num_fri_commit_rounds,
        k < 4,
    ensures
        0 < air.merkle_depth ==> air.constraint_model().contains(
            AirConstraint::Equal(
                air.column_of(ColumnRole::MerkleIntermediate(p, (air.merkle_depth - 1) as nat, k)) as usize,
                air.column_of(ColumnRole::MerkleRoot(p, k)) as usize,
            ),
        ),
        air.constraint_model().contains(
            AirConstraint::FoldProduct {
                product: air.column_of(ColumnRole::FoldingChallengeTimesOdd(p)) as usize,
                challenge: air.column_of(ColumnRole::FoldingChallenge(p)) as usize,
                odd: air.column_of(ColumnRole::FoldingOdd(p)) as usize,
            },
        ),
        air.constraint_model().contains(
            AirConstraint::FoldSum {
                folded: air.column_of(ColumnRole::FoldingFolded(p)) as usize,
                even: air.column_of(ColumnRole::FoldingEven(p)) as usize,
                product: air.column_of(ColumnRole::FoldingChallengeTimesOdd(p)) as usize,
            },
        ),
{
    let pv = air.num_public_values as int;
    let q = air.num_fri_queries as int;
    let r = air.num_fri_commit_rounds as int;
    let m = air.merkle_depth as int;
    let mf = |mp: MerklePathColumns| merkle_path_constraints(mp, m);
    let ff = |f: FriFoldingColumns| folding_constraints(f);
    let qf = |qc: QueryConsistencyColumns| query_constraints(qc);
    let ms = air.merkle_paths@.map_values(mf);
    let fs = air.fri_foldings@.map_values(ff);
    let qs = air.query_consistencies@.map_values(qf);
    let mm = ms.flatten();
    let fm = fs.flatten();
    let qm = qs.flatten();
    let cm = chain_constraints(air.chain_cols);
    let model = air.constraint_model();
    assert(model == mm + fm + qm + cm);
    let mp = air.merkle_paths@[p as int];
    assert(merkle_path_at(mp, merkle_start(pv, q, r) + p * merkle_path_width(m), m));
    if 0 < m {
        let x = AirConstraint::Equal(
            air.column_of(ColumnRole::MerkleIntermediate(p, (m - 1) as nat, k)) as usize,
            air.column_of(ColumnRole::MerkleRoot(p, k)) as usize,
        );
        assert(ms[p as int] == merkle_path_constraints(mp, m));
        assert(merkle_path_constraints(mp, m)[(mp.path_bits@.len() + k) as int] == x);
        lemma_flatten_has(ms, p as int, (mp.path_bits@.len() + k) as int);
        let t = choose|t: int| 0 <= t < mm.len() && mm[t] == x;
        assert(model[t] == x);
    }
    let f = air.fri_foldings@[p as int];
    assert(fs[p as int] == folding_constraints(f));
    let prod = AirConstraint::FoldProduct {
        product: air.column_of(ColumnRole::FoldingChallengeTimesOdd(p)) as usize,
        challenge: air.column_of(ColumnRole::FoldingChallenge(p)) as usize,
        odd: air.column_of(ColumnRole::FoldingOdd(p)) as usize,
    };
    let sum = AirConstraint::FoldSum {
        folded: air.column_of(ColumnRole::FoldingFolded(p)) as usize,
        even: air.column_of(ColumnRole::FoldingEven(p)) as usize,
        product: air.column_of(ColumnRole::FoldingChallengeTimesOdd(p)) as usize,
    };
    assert(folding_constraints(f)[0] == prod);
    assert(folding_constraints(f)[1] == sum);
    lemma_flatten_has(fs, p as int, 0);
    lemma_flatten_has(fs, p as int, 1);
    let t0 = choose|t: int| 0 <= t < fm.len() && fm[t] == prod;
    assert(model[mm.len() + t0] == prod);
    let t1 = choose|t: int| 0 <= t < fm.len() && fm[t] == sum;
    assert(model[mm.len() + t1] == sum);
}

} // verus!
