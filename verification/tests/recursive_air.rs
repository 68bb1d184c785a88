use vsel_proof::recursive_air::{
    AirConstraint, RecursiveVerifierAir, DEFAULT_MERKLE_DEPTH, POSEIDON2_DIGEST_ELEMENTS,
    STATE_ROOT_ELEMENTS,
};

/// Default test parameters matching VSEL Plonky3 configuration.
const TEST_INNER_WIDTH: usize = 10;
const TEST_FRI_QUERIES: usize = 4; // Small for tests
const TEST_FRI_ROUNDS: usize = 3;
const TEST_MERKLE_DEPTH: usize = 5;
const TEST_PUBLIC_VALUES: usize = 15;

fn test_air() -> RecursiveVerifierAir {
    RecursiveVerifierAir::new(
        TEST_INNER_WIDTH,
        TEST_FRI_QUERIES,
        TEST_FRI_ROUNDS,
        TEST_MERKLE_DEPTH,
        TEST_PUBLIC_VALUES,
    )
}

// -----------------------------------------------------------------------
// Construction tests
// -----------------------------------------------------------------------

#[test]
fn test_new_creates_valid_air() {
    let air = test_air();
    assert_eq!(air.inner_air_width(), TEST_INNER_WIDTH);
    assert_eq!(air.num_fri_queries(), TEST_FRI_QUERIES);
    assert_eq!(air.num_fri_commit_rounds(), TEST_FRI_ROUNDS);
    assert_eq!(air.merkle_depth(), TEST_MERKLE_DEPTH);
    assert_eq!(air.get_num_public_values(), TEST_PUBLIC_VALUES);
}

#[test]
fn test_trace_width_positive() {
    let air = test_air();
    assert!(air.trace_width() > 0);
}

#[test]
fn test_trace_width_includes_all_column_groups() {
    let air = test_air();
    let width = air.trace_width();

    // Width must be at least:
    // public inputs + FRI commitments + query responses + state chain
    let min_width = TEST_PUBLIC_VALUES
        + TEST_FRI_ROUNDS * POSEIDON2_DIGEST_ELEMENTS
        + TEST_FRI_QUERIES * TEST_FRI_ROUNDS
        + 2 * STATE_ROOT_ELEMENTS;

    assert!(
        width >= min_width,
        "trace width {} should be >= minimum {}",
        width,
        min_width
    );
}

#[test]
fn test_state_chain_columns_valid() {
    let air = test_air();
    let chain = air.chain_cols();

    assert_eq!(chain.inner_root_final.len(), STATE_ROOT_ELEMENTS);
    assert_eq!(chain.outer_root_init.len(), STATE_ROOT_ELEMENTS);

    // All column indices should be within bounds.
    for &col in &chain.inner_root_final {
        assert!(col < air.trace_width());
    }
    for &col in &chain.outer_root_init {
        assert!(col < air.trace_width());
    }

    // Inner and outer columns should not overlap.
    for &inner_col in &chain.inner_root_final {
        for &outer_col in &chain.outer_root_init {
            assert_ne!(inner_col, outer_col);
        }
    }
}

#[test]
fn test_column_indices_unique() {
    let air = test_air();

    // Collect all column indices used by the AIR.
    let mut all_cols = Vec::new();

    // Public input columns.
    for i in 0..air.num_public_input_cols {
        all_cols.push(air.public_input_offset + i);
    }

    // FRI commitment columns.
    for i in 0..air.num_fri_commitment_cols {
        all_cols.push(air.fri_commitment_offset + i);
    }

    // Query response columns.
    for i in 0..air.num_query_response_cols {
        all_cols.push(air.query_response_offset + i);
    }

    // State chain columns.
    all_cols.extend(&air.chain_cols.inner_root_final);
    all_cols.extend(&air.chain_cols.outer_root_init);

    // Verify no duplicates among the explicitly tracked groups.
    let mut sorted = all_cols.clone();
    sorted.sort();
    sorted.dedup();
    assert_eq!(
        all_cols.len(),
        sorted.len(),
        "column indices should be unique"
    );
}

#[test]
fn test_merkle_paths_count() {
    let air = test_air();
    // One Merkle path per query per round.
    assert_eq!(
        air.merkle_paths.len(),
        TEST_FRI_QUERIES * TEST_FRI_ROUNDS
    );
}

#[test]
fn test_fri_foldings_count() {
    let air = test_air();
    // One folding check per query per round.
    assert_eq!(
        air.fri_foldings.len(),
        TEST_FRI_QUERIES * TEST_FRI_ROUNDS
    );
}

#[test]
fn test_query_consistencies_count() {
    let air = test_air();
    // One consistency check per query.
    assert_eq!(air.query_consistencies.len(), TEST_FRI_QUERIES);
}

// -----------------------------------------------------------------------
// BaseAir trait tests
// -----------------------------------------------------------------------

#[test]
fn test_with_defaults() {
    let air = RecursiveVerifierAir::with_defaults(10, 15);
    assert_eq!(air.inner_air_width(), 10);
    assert_eq!(air.num_fri_queries(), 34);
    assert_eq!(air.merkle_depth(), DEFAULT_MERKLE_DEPTH);
    assert_eq!(air.get_num_public_values(), 15);
}

#[test]
fn test_with_defaults_trace_width_reasonable() {
    let air = RecursiveVerifierAir::with_defaults(10, 15);
    // With 34 queries, 10 rounds, depth 20, the trace should be
    // substantial but not unreasonably large.
    let width = air.trace_width();
    assert!(width > 100, "width {} should be > 100", width);
    // Upper bound sanity check: should be less than 1M columns.
    assert!(width < 1_000_000, "width {} should be < 1M", width);
}

// -----------------------------------------------------------------------
// Merkle path column structure tests
// -----------------------------------------------------------------------

#[test]
fn test_merkle_path_leaf_size() {
    let air = test_air();
    for mp in &air.merkle_paths {
        assert_eq!(mp.leaf.len(), POSEIDON2_DIGEST_ELEMENTS);
    }
}

#[test]
fn test_merkle_path_expected_root_size() {
    let air = test_air();
    for mp in &air.merkle_paths {
        assert_eq!(mp.expected_root.len(), POSEIDON2_DIGEST_ELEMENTS);
    }
}

#[test]
fn test_merkle_path_siblings_depth() {
    let air = test_air();
    for mp in &air.merkle_paths {
        assert_eq!(mp.siblings.len(), TEST_MERKLE_DEPTH);
        for sibling in &mp.siblings {
            assert_eq!(sibling.len(), POSEIDON2_DIGEST_ELEMENTS);
        }
    }
}

#[test]
fn test_merkle_path_bits_depth() {
    let air = test_air();
    for mp in &air.merkle_paths {
        assert_eq!(mp.path_bits.len(), TEST_MERKLE_DEPTH);
    }
}

#[test]
fn test_merkle_path_intermediates_depth() {
    let air = test_air();
    for mp in &air.merkle_paths {
        assert_eq!(mp.intermediates.len(), TEST_MERKLE_DEPTH);
        for intermediate in &mp.intermediates {
            assert_eq!(intermediate.len(), POSEIDON2_DIGEST_ELEMENTS);
        }
    }
}

// -----------------------------------------------------------------------
// FRI folding column structure tests
// -----------------------------------------------------------------------

#[test]
fn test_fri_folding_columns_distinct() {
    let air = test_air();
    for ff in &air.fri_foldings {
        let cols = vec![
            ff.even_eval,
            ff.odd_eval,
            ff.folded_eval,
            ff.challenge,
            ff.challenge_times_odd,
        ];
        let mut unique = cols.clone();
        unique.sort();
        unique.dedup();
        assert_eq!(cols.len(), unique.len(), "FRI folding columns must be distinct");
    }
}

// -----------------------------------------------------------------------
// Query consistency column structure tests
// -----------------------------------------------------------------------

#[test]
fn test_query_consistency_index_bits_count() {
    let air = test_air();
    for qc in &air.query_consistencies {
        assert_eq!(qc.index_bits.len(), TEST_MERKLE_DEPTH);
    }
}

#[test]
fn test_query_consistency_squaring_intermediates_count() {
    let air = test_air();
    for qc in &air.query_consistencies {
        assert_eq!(qc.squaring_intermediates.len(), TEST_MERKLE_DEPTH);
    }
}

// -----------------------------------------------------------------------
// Edge case tests
// -----------------------------------------------------------------------

#[test]
fn test_zero_queries() {
    let air = RecursiveVerifierAir::new(10, 0, 3, 5, 15);
    assert_eq!(air.num_fri_queries(), 0);
    assert_eq!(air.merkle_paths.len(), 0);
    assert_eq!(air.fri_foldings.len(), 0);
    assert_eq!(air.query_consistencies.len(), 0);
    // Should still have public input + FRI commitment + state chain columns.
    assert!(air.trace_width() > 0);
}

#[test]
fn test_zero_rounds() {
    let air = RecursiveVerifierAir::new(10, 4, 0, 5, 15);
    assert_eq!(air.num_fri_commit_rounds(), 0);
    assert_eq!(air.merkle_paths.len(), 0);
    assert_eq!(air.fri_foldings.len(), 0);
}

#[test]
fn test_zero_merkle_depth() {
    let air = RecursiveVerifierAir::new(10, 4, 3, 0, 15);
    assert_eq!(air.merkle_depth(), 0);
    // Merkle paths should have no siblings, bits, or intermediates.
    for mp in &air.merkle_paths {
        assert_eq!(mp.siblings.len(), 0);
        assert_eq!(mp.path_bits.len(), 0);
        assert_eq!(mp.intermediates.len(), 0);
    }
}

#[test]
fn test_single_query_single_round() {
    let air = RecursiveVerifierAir::new(5, 1, 1, 3, 10);
    assert_eq!(air.merkle_paths.len(), 1);
    assert_eq!(air.fri_foldings.len(), 1);
    assert_eq!(air.query_consistencies.len(), 1);
}

// -----------------------------------------------------------------------
// State chaining AIR constraint tests (Task 11.2)
// -----------------------------------------------------------------------
//
// These tests verify that state chaining (`inner_proof.root_final ==
// outer_proof.root_init`) is enforced as an AIR polynomial constraint
// within the outer proof circuit — not merely a runtime check.
//
// The AIR constraint is emitted in `eval()` section 4 as:
//   inner_root_final[i] - outer_root_init[i] = 0
// for each of the STATE_ROOT_ELEMENTS (5) elements.

#[test]
fn test_state_chain_constraint_covers_all_elements() {
    // Verify that the state chain columns have exactly
    // STATE_ROOT_ELEMENTS entries for both inner and outer roots.
    // This ensures the AIR constraint loop in eval() covers every
    // element — no partial enforcement.
    let air = test_air();
    let chain = air.chain_cols();

    assert_eq!(
        chain.inner_root_final.len(),
        STATE_ROOT_ELEMENTS,
        "inner_root_final must have exactly STATE_ROOT_ELEMENTS columns"
    );
    assert_eq!(
        chain.outer_root_init.len(),
        STATE_ROOT_ELEMENTS,
        "outer_root_init must have exactly STATE_ROOT_ELEMENTS columns"
    );
}

#[test]
fn test_state_chain_columns_are_distinct_from_each_other() {
    // The inner_root_final and outer_root_init columns must be
    // distinct — otherwise the constraint `inner[i] - outer[i] = 0`
    // would be trivially satisfied (same column minus itself = 0)
    // and the state chain would not actually be enforced.
    let air = test_air();
    let chain = air.chain_cols();

    for i in 0..STATE_ROOT_ELEMENTS {
        assert_ne!(
            chain.inner_root_final[i],
            chain.outer_root_init[i],
            "inner_root_final[{}] and outer_root_init[{}] must be distinct columns \
             to enforce a non-trivial equality constraint",
            i, i
        );
    }
}

#[test]
fn test_state_chain_columns_no_internal_overlap() {
    // Within each root vector, all column indices must be unique.
    // Overlapping columns would mean two root elements share a
    // column, breaking the element-wise equality semantics.
    let air = test_air();
    let chain = air.chain_cols();

    let mut inner_sorted = chain.inner_root_final.clone();
    inner_sorted.sort();
    inner_sorted.dedup();
    assert_eq!(
        inner_sorted.len(),
        chain.inner_root_final.len(),
        "inner_root_final column indices must all be unique"
    );

    let mut outer_sorted = chain.outer_root_init.clone();
    outer_sorted.sort();
    outer_sorted.dedup();
    assert_eq!(
        outer_sorted.len(),
        chain.outer_root_init.len(),
        "outer_root_init column indices must all be unique"
    );
}

#[test]
fn test_state_chain_columns_contiguous_allocation() {
    // Verify that state chain columns are allocated contiguously
    // at the end of the trace (after all other column groups).
    // This matches the trace layout documented in the module header.
    let air = test_air();
    let chain = air.chain_cols();
    let width = air.trace_width();

    // The state chain columns should be the last 2 * STATE_ROOT_ELEMENTS
    // columns in the trace.
    let expected_start = width - 2 * STATE_ROOT_ELEMENTS;

    // inner_root_final should start at expected_start.
    for (i, &col) in chain.inner_root_final.iter().enumerate() {
        assert_eq!(
            col,
            expected_start + i,
            "inner_root_final[{}] should be at column {}",
            i,
            expected_start + i
        );
    }

    // outer_root_init should follow immediately after.
    for (i, &col) in chain.outer_root_init.iter().enumerate() {
        assert_eq!(
            col,
            expected_start + STATE_ROOT_ELEMENTS + i,
            "outer_root_init[{}] should be at column {}",
            i,
            expected_start + STATE_ROOT_ELEMENTS + i
        );
    }
}

#[test]
fn test_state_chain_columns_do_not_overlap_other_groups() {
    // Verify that state chain columns don't overlap with public
    // input, FRI commitment, or query response column ranges.
    let air = test_air();
    let chain = air.chain_cols();

    let pi_end = air.public_input_offset() + air.get_num_public_values();
    let fri_end = air.fri_commitment_offset()
        + TEST_FRI_ROUNDS * POSEIDON2_DIGEST_ELEMENTS;
    let qr_end = air.query_response_offset()
        + TEST_FRI_QUERIES * TEST_FRI_ROUNDS;

    let other_range_end = pi_end.max(fri_end).max(qr_end);

    for &col in chain.inner_root_final.iter().chain(chain.outer_root_init.iter()) {
        assert!(
            col >= other_range_end,
            "state chain column {} overlaps with other column groups (end at {})",
            col,
            other_range_end
        );
    }
}

#[test]
fn test_state_chain_present_with_zero_queries() {
    // Even with zero FRI queries (degenerate case), the state
    // chain columns must still be allocated and the constraint
    // must still be enforceable.
    let air = RecursiveVerifierAir::new(10, 0, 0, 0, 15);
    let chain = air.chain_cols();

    assert_eq!(chain.inner_root_final.len(), STATE_ROOT_ELEMENTS);
    assert_eq!(chain.outer_root_init.len(), STATE_ROOT_ELEMENTS);

    // Columns must be within bounds.
    for &col in chain.inner_root_final.iter().chain(chain.outer_root_init.iter()) {
        assert!(col < air.trace_width());
    }

    // Inner and outer must be distinct.
    for i in 0..STATE_ROOT_ELEMENTS {
        assert_ne!(chain.inner_root_final[i], chain.outer_root_init[i]);
    }
}

#[test]
fn test_state_chain_present_with_defaults() {
    // Verify state chain columns are correctly allocated with
    // the production-like default parameters.
    let air = RecursiveVerifierAir::with_defaults(10, 15);
    let chain = air.chain_cols();

    assert_eq!(chain.inner_root_final.len(), STATE_ROOT_ELEMENTS);
    assert_eq!(chain.outer_root_init.len(), STATE_ROOT_ELEMENTS);

    for i in 0..STATE_ROOT_ELEMENTS {
        assert!(chain.inner_root_final[i] < air.trace_width());
        assert!(chain.outer_root_init[i] < air.trace_width());
        assert_ne!(chain.inner_root_final[i], chain.outer_root_init[i]);
    }
}

#[test]
fn test_state_chain_element_count_matches_state_root_encoding() {
    // STATE_ROOT_ELEMENTS = 5 corresponds to encoding a 32-byte
    // hash as Goldilocks field elements using 7-byte chunks:
    // ceil(32/7) = 5. Verify this constant is correct.
    assert_eq!(
        STATE_ROOT_ELEMENTS, 5,
        "STATE_ROOT_ELEMENTS should be 5 (ceil(32/7) for 32-byte hash)"
    );

    // Verify both column vectors match this constant.
    let air = test_air();
    let chain = air.chain_cols();
    assert_eq!(chain.inner_root_final.len(), 5);
    assert_eq!(chain.outer_root_init.len(), 5);
}

// -----------------------------------------------------------------------
// Comprehensive column bounds test
// -----------------------------------------------------------------------

#[test]
fn test_all_column_indices_in_bounds() {
    let air = test_air();
    let width = air.trace_width();

    // Check Merkle path columns.
    for mp in &air.merkle_paths {
        for &col in &mp.leaf { assert!(col < width, "leaf col {} >= width {}", col, width); }
        for &col in &mp.expected_root { assert!(col < width); }
        for sibling in &mp.siblings {
            for &col in sibling { assert!(col < width); }
        }
        for &col in &mp.path_bits { assert!(col < width); }
        for intermediate in &mp.intermediates {
            for &col in intermediate { assert!(col < width); }
        }
    }

    // Check FRI folding columns.
    for ff in &air.fri_foldings {
        assert!(ff.even_eval < width);
        assert!(ff.odd_eval < width);
        assert!(ff.folded_eval < width);
        assert!(ff.challenge < width);
        assert!(ff.challenge_times_odd < width);
    }

    // Check query consistency columns.
    for qc in &air.query_consistencies {
        assert!(qc.query_point < width);
        assert!(qc.domain_generator < width);
        for &col in &qc.index_bits { assert!(col < width); }
        for &col in &qc.squaring_intermediates { assert!(col < width); }
    }

    // Check state chain columns.
    for &col in &air.chain_cols.inner_root_final { assert!(col < width); }
    for &col in &air.chain_cols.outer_root_init { assert!(col < width); }
}

// -----------------------------------------------------------------------
// Layout and constraint list on concrete parameters
// -----------------------------------------------------------------------

#[test]
fn layout_exact_offsets_small_air() {
    // pv = 2, q = 1, r = 1, m = 1
    let air = RecursiveVerifierAir::new(3, 1, 1, 1, 2);
    assert_eq!(air.public_input_offset(), 0);
    assert_eq!(air.fri_commitment_offset(), 2);
    assert_eq!(air.query_response_offset(), 6);
    let mp = &air.merkle_paths[0];
    assert_eq!(mp.leaf, vec![7, 8, 9, 10]);
    assert_eq!(mp.expected_root, vec![11, 12, 13, 14]);
    assert_eq!(mp.siblings, vec![vec![15, 16, 17, 18]]);
    assert_eq!(mp.path_bits, vec![19]);
    assert_eq!(mp.intermediates, vec![vec![20, 21, 22, 23]]);
    let ff = &air.fri_foldings[0];
    assert_eq!(
        (ff.even_eval, ff.odd_eval, ff.folded_eval, ff.challenge, ff.challenge_times_odd),
        (24, 25, 26, 27, 28)
    );
    let qc = &air.query_consistencies[0];
    assert_eq!((qc.query_point, qc.domain_generator), (29, 30));
    assert_eq!(qc.index_bits, vec![31]);
    assert_eq!(qc.squaring_intermediates, vec![32]);
    assert_eq!(air.chain_cols().inner_root_final, vec![33, 34, 35, 36, 37]);
    assert_eq!(air.chain_cols().outer_root_init, vec![38, 39, 40, 41, 42]);
    assert_eq!(air.trace_width(), 43);
}

#[test]
fn with_defaults_trace_width_exact() {
    // 15 + 40 + 340 + 340 * 188 + 5 * 340 + 34 * 42 + 10
    let air = RecursiveVerifierAir::with_defaults(10, 15);
    assert_eq!(air.trace_width(), 67_453);
}

#[test]
fn constraints_include_state_chain_equalities() {
    let air = RecursiveVerifierAir::new(10, 4, 3, 5, 15);
    let cs = air.constraints();
    let chain = air.chain_cols();
    for i in 0..STATE_ROOT_ELEMENTS {
        let eq = AirConstraint::Equal(chain.inner_root_final[i], chain.outer_root_init[i]);
        assert!(cs.contains(&eq));
        assert_ne!(chain.inner_root_final[i], chain.outer_root_init[i]);
    }
    // The state chain equalities come last.
    assert_eq!(
        cs[cs.len() - 1],
        AirConstraint::Equal(chain.inner_root_final[4], chain.outer_root_init[4])
    );
}

#[test]
fn constraints_count_matches_layout() {
    let (q, r, m) = (4usize, 3usize, 5usize);
    let air = RecursiveVerifierAir::new(10, q, r, m, 15);
    let cs = air.constraints();
    // per Merkle path: m booleans + 4 root equalities; per folding step: 2;
    // per query: m booleans + 1 final equality; 5 state chain equalities.
    assert_eq!(cs.len(), q * r * (m + 4) + 2 * q * r + q * (m + 1) + 5);
}

#[test]
fn constraints_zero_depth_have_no_root_checks() {
    let air = RecursiveVerifierAir::new(10, 2, 2, 0, 3);
    let cs = air.constraints();
    // no path bits, no root checks, no index bits, no squaring check
    assert_eq!(cs.len(), 2 * 2 * 2 + 5);
    let ff = &air.fri_foldings[0];
    assert_eq!(
        cs[0],
        AirConstraint::FoldProduct {
            product: ff.challenge_times_odd,
            challenge: ff.challenge,
            odd: ff.odd_eval
        }
    );
    assert_eq!(
        cs[1],
        AirConstraint::FoldSum {
            folded: ff.folded_eval,
            even: ff.even_eval,
            product: ff.challenge_times_odd
        }
    );
}

#[test]
fn constraints_merkle_root_consistency() {
    let air = RecursiveVerifierAir::new(10, 1, 1, 2, 0);
    let cs = air.constraints();
    let mp = &air.merkle_paths[0];
    assert_eq!(cs[0], AirConstraint::Boolean(mp.path_bits[0]));
    assert_eq!(cs[1], AirConstraint::Boolean(mp.path_bits[1]));
    for j in 0..POSEIDON2_DIGEST_ELEMENTS {
        assert_eq!(cs[2 + j], AirConstraint::Equal(mp.intermediates[1][j], mp.expected_root[j]));
    }
    let _ = DEFAULT_MERKLE_DEPTH;
}
