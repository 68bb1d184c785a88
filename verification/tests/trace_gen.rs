use vsel_proof::trace_gen::{encode_bytes_as_field_elements, next_power_of_two, witness_trace_length};
use vsel_proof::witness::{AuxiliaryComputation, Witness, WitnessInput};

#[test]
fn test_next_power_of_two() {
    assert_eq!(next_power_of_two(0), 1);
    assert_eq!(next_power_of_two(1), 1);
    assert_eq!(next_power_of_two(2), 2);
    assert_eq!(next_power_of_two(3), 4);
    assert_eq!(next_power_of_two(4), 4);
    assert_eq!(next_power_of_two(5), 8);
    assert_eq!(next_power_of_two(7), 8);
    assert_eq!(next_power_of_two(8), 8);
    assert_eq!(next_power_of_two(9), 16);
    assert_eq!(next_power_of_two(100), 128);
}

#[test]
fn test_encode_bytes_empty() {
    let elements = encode_bytes_as_field_elements(&[]);
    assert!(elements.is_empty());
}

#[test]
fn test_encode_bytes_small() {
    let elements = encode_bytes_as_field_elements(&[1, 2, 3]);
    assert_eq!(elements.len(), 1);
    let expected = u64::from_le_bytes([1, 2, 3, 0, 0, 0, 0, 0]);
    assert_eq!(elements[0].0, expected);
}

#[test]
fn test_encode_bytes_multiple_chunks() {
    let data: Vec<u8> = (0..14).collect();
    let elements = encode_bytes_as_field_elements(&data);
    assert_eq!(elements.len(), 2);
}

#[test]
fn encode_bytes_chunk_values_are_little_endian_seven_byte_groups() {
    let data: Vec<u8> = (1..=9).collect();
    let elements = encode_bytes_as_field_elements(&data);
    assert_eq!(elements.len(), 2);
    assert_eq!(elements[0].0, u64::from_le_bytes([1, 2, 3, 4, 5, 6, 7, 0]));
    assert_eq!(elements[1].0, u64::from_le_bytes([8, 9, 0, 0, 0, 0, 0, 0]));
    let all_ff = [0xffu8; 7];
    let e = encode_bytes_as_field_elements(&all_ff);
    assert_eq!(e[0].0, (1u64 << 56) - 1);
}

#[test]
fn next_power_of_two_of_large_values() {
    assert_eq!(next_power_of_two(1023), 1024);
    assert_eq!(next_power_of_two(1024), 1024);
    assert_eq!(next_power_of_two(1025), 2048);
}

#[test]
fn trace_length_is_input_count_at_least_one() {
    let empty = Witness {
        intermediate_states: vec![],
        input_sequence: vec![],
        aux_computation: AuxiliaryComputation::empty(),
    };
    assert_eq!(witness_trace_length(&empty), 1);
    let three = Witness {
        intermediate_states: vec![],
        input_sequence: (0..3)
            .map(|i| WitnessInput { payload_type: "transfer".to_string(), data: vec![i], nonce: i as u64 })
            .collect(),
        aux_computation: AuxiliaryComputation::empty(),
    };
    assert_eq!(witness_trace_length(&three), 3);
    let dims = vsel_proof::trace_gen::trace_dimensions(&three, 4);
    assert_eq!(dims, (4, 4));
}

fn layout() -> vsel_proof::trace_gen::ColumnMap {
    let named = |entries: &[(&str, usize)]| entries.iter().map(|(n, c)| (n.to_string(), *c)).collect::<Vec<_>>();
    vsel_proof::trace_gen::ColumnMap {
        total_cols: 8,
        witness_cols: named(&[
            ("input_payload_0", 0),
            ("input_nonce", 1),
            ("x", 2),
            ("payload_type", 3),
            ("state_commit_0", 4),
            ("timestamp", 5),
        ]),
        aux_cols: named(&[("aux_a", 6), ("__constraint_satisfaction_flag", 7)]),
    }
}

fn three_step_witness() -> Witness {
    let input = |nonce: u64| WitnessInput { payload_type: "t".to_string(), data: vec![1, 2, 3], nonce };
    Witness {
        intermediate_states: vec![vsel_proof::types::Hash([9; 32]), vsel_proof::types::Hash([9; 32])],
        input_sequence: vec![input(5), input(6), input(u64::MAX)],
        aux_computation: AuxiliaryComputation {
            values: vec![("aux_a".to_string(), vec![4]), ("other".to_string(), vec![5])],
        },
    }
}

fn states() -> Vec<vsel_proof::trace_gen::StateColumns> {
    let st = vsel_proof::trace_gen::StateColumns {
        commitment: vsel_proof::types::Hash([9; 32]),
        total_supply: 1000,
        timestamp: 77,
        block_height: 3,
    };
    vec![st, st]
}

#[test]
fn generated_trace_fills_active_rows_and_pads_with_zeros() {
    let trace = vsel_proof::trace_gen::generate_trace(&three_step_witness(), &states(), &layout());
    assert_eq!(trace.width, 8);
    assert_eq!(trace.height, 4);
    let v: Vec<u64> = trace.values.iter().map(|g| g.0).collect();
    let payload = u64::from_le_bytes([1, 2, 3, 0, 0, 0, 0, 0]);
    let commit = u64::from_le_bytes([9, 9, 9, 9, 9, 9, 9, 0]);
    assert_eq!(&v[0..8], &[payload, 5, payload, b't' as u64, commit, 77, 4, 1]);
    assert_eq!(&v[8..16], &[payload, 6, payload, b't' as u64, commit, 77, 4, 1]);
    // Step 2 has an input but no intermediate state; the nonce is reduced
    // modulo the Goldilocks prime.
    assert_eq!(&v[16..24], &[payload, u64::MAX - 0xFFFF_FFFF_0000_0001, payload, b't' as u64, 0, 0, 4, 1]);
    assert_eq!(&v[24..32], &[0; 8]);
}

#[test]
fn generated_trace_of_an_empty_witness_has_one_flagged_row() {
    let witness = Witness {
        intermediate_states: vec![],
        input_sequence: vec![],
        aux_computation: AuxiliaryComputation::empty(),
    };
    let trace = vsel_proof::trace_gen::generate_trace(&witness, &[], &layout());
    assert_eq!(trace.height, 1);
    let v: Vec<u64> = trace.values.iter().map(|g| g.0).collect();
    assert_eq!(v, vec![0, 0, 0, 0, 0, 0, 0, 1]);
}

fn test_witness(num_inputs: usize) -> Witness {
    let mut inputs = Vec::new();
    for i in 0..num_inputs {
        inputs.push(WitnessInput {
            payload_type: "transfer".to_string(),
            data: vec![(i & 0xFF) as u8, ((i >> 8) & 0xFF) as u8, 1, 2, 3],
            nonce: i as u64 + 1,
        });
    }
    let mut values = Vec::new();
    for i in 0..num_inputs {
        values.push((format!("post_commitment_{}", i), vec![(i + 100) as u8; 32]));
        values.push((format!("chain_hash_{}", i), vec![(i + 200) as u8; 32]));
    }
    values.sort();
    Witness { intermediate_states: vec![], input_sequence: inputs, aux_computation: AuxiliaryComputation { values } }
}

fn column_map(witness: &[(&str, usize)], aux: &[(&str, usize)], total_cols: usize) -> vsel_proof::trace_gen::ColumnMap {
    let named = |entries: &[(&str, usize)]| entries.iter().map(|(n, c)| (n.to_string(), *c)).collect::<Vec<_>>();
    vsel_proof::trace_gen::ColumnMap { total_cols, witness_cols: named(witness), aux_cols: named(aux) }
}

fn test_column_map() -> vsel_proof::trace_gen::ColumnMap {
    column_map(&[("x", 0), ("y", 1)], &[("__constraint_satisfaction_flag", 3)], 4)
}

fn trace_of(witness: &Witness, col_map: &vsel_proof::trace_gen::ColumnMap) -> vsel_proof::trace_gen::TraceMatrix {
    vsel_proof::trace_gen::generate_trace(witness, &[], col_map)
}

#[test]
fn test_generate_trace_empty_witness() {
    let witness = Witness { intermediate_states: vec![], input_sequence: vec![], aux_computation: AuxiliaryComputation::empty() };
    let col_map = test_column_map();
    let trace = trace_of(&witness, &col_map);
    assert_eq!(trace.height, 1);
    assert_eq!(trace.width, col_map.total_cols);
}

#[test]
fn test_generate_trace_single_input() {
    let col_map = test_column_map();
    let trace = trace_of(&test_witness(1), &col_map);
    assert_eq!(trace.height, 1);
    assert_eq!(trace.width, col_map.total_cols);
}

#[test]
fn test_generate_trace_three_inputs_padded_to_four() {
    let col_map = test_column_map();
    let trace = trace_of(&test_witness(3), &col_map);
    assert_eq!(trace.height, 4);
    assert_eq!(trace.width, col_map.total_cols);
}

#[test]
fn test_generate_trace_four_inputs_exact_power_of_two() {
    let trace = trace_of(&test_witness(4), &test_column_map());
    assert_eq!(trace.height, 4);
}

#[test]
fn test_generate_trace_five_inputs_padded_to_eight() {
    let trace = trace_of(&test_witness(5), &test_column_map());
    assert_eq!(trace.height, 8);
}

#[test]
fn test_constraint_satisfaction_flag_active_rows() {
    let col_map = test_column_map();
    let trace = trace_of(&test_witness(3), &col_map);
    let flag_col = 3;
    for row in 0..3 {
        assert_eq!(trace.values[row * col_map.total_cols + flag_col].0, 1, "row {} should have satisfaction flag = 1", row);
    }
}

#[test]
fn test_constraint_satisfaction_flag_padding_rows() {
    let col_map = test_column_map();
    let trace = trace_of(&test_witness(3), &col_map);
    assert_eq!(trace.values[3 * col_map.total_cols + 3].0, 0, "padding row should have flag = 0");
}

#[test]
fn test_padding_rows_are_zero() {
    let col_map = test_column_map();
    let trace = trace_of(&test_witness(3), &col_map);
    let padding_start = 3 * col_map.total_cols;
    for col in 0..col_map.total_cols {
        assert_eq!(trace.values[padding_start + col].0, 0, "padding row col {} should be zero", col);
    }
}

#[test]
fn test_encode_u64_zero() {
    assert_eq!(vsel_proof::trace_gen::encode_u64(0).0, 0);
}

#[test]
fn test_encode_u64_one() {
    assert_eq!(vsel_proof::trace_gen::encode_u64(1).0, 1);
}


#[test]
fn test_generate_trace_large_witness_padding() {
    let col_map = test_column_map();
    let trace = trace_of(&test_witness(100), &col_map);
    assert_eq!(trace.height, 128);
    for row in 0..100 {
        assert_eq!(trace.values[row * col_map.total_cols + 3].0, 1);
    }
    for row in 100..128 {
        assert_eq!(trace.values[row * col_map.total_cols + 3].0, 0);
    }
}

#[test]
fn test_witness_columns_filled_from_input() {
    let col_map = column_map(&[("input_payload_0", 0), ("input_nonce", 1)], &[("__constraint_satisfaction_flag", 2)], 3);
    let trace = trace_of(&test_witness(1), &col_map);
    assert_eq!(trace.values[1], vsel_proof::trace_gen::encode_u64(1));
    assert_ne!(trace.values[0].0, 0);
}

#[test]
fn test_auxiliary_columns_filled() {
    let col_map = column_map(
        &[],
        &[("post_commitment_0", 0), ("chain_hash_0", 1), ("__constraint_satisfaction_flag", 2)],
        3,
    );
    let trace = trace_of(&test_witness(1), &col_map);
    assert_ne!(trace.values[0].0, 0);
    assert_ne!(trace.values[1].0, 0);
}

#[test]
fn test_trace_matrix_total_elements() {
    let trace = trace_of(&test_witness(3), &test_column_map());
    assert_eq!(trace.values.len(), 4 * 4);
}

#[test]
fn test_trace_matrix_width_matches_column_map() {
    let col_map = test_column_map();
    let trace = trace_of(&test_witness(2), &col_map);
    assert_eq!(trace.width, col_map.total_cols);
}
