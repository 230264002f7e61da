use circuit_prover::field::FieldElement;
use circuit_prover::keystore::{frame_proving_key, read_run};
use circuit_prover::matrices::{
    holds_entries, read_count, read_entries, read_entry, read_matrices, read_matrix, read_row,
    rows_within, ConstraintMatrices, Entry, MatricesParts,
};
use circuit_prover::wire::{read_field, read_u64};

fn word(n: u64) -> Vec<u8> {
    n.to_le_bytes().to_vec()
}

fn entry(coefficient: u64, column: u64) -> Vec<u8> {
    let mut bytes = word(coefficient);
    bytes.extend_from_slice(&[0u8; 24]);
    bytes.extend_from_slice(&word(column));
    bytes
}

fn matrix(rows: &[Vec<(u64, u64)>]) -> Vec<u8> {
    let mut bytes = word(rows.len() as u64);
    for row in rows {
        bytes.extend_from_slice(&word(row.len() as u64));
        for (coefficient, column) in row {
            bytes.extend_from_slice(&entry(*coefficient, *column));
        }
    }
    bytes
}

fn section() -> Vec<u8> {
    let mut bytes = Vec::new();
    for count in [2u64, 2, 2, 3, 1, 0] {
        bytes.extend_from_slice(&word(count));
    }
    bytes.extend_from_slice(&matrix(&[vec![(1, 2), (5, 3)], vec![(7, 0)]]));
    bytes.extend_from_slice(&matrix(&[vec![], vec![(9, 1)]]));
    bytes.extend_from_slice(&matrix(&[]));
    bytes
}

fn made(coefficient: u64, column: usize) -> Entry {
    Entry { coefficient: FieldElement::from_u64(coefficient), column }
}

#[test]
fn word_is_little_endian() {
    let bytes = [0xaa, 0x01, 0x02, 0x03, 0x04, 0x05, 0x06, 0x07, 0x08, 0xbb];
    assert_eq!(read_u64(&bytes, 1), Some(0x0807_0605_0403_0201));
    assert_eq!(read_u64(&bytes, 0), Some(0x0706_0504_0302_01aa));
    assert_eq!(read_u64(&bytes, 2), Some(0xbb08_0706_0504_0302));
    assert_eq!(read_u64(&bytes, 3), None);
    assert_eq!(read_u64(&bytes, 11), None);
    assert_eq!(read_u64(&bytes, usize::MAX), None);
    assert_eq!(read_u64(&[0xff; 8], 0), Some(u64::MAX));
}

#[test]
fn field_element_is_little_endian_and_below_the_order() {
    let mut bytes = vec![0u8; 33];
    bytes[1] = 0x34;
    bytes[2] = 0x12;
    bytes[9] = 0x01;
    assert_eq!(read_field(&bytes, 1), FieldElement::from_limbs([0x1234, 1, 0, 0]));
    assert!(read_field(&bytes, 1).is_some());
    assert_eq!(read_field(&bytes, 2), None);
    let order: [u64; 4] = [
        0x43e1_f593_f000_0001,
        0x2833_e848_79b9_7091,
        0xb850_45b6_8181_585d,
        0x3064_4e72_e131_a029,
    ];
    let mut at_order = Vec::new();
    for limb in order {
        at_order.extend_from_slice(&limb.to_le_bytes());
    }
    assert_eq!(read_field(&at_order, 0), None);
    at_order[0] = 0;
    assert_eq!(
        read_field(&at_order, 0),
        FieldElement::from_limbs([order[0] - 1, order[1], order[2], order[3]])
    );
    assert!(read_field(&at_order, 0).is_some());
    assert_eq!(read_field(&[0xff; 32], 0), None);
}

#[test]
fn entry_is_coefficient_then_column() {
    let mut bytes = vec![0xee];
    bytes.extend_from_slice(&entry(5, 3));
    assert_eq!(read_entry(&bytes, 1), Some(made(5, 3)));
    assert_eq!(read_entry(&bytes, 0), Some(made(0x05ee, 0x0300)));
    assert_eq!(read_entry(&bytes, 2), None);
    assert_eq!(read_entry(&bytes[..40], 1), None);
}

#[test]
fn entries_are_read_in_their_order() {
    let mut bytes = entry(5, 3);
    bytes.extend_from_slice(&entry(6, 4));
    assert_eq!(read_entries(&bytes, 0, 2), Some(vec![made(5, 3), made(6, 4)]));
    assert_eq!(read_entries(&bytes, 40, 1), Some(vec![made(6, 4)]));
    assert_eq!(read_entries(&bytes, 0, 0), Some(Vec::new()));
    assert_eq!(read_entries(&bytes, 80, 0), Some(Vec::new()));
    assert_eq!(read_entries(&bytes, 1000, 0), Some(Vec::new()));
    assert_eq!(read_entries(&bytes, 1000, 1), None);
    assert_eq!(read_entries(&bytes, 0, 3), None);
    assert_eq!(read_entries(&bytes, 0, u64::MAX), None);
}

#[test]
fn row_is_a_count_and_its_entries() {
    let mut bytes = word(2);
    bytes.extend_from_slice(&entry(5, 3));
    bytes.extend_from_slice(&entry(6, 4));
    bytes.push(0xee);
    assert_eq!(read_row(&bytes, 0), Some((vec![made(5, 3), made(6, 4)], 88)));
    assert_eq!(read_row(&bytes[..87], 0), None);
    assert_eq!(read_row(&word(0), 0), Some((Vec::new(), 8)));
    assert_eq!(read_row(&word(1), 0), None);
}

#[test]
fn matrix_is_a_count_and_its_rows() {
    let bytes = matrix(&[vec![(1, 2), (5, 3)], vec![], vec![(7, 0)]]);
    let expected = vec![vec![made(1, 2), made(5, 3)], vec![], vec![made(7, 0)]];
    assert_eq!(read_matrix(&bytes, 0), Some((expected, 8 + 88 + 8 + 48)));
    assert_eq!(read_matrix(&bytes[..bytes.len() - 1], 0), None);
    assert_eq!(read_matrix(&word(0), 0), Some((Vec::new(), 8)));
    assert_eq!(read_matrix(&word(u64::MAX), 0), None);
}

#[test]
fn count_is_a_word() {
    assert_eq!(read_count(&word(17), 0), Some(17));
    assert_eq!(read_count(&word(17)[..7], 0), None);
}

#[test]
fn section_is_six_counts_and_three_matrices() {
    let mut bytes = vec![0xee, 0xee];
    bytes.extend_from_slice(&section());
    bytes.push(0xee);
    let (parts, after) = read_matrices(&bytes, 2).unwrap();
    assert_eq!(after, bytes.len() - 1);
    assert_eq!(parts.num_instance_variables, 2);
    assert_eq!(parts.num_witness_variables, 2);
    assert_eq!(parts.num_constraints, 2);
    assert_eq!(parts.a_num_non_zero, 3);
    assert_eq!(parts.b_num_non_zero, 1);
    assert_eq!(parts.c_num_non_zero, 0);
    assert_eq!(parts.a, vec![vec![made(1, 2), made(5, 3)], vec![made(7, 0)]]);
    assert_eq!(parts.b, vec![vec![], vec![made(9, 1)]]);
    assert!(parts.c.is_empty());
}

#[test]
fn section_that_is_cut_short_is_not_read() {
    let bytes = section();
    for length in 0..bytes.len() {
        assert!(read_matrices(&bytes[..length], 0).is_none(), "length {}", length);
    }
    assert!(read_matrices(&bytes, 1).is_none());
    assert!(read_matrices(&bytes, bytes.len() + 1).is_none());
}

#[test]
fn matrices_are_accepted_where_the_counts_hold() {
    let (parts, _) = read_matrices(&section(), 0).unwrap();
    let matrices = ConstraintMatrices::new(parts).unwrap();
    assert_eq!(matrices.num_instance_variables(), 2);
    assert_eq!(matrices.num_witness_variables(), 2);
    assert_eq!(matrices.num_constraints(), 2);
    assert_eq!(matrices.parts().a_num_non_zero, 3);
    assert!(matrices.columns_within(4));
    assert!(!matrices.columns_within(3));
}

#[test]
fn matrices_are_turned_away_where_a_count_is_wrong() {
    let wrong = [
        MatricesParts {
            num_instance_variables: 1,
            num_witness_variables: 1,
            num_constraints: 1,
            a_num_non_zero: 2,
            b_num_non_zero: 0,
            c_num_non_zero: 0,
            a: vec![vec![made(1, 0)]],
            b: Vec::new(),
            c: Vec::new(),
        },
        MatricesParts {
            num_instance_variables: 1,
            num_witness_variables: 1,
            num_constraints: 1,
            a_num_non_zero: 1,
            b_num_non_zero: 0,
            c_num_non_zero: 0,
            a: vec![vec![made(1, 0)]],
            b: vec![vec![made(1, 0)]],
            c: Vec::new(),
        },
        MatricesParts {
            num_instance_variables: 1,
            num_witness_variables: 1,
            num_constraints: 1,
            a_num_non_zero: 1,
            b_num_non_zero: 0,
            c_num_non_zero: usize::MAX,
            a: vec![vec![made(1, 0)]],
            b: Vec::new(),
            c: vec![vec![made(1, 0), made(2, 0)]],
        },
    ];
    for parts in wrong {
        assert!(ConstraintMatrices::new(parts).is_none());
    }
}

#[test]
fn entries_are_counted_over_all_rows() {
    let rows = vec![vec![made(1, 0), made(2, 1)], vec![], vec![made(3, 9)]];
    assert!(holds_entries(&rows, 3));
    assert!(!holds_entries(&rows, 2));
    assert!(!holds_entries(&rows, 4));
    assert!(!holds_entries(&rows, 0));
    assert!(holds_entries(&Vec::new(), 0));
    assert!(rows_within(&rows, 10));
    assert!(!rows_within(&rows, 9));
    assert!(rows_within(&Vec::new(), 0));
}

#[test]
fn run_is_a_count_and_items_of_one_width() {
    let mut bytes = word(3);
    bytes.extend_from_slice(&[0u8; 96]);
    assert_eq!(read_run(&bytes, 0, 32), Some((3, 104)));
    assert_eq!(read_run(&bytes[..103], 0, 32), None);
    assert_eq!(read_run(&bytes, 0, 33), None);
    assert_eq!(read_run(&word(0), 0, 64), Some((0, 8)));
    assert_eq!(read_run(&word(u64::MAX), 0, 64), None);
    assert_eq!(read_run(&word(u64::MAX / 64 + 1), 0, 64), None);
}

#[test]
fn proving_key_section_is_walked_to_its_end() {
    // A verifying key with two input points, then two points, then runs of
    // 3, 3, 3, 4 and 1 points.
    let mut bytes = vec![0u8; 224];
    bytes.extend_from_slice(&word(2));
    bytes.extend_from_slice(&[0u8; 64]);
    bytes.extend_from_slice(&[0u8; 64]);
    for (count, width) in [(3u64, 32usize), (3, 32), (3, 64), (4, 32), (1, 32)] {
        bytes.extend_from_slice(&word(count));
        bytes.extend_from_slice(&vec![0u8; count as usize * width]);
    }
    let length = bytes.len();
    assert_eq!(length, 224 + 8 + 64 + 64 + 5 * 8 + 96 + 96 + 192 + 128 + 32);
    assert_eq!(frame_proving_key(&bytes), Some(length));
    bytes.extend_from_slice(&[1, 2, 3]);
    assert_eq!(frame_proving_key(&bytes), Some(length));
    for cut in 0..length {
        assert_eq!(frame_proving_key(&bytes[..cut]), None, "length {}", cut);
    }
}
