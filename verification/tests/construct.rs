use train_record::record::Record;
use train_record::shape::ZERO;

fn scalar_count(record: &Record) -> usize {
    let mut total = 0;
    for sequence in &record.batches {
        for step in sequence {
            total += step.len();
        }
    }
    total
}

fn assert_shape(record: &Record, batch_size: usize, time_step: usize, input_dim: usize) {
    assert_eq!(record.batches.len(), batch_size);
    for sequence in &record.batches {
        assert_eq!(sequence.len(), time_step);
        for step in sequence {
            assert_eq!(step.len(), input_dim);
        }
    }
}

fn assert_all_zero(record: &Record) {
    for sequence in &record.batches {
        for step in sequence {
            for &bits in step {
                assert_eq!(bits, ZERO);
                assert_eq!(bits, 0.0f32.to_bits());
                assert_eq!(f32::from_bits(bits), 0.0f32);
            }
        }
    }
}

#[test]
fn zero_constant_is_positive_zero() {
    assert_eq!(ZERO, 0u32);
    assert_eq!(ZERO, 0.0f32.to_bits());
    assert_ne!(ZERO, (-0.0f32).to_bits());
    assert!(f32::from_bits(ZERO).is_sign_positive());
}

#[test]
fn two_by_three_by_four() {
    let record = Record::new(2, 3, 4);
    assert_eq!(record.batches.len(), 2);
    for sequence in &record.batches {
        assert_eq!(sequence.len(), 3);
        let mut per_sequence = 0;
        for step in sequence {
            assert_eq!(step.len(), 4);
            assert_eq!(step, &vec![0u32; 4]);
            per_sequence += step.len();
        }
        assert_eq!(per_sequence, 12);
    }
    assert_eq!(scalar_count(&record), 24);
    assert_all_zero(&record);
    assert_eq!(record.batches, vec![vec![vec![0u32; 4]; 3]; 2]);
}

#[test]
fn one_by_999_by_999() {
    let record = Record::new(1, 999, 999);
    assert_eq!(record.batch_size, 1);
    assert_eq!(record.time_step, 999);
    assert_eq!(record.input_dim, 999);
    assert_shape(&record, 1, 999, 999);
    assert_eq!(scalar_count(&record), 998_001);
    assert_all_zero(&record);
}

#[test]
fn dimensions_are_kept() {
    let record = Record::new(7, 5, 3);
    assert_eq!(record.batch_size, 7);
    assert_eq!(record.time_step, 5);
    assert_eq!(record.input_dim, 3);
    assert_eq!(scalar_count(&record), 105);
}

#[test]
fn shape_and_zero_fill_for_small_triples() {
    for batch_size in 0..5 {
        for time_step in 0..5 {
            for input_dim in 0..5 {
                let record = Record::new(batch_size, time_step, input_dim);
                assert_eq!(record.batch_size, batch_size);
                assert_eq!(record.time_step, time_step);
                assert_eq!(record.input_dim, input_dim);
                assert_shape(&record, batch_size, time_step, input_dim);
                assert_all_zero(&record);
                assert_eq!(scalar_count(&record), batch_size * time_step * input_dim);
            }
        }
    }
}

#[test]
fn zero_batch_size_gives_no_sequences() {
    let record = Record::new(0, 3, 4);
    assert!(record.batches.is_empty());
    assert_eq!(record.batch_size, 0);
    assert_eq!(record.time_step, 3);
    assert_eq!(record.input_dim, 4);
    assert_eq!(scalar_count(&record), 0);
}

#[test]
fn zero_time_step_gives_empty_sequences() {
    let record = Record::new(2, 0, 4);
    assert_eq!(record.batches.len(), 2);
    for sequence in &record.batches {
        assert!(sequence.is_empty());
    }
    assert_eq!(record.time_step, 0);
    assert_eq!(scalar_count(&record), 0);
}

#[test]
fn zero_input_dim_gives_empty_steps() {
    let record = Record::new(2, 3, 0);
    assert_eq!(record.batches.len(), 2);
    for sequence in &record.batches {
        assert_eq!(sequence.len(), 3);
        for step in sequence {
            assert!(step.is_empty());
        }
    }
    assert_eq!(record.input_dim, 0);
    assert_eq!(scalar_count(&record), 0);
}

#[test]
fn all_dimensions_zero() {
    let record = Record::new(0, 0, 0);
    assert!(record.batches.is_empty());
    assert_eq!(record.batch_size, 0);
    assert_eq!(record.time_step, 0);
    assert_eq!(record.input_dim, 0);
}

#[test]
fn writing_one_scalar_touches_nothing_else() {
    let mut record = Record::new(2, 3, 4);
    let bits = 1.5f32.to_bits();
    record.batches[1][2][3] = bits;
    assert_shape(&record, 2, 3, 4);
    for i in 0..2 {
        for j in 0..3 {
            for k in 0..4 {
                let expected = if (i, j, k) == (1, 2, 3) { bits } else { ZERO };
                assert_eq!(record.batches[i][j][k], expected);
            }
        }
    }
    assert_eq!(f32::from_bits(record.batches[1][2][3]), 1.5f32);
    assert_eq!(record.batch_size, 2);
    assert_eq!(record.time_step, 3);
    assert_eq!(record.input_dim, 4);
}

#[test]
fn two_records_do_not_share_storage() {
    let mut first = Record::new(1, 2, 2);
    let second = Record::new(1, 2, 2);
    first.batches[0][0][0] = 7;
    assert_eq!(first.batches[0][0][0], 7);
    assert_eq!(second.batches[0][0][0], ZERO);
}
