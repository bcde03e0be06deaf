use information_source::{InformationSource, ValidationError};

fn micros_all(ps: &[f64]) -> Vec<u64> {
    ps.iter().map(|&p| (p * 1_000_000.0).round() as u64).collect()
}

#[test]
fn new_empty_alphabet() {
    let v = InformationSource::new(0);
    assert_eq!(v.length, 0);
    assert!(v.prob_array.is_empty());
    assert!(v.code_array.is_empty());
    assert!(v.source_array.is_empty());
    assert!(v.encoder.is_empty());
    assert!(v.decoder.is_empty());
}

#[test]
fn new_probabilities_sum_to_unit_mass() {
    for length in 1..=10 {
        let v = InformationSource::new(length);
        let sum: u64 = v.prob_array.iter().sum();
        assert_eq!(sum, 1_000_000);
        assert!(v.prob_array.iter().all(|&p| p <= 1_000_000));
    }
}

#[test]
fn new_canonical_codes_and_labels() {
    let v = InformationSource::new(10);
    for i in 0..10 {
        assert_eq!(v.code_array[i], vec![i as u8]);
        assert_eq!(v.source_array[i], i.to_string());
    }
    assert_eq!(v.encoder.len(), 10);
    assert_eq!(v.decoder.len(), 10);
    assert_eq!(v.decode(&"7".to_string()), Some(7));
    assert_eq!(v.encode(&"0".to_string()), Some(0));
    assert_eq!(v.decode(&"x".to_string()), None);
}

#[test]
fn set_probs_accepts_unit_sum_exactly() {
    let mut v = InformationSource::new(10);
    let probs = micros_all(&[0.4, 0.2, 0.1, 0.1, 0.1, 0.02, 0.02, 0.02, 0.02, 0.02]);
    assert_eq!(v.set_probs(&probs), Ok(()));
    assert_eq!(v.prob_array, probs);
}

#[test]
fn set_probs_rejects_low_sum_and_keeps_state() {
    let mut v = InformationSource::new(10);
    let before = v.prob_array.clone();
    let probs = micros_all(&[0.4, 0.2, 0.1, 0.1, 0.1, 0.01, 0.01, 0.01, 0.01, 0.01]);
    let r = v.set_probs(&probs);
    assert_eq!(r, Err(ValidationError::ProbabilitySum { sum: 950_000 }));
    assert_eq!(v.prob_array, before);
}

#[test]
fn set_probs_tolerance_band_edges() {
    let mut v = InformationSource::new(2);
    assert_eq!(v.set_probs(&vec![995_000, 0]), Ok(()));
    assert_eq!(v.set_probs(&vec![1_005_000, 0]), Ok(()));
    assert_eq!(
        v.set_probs(&vec![994_999, 0]),
        Err(ValidationError::ProbabilitySum { sum: 994_999 })
    );
    assert_eq!(
        v.set_probs(&vec![1_005_001, 0]),
        Err(ValidationError::ProbabilitySum { sum: 1_005_001 })
    );
    assert_eq!(v.prob_array, vec![1_005_000, 0]);
}

#[test]
fn set_codes_accepts_distinct_codes() {
    let mut v = InformationSource::new(4);
    let code: Vec<Vec<u8>> = vec![vec![0, 0], vec![0, 1], vec![1, 0], vec![1, 1]];
    assert_eq!(v.set_codes(&code), Ok(()));
    assert_eq!(v.code_array, code);
    assert_eq!(v.decoder.len(), 4);
}

#[test]
fn set_codes_rejects_duplicate_and_keeps_state() {
    let mut v = InformationSource::new(4);
    let before = v.code_array.clone();
    let code: Vec<Vec<u8>> = vec![vec![0, 0], vec![1, 1], vec![1, 0], vec![1, 1]];
    assert_eq!(v.set_codes(&code), Err(ValidationError::DuplicateCode));
    assert_eq!(v.code_array, before);
    assert_eq!(v.decode(&"2".to_string()), Some(2));
}

#[test]
fn set_codes_rejects_byte_without_digit() {
    let mut v = InformationSource::new(2);
    let before = v.code_array.clone();
    let code: Vec<Vec<u8>> = vec![vec![0], vec![10]];
    assert_eq!(v.set_codes(&code), Err(ValidationError::EncodingRange));
    assert_eq!(v.code_array, before);
    let code = vec![vec![255u8], vec![0]];
    assert_eq!(v.set_codes(&code), Err(ValidationError::EncodingRange));
}

#[test]
fn set_source_accepts_distinct_labels() {
    let mut v = InformationSource::new(3);
    let labels = vec!["x".to_string(), "y".to_string(), "z".to_string()];
    assert_eq!(v.set_source(&labels), Ok(()));
    assert_eq!(v.source_array, labels);
    assert_eq!(v.encoder.len(), 3);
    for (i, l) in labels.iter().enumerate() {
        assert_eq!(v.encode(l), Some(i));
    }
}

#[test]
fn set_source_rejects_duplicate_and_keeps_state() {
    let mut v = InformationSource::new(2);
    let before = v.source_array.clone();
    let labels = vec!["a".to_string(), "a".to_string()];
    assert_eq!(v.set_source(&labels), Err(ValidationError::DuplicateLabel));
    assert_eq!(v.source_array, before);
    assert_eq!(v.encode(&"1".to_string()), Some(1));
}

#[test]
fn end_to_end_scenario() {
    let mut v = InformationSource::new(4);
    let code: Vec<Vec<u8>> = vec![vec![1, 1], vec![1, 0], vec![0, 1], vec![0, 0]];
    v.set_codes(&code).unwrap();
    v.set_probs(&micros_all(&[0.4, 0.3, 0.0, 0.3])).unwrap();
    let labels = vec!["a".to_string(), "b".to_string(), "c".to_string(), "d".to_string()];
    v.set_source(&labels).unwrap();
    assert_eq!(v.decode(&"11".to_string()), Some(0));
    assert_eq!(v.decode(&"00".to_string()), Some(3));
    assert_eq!(v.encode(&"a".to_string()), Some(0));
    assert_eq!(v.encode(&"d".to_string()), Some(3));
    assert_eq!(v.decoder.len(), 4);
    assert_eq!(v.encoder.len(), 4);
}

#[test]
fn rejected_mutations_apply_nothing() {
    let mut v = InformationSource::new(4);
    v.set_codes(&vec![vec![1, 1], vec![1, 0], vec![0, 1], vec![0, 0]]).unwrap();
    v.set_source(&vec!["a".to_string(), "b".to_string(), "c".to_string(), "d".to_string()])
        .unwrap();
    let probs_before = v.prob_array.clone();
    assert!(v.set_probs(&vec![0, 0, 0, 0]).is_err());
    assert_eq!(v.prob_array, probs_before);
    assert!(v.set_codes(&vec![vec![1], vec![1], vec![2], vec![3]]).is_err());
    assert_eq!(v.decode(&"10".to_string()), Some(1));
    assert!(v.set_source(&vec!["q".to_string(), "q".to_string(), "r".to_string(), "s".to_string()])
        .is_err());
    assert_eq!(v.encode(&"b".to_string()), Some(1));
}
