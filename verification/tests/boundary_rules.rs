use circuit_prover::boundary::{
    free_proof, free_string, parse_circuit_inputs, parse_public_inputs, parse_signal_values,
    read_circuit_inputs, read_public_inputs, ProofResult, Release,
};
use circuit_prover::errors::ServiceError;
use circuit_prover::field::FieldElement;

#[test]
fn releasing_no_proof_handle_does_nothing() {
    assert_eq!(free_proof(true, true, 0), Release::Nothing);
    assert_eq!(free_proof(true, false, 128), Release::Nothing);
    assert_eq!(free_proof(true, false, u64::MAX), Release::Nothing);
}

#[test]
fn releasing_a_proof_handle_gives_back_the_recorded_length() {
    assert_eq!(free_proof(false, false, 128), Release::HandleAndBuffer { length: 128 });
    assert_eq!(free_proof(false, false, 0), Release::HandleAndBuffer { length: 0 });
}

#[test]
fn releasing_a_proof_handle_without_bytes_gives_back_the_handle() {
    assert_eq!(free_proof(false, true, 128), Release::HandleOnly);
}

#[test]
fn releasing_no_text_handle_does_nothing() {
    assert!(!free_string(true));
    assert!(free_string(false));
}

#[test]
fn proof_result_records_the_number_of_its_bytes() {
    let result = ProofResult::new(vec![7u8; 128]);
    assert_eq!(result.proof_len(), 128);
    assert_eq!(result.as_bytes(), &vec![7u8; 128]);
    assert_eq!(result.into_bytes(), vec![7u8; 128]);
    assert_eq!(ProofResult::new(Vec::new()).proof_len(), 0);
}

#[test]
fn public_inputs_keep_their_order() {
    let texts = vec!["12".to_string(), "0x0d".to_string(), "0".to_string()];
    assert_eq!(
        parse_public_inputs(&texts),
        Ok(vec![FieldElement::from_u64(12), FieldElement::from_u64(13), FieldElement::from_u64(0)])
    );
    assert_eq!(parse_public_inputs(&Vec::new()), Ok(Vec::new()));
}

#[test]
fn public_inputs_report_the_first_bad_text() {
    let hexadecimal_first = vec!["1".to_string(), "0xq".to_string(), "one".to_string()];
    assert_eq!(parse_public_inputs(&hexadecimal_first), Err(ServiceError::HexDecode));
    let decimal_first = vec!["one".to_string(), "0xq".to_string()];
    assert_eq!(parse_public_inputs(&decimal_first), Err(ServiceError::FieldParse));
}

#[test]
fn signal_values_keep_their_order() {
    let texts = vec!["3".to_string(), "0x04".to_string(), "-5".to_string()];
    let values = parse_signal_values(&texts).unwrap();
    assert_eq!(values.len(), 3);
    assert_eq!(values[0].magnitude(), &vec![3]);
    assert_eq!(values[1].magnitude(), &vec![4]);
    assert_eq!(values[2].magnitude(), &vec![5]);
    assert!(!values[0].is_negative());
    assert!(values[2].is_negative());
}

#[test]
fn signal_values_with_a_bad_text_are_turned_away() {
    let texts = vec!["3".to_string(), "four".to_string()];
    assert_eq!(parse_signal_values(&texts).err(), Some(ServiceError::IntegerParse));
}

#[test]
fn circuit_inputs_keep_names_and_values() {
    let raw = vec![
        ("input0".to_string(), vec!["3".to_string()]),
        ("input1".to_string(), vec!["4".to_string(), "0x10".to_string()]),
        ("empty".to_string(), Vec::new()),
    ];
    let inputs = parse_circuit_inputs(&raw).unwrap();
    assert_eq!(inputs.len(), 3);
    assert_eq!(inputs[0].0, "input0");
    assert_eq!(inputs[0].1.len(), 1);
    assert_eq!(inputs[0].1[0].magnitude(), &vec![3]);
    assert_eq!(inputs[1].0, "input1");
    assert_eq!(inputs[1].1.len(), 2);
    assert_eq!(inputs[1].1[1].magnitude(), &vec![16]);
    assert_eq!(inputs[2].0, "empty");
    assert!(inputs[2].1.is_empty());
}

#[test]
fn circuit_inputs_with_a_bad_value_are_turned_away() {
    let raw = vec![
        ("input0".to_string(), vec!["3".to_string()]),
        ("input1".to_string(), vec!["4".to_string(), "0xg".to_string()]),
    ];
    assert_eq!(parse_circuit_inputs(&raw).err(), Some(ServiceError::IntegerParse));
}

#[test]
fn request_for_a_proof_names_its_signals() {
    let inputs = read_circuit_inputs(r#"{"input1": ["4", "0x10"], "input0": ["3"]}"#).unwrap();
    assert_eq!(inputs.len(), 2);
    assert_eq!(inputs[0].0, "input0");
    assert_eq!(inputs[0].1.len(), 1);
    assert_eq!(inputs[0].1[0].magnitude(), &vec![3]);
    assert_eq!(inputs[1].0, "input1");
    assert_eq!(inputs[1].1.len(), 2);
    assert_eq!(inputs[1].1[0].magnitude(), &vec![4]);
    assert_eq!(inputs[1].1[1].magnitude(), &vec![16]);
    assert!(read_circuit_inputs("{}").unwrap().is_empty());
}

#[test]
fn request_for_a_proof_names_each_signal_once() {
    let inputs = read_circuit_inputs(r#"{"b": ["1"], "a": ["2"], "b": ["3"]}"#).unwrap();
    assert_eq!(inputs.len(), 2);
    assert_eq!(inputs[0].0, "a");
    assert_eq!(inputs[1].0, "b");
    assert_eq!(inputs[1].1.len(), 1);
    assert_eq!(inputs[1].1[0].magnitude(), &vec![3]);
}

#[test]
fn request_for_a_proof_that_is_badly_written_is_turned_away() {
    assert_eq!(read_circuit_inputs("").err(), Some(ServiceError::MalformedRequest));
    assert_eq!(read_circuit_inputs("[]").err(), Some(ServiceError::MalformedRequest));
    assert_eq!(read_circuit_inputs(r#"{"a": [3]}"#).err(), Some(ServiceError::MalformedRequest));
    assert_eq!(read_circuit_inputs(r#"{"a": "3"}"#).err(), Some(ServiceError::MalformedRequest));
    assert_eq!(read_circuit_inputs(r#"{"a": ["3"]"#).err(), Some(ServiceError::MalformedRequest));
    assert_eq!(read_circuit_inputs(r#"{"a": ["three"]}"#).err(), Some(ServiceError::IntegerParse));
}

#[test]
fn request_to_verify_lists_its_public_inputs() {
    assert_eq!(
        read_public_inputs(r#"["12", "0x0d"]"#),
        Ok(vec![FieldElement::from_u64(12), FieldElement::from_u64(13)])
    );
    assert_eq!(read_public_inputs("[]"), Ok(Vec::new()));
    assert_eq!(read_public_inputs("{}"), Err(ServiceError::MalformedRequest));
    assert_eq!(read_public_inputs(r#"["12", 13]"#), Err(ServiceError::MalformedRequest));
    assert_eq!(read_public_inputs(r#"["0x1"]"#), Err(ServiceError::HexDecode));
    assert_eq!(read_public_inputs(r#"["1x"]"#), Err(ServiceError::FieldParse));
}

#[test]
fn statuses_are_not_zero_and_differ() {
    let all = [
        ServiceError::Io,
        ServiceError::FormatMismatch,
        ServiceError::Deserialization,
        ServiceError::KeyNotLoaded,
        ServiceError::WitnessComputation,
        ServiceError::ProofConstruction,
        ServiceError::ProofDecode,
        ServiceError::HexDecode,
        ServiceError::FieldParse,
        ServiceError::IntegerParse,
        ServiceError::VerificationComputation,
        ServiceError::MalformedRequest,
    ];
    for (i, first) in all.iter().enumerate() {
        assert_ne!(first.status(), 0);
        assert!(!first.message().is_empty());
        for second in all.iter().skip(i + 1) {
            assert_ne!(first.status(), second.status());
        }
    }
    assert_eq!(ServiceError::Io.status(), 1);
    assert_eq!(ServiceError::KeyNotLoaded.status(), 4);
    assert_eq!(ServiceError::KeyNotLoaded.message(), "no key bundle is loaded");
}
