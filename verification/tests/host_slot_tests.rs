use emg::error::ErrorCode;
use emg::host::InvokeError;
use emg::host::ScalarArg;
use emg::host::ValKind;
use emg::host::generator_export_name;
use emg::host::interpret_generator_status;
use emg::host::marshal_parameters;
use emg::host::parse_i32;
use emg::host::parse_i64;
use emg::host::resolve_generator;
use emg::host::validate_model_generator;
use emg::host::validate_pointer_accessor;
use emg::slot::PublishSlot;

fn names(list: &[&str]) -> Vec<Vec<u8>> {
    list.iter().map(|s| s.as_bytes().to_vec()).collect()
}

#[test]
fn scenario_absent_generator_is_not_found_and_nothing_runs() {
    // the plugin exports no generator under the requested name: the
    // resolution itself fails with the not-found code, so the host has
    // nothing to invoke
    let exports = names(&["model_pointer", "model_size", "gen_cube", "memory"]);
    let r = resolve_generator(&exports, &b"sphere".to_vec());
    assert_eq!(r, Err(ErrorCode::ModelGeneratorNotFound));
    assert_eq!(ErrorCode::ModelGeneratorNotFound.code(), 8);
}

#[test]
fn present_generator_resolves_to_its_export() {
    let exports = names(&["model_pointer", "gen_cube", "gen_tower"]);
    assert_eq!(resolve_generator(&exports, &b"cube".to_vec()), Ok(1));
    assert_eq!(resolve_generator(&exports, &b"tower".to_vec()), Ok(2));
    assert_eq!(generator_export_name(&b"cube".to_vec()), b"gen_cube".to_vec());
}

#[test]
fn generator_signature_must_return_one_i32() {
    assert!(validate_model_generator(&vec![ValKind::I32]).is_ok());
    assert_eq!(validate_model_generator(&vec![]), Err(ErrorCode::ModuleNotEMG));
    assert_eq!(validate_model_generator(&vec![ValKind::I64]), Err(ErrorCode::ModuleNotEMG));
    assert_eq!(
        validate_model_generator(&vec![ValKind::I32, ValKind::I32]),
        Err(ErrorCode::ModuleNotEMG)
    );
}

#[test]
fn accessor_signature_must_take_nothing_and_return_one_i32() {
    assert!(validate_pointer_accessor(&vec![], &vec![ValKind::I32]).is_ok());
    assert_eq!(
        validate_pointer_accessor(&vec![ValKind::I32], &vec![ValKind::I32]),
        Err(ErrorCode::ModuleNotEMG)
    );
    assert_eq!(validate_pointer_accessor(&vec![], &vec![ValKind::F32]), Err(ErrorCode::ModuleNotEMG));
}

#[test]
fn parameter_count_mismatch_is_rejected() {
    let kinds = vec![ValKind::I32, ValKind::F64];
    let raw = names(&["1"]);
    assert_eq!(
        marshal_parameters(&kinds, &raw),
        Err(InvokeError::ParameterCount { expected: 2, given: 1 })
    );
    assert_eq!(InvokeError::ParameterCount { expected: 2, given: 1 }.error_code().code(), 9);
}

#[test]
fn integer_parameters_are_parsed_and_floats_pass_through() {
    let kinds = vec![ValKind::I32, ValKind::I64, ValKind::F32, ValKind::F64];
    let raw = names(&["-42", "+9000000000", "3.5", "-0.25"]);
    let args = marshal_parameters(&kinds, &raw).unwrap();
    assert_eq!(args.len(), 4);
    assert!(matches!(args[0], ScalarArg::I32(-42)));
    assert!(matches!(args[1], ScalarArg::I64(9000000000)));
    match &args[2] {
        ScalarArg::F32Text(t) => assert_eq!(t.as_slice(), b"3.5"),
        _ => panic!("expected float text"),
    }
    match &args[3] {
        ScalarArg::F64Text(t) => assert_eq!(t.as_slice(), b"-0.25"),
        _ => panic!("expected float text"),
    }
}

#[test]
fn malformed_integer_parameter_is_a_type_error() {
    let kinds = vec![ValKind::I32, ValKind::I32];
    assert_eq!(
        marshal_parameters(&kinds, &names(&["7", "4.5"])),
        Err(InvokeError::ParameterType { index: 1 })
    );
    assert_eq!(
        marshal_parameters(&kinds, &names(&["", "1"])),
        Err(InvokeError::ParameterType { index: 0 })
    );
    assert_eq!(InvokeError::ParameterType { index: 1 }.error_code().code(), 10);
}

#[test]
fn non_scalar_parameter_kind_is_a_type_error() {
    assert_eq!(
        marshal_parameters(&vec![ValKind::Other], &names(&["x"])),
        Err(InvokeError::ParameterType { index: 0 })
    );
}

#[test]
fn parse_i32_matches_decimal_syntax_and_range() {
    assert_eq!(parse_i32(&b"0".to_vec()), Ok(0));
    assert_eq!(parse_i32(&b"2147483647".to_vec()), Ok(2147483647));
    assert_eq!(parse_i32(&b"-2147483648".to_vec()), Ok(-2147483648));
    assert_eq!(parse_i32(&b"+17".to_vec()), Ok(17));
    assert_eq!(parse_i32(&b"007".to_vec()), Ok(7));
    assert!(parse_i32(&b"2147483648".to_vec()).is_err());
    assert!(parse_i32(&b"-2147483649".to_vec()).is_err());
    assert!(parse_i32(&b"".to_vec()).is_err());
    assert!(parse_i32(&b"+".to_vec()).is_err());
    assert!(parse_i32(&b"12a".to_vec()).is_err());
    assert!(parse_i32(&b" 12".to_vec()).is_err());
    assert!(parse_i32(&b"99999999999999999999999999".to_vec()).is_err());
}

#[test]
fn parse_i64_matches_decimal_syntax_and_range() {
    assert_eq!(parse_i64(&b"9223372036854775807".to_vec()), Ok(9223372036854775807));
    assert_eq!(parse_i64(&b"-9223372036854775808".to_vec()), Ok(-9223372036854775808));
    assert!(parse_i64(&b"9223372036854775808".to_vec()).is_err());
    assert!(parse_i64(&b"-9223372036854775809".to_vec()).is_err());
}

#[test]
fn generator_status_zero_is_success_and_codes_pass_through() {
    assert_eq!(interpret_generator_status(0), Ok(()));
    assert_eq!(interpret_generator_status(7), Err(7));
    assert_eq!(interpret_generator_status(-3), Err(-3));
}

#[test]
fn publish_slot_rejects_a_second_build_in_flight() {
    let mut slot = PublishSlot::new();
    assert!(slot.try_begin_build().is_ok());
    assert_eq!(slot.try_begin_build(), Err(ErrorCode::Mutex));
    slot.publish(vec![1, 2, 3]);
    assert_eq!(slot.model_size(), 3);
    assert_eq!(slot.model_bytes(), &vec![1, 2, 3]);
    assert!(slot.try_begin_build().is_ok());
    slot.abort_build();
    assert_eq!(slot.model_bytes(), &vec![1, 2, 3]);
}

#[test]
fn clear_gltf_fails_during_a_build_and_clears_otherwise() {
    let mut slot = PublishSlot::new();
    slot.try_begin_build().unwrap();
    assert_eq!(slot.clear_gltf(), Err(1));
    slot.publish(vec![9, 9]);
    assert_eq!(slot.clear_gltf(), Ok(()));
    assert_eq!(slot.model_size(), 0);
}
