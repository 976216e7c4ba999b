use noirc_evaluator::prove_cmd::{backend_arguments, exit_code_result, BackendFailure};

#[test]
fn arguments_start_with_the_proving_command() {
    assert_eq!(backend_arguments(vec![]), vec!["prove".to_string()]);
    assert_eq!(
        backend_arguments(vec!["--threads".to_string(), "4".to_string()]),
        vec!["prove".to_string(), "--threads".to_string(), "4".to_string()]
    );
}

#[test]
fn exit_code_above_zero_is_a_failure() {
    assert_eq!(exit_code_result(0), Ok(0));
    assert_eq!(exit_code_result(-3), Ok(-3));
    assert_eq!(exit_code_result(1), Err(BackendFailure { code: 1 }));
    assert_eq!(exit_code_result(i32::MAX), Err(BackendFailure { code: i32::MAX }));
}
