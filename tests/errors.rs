use starlark_env::EnvironmentError;

#[test]
fn frozen_error_report() {
    let r = EnvironmentError::TryingToMutateFrozenEnvironment.to_runtime_error();
    assert_eq!(r.code, "CM00");
    assert_eq!(r.label, "This value belong to a frozen environment");
    assert_eq!(r.message, "Cannot mutate a frozen environment");
}

#[test]
fn not_found_error_report() {
    let r = EnvironmentError::VariableNotFound("x".to_string()).to_runtime_error();
    assert_eq!(r.code, "CM01");
    assert_eq!(r.label, "Variable was not found");
    assert_eq!(r.message, "Variable 'x' not found");
}

#[test]
fn private_symbol_error_report() {
    let r = EnvironmentError::CannotImportPrivateSymbol("_p".to_string()).to_runtime_error();
    assert_eq!(r.code, "CE02");
    assert_eq!(r.label, "Symbol '_p' is private");
    assert_eq!(r.message, "Cannot import private symbol '_p'");
}

#[test]
fn local_before_assignment_error_report() {
    let e = EnvironmentError::LocalVariableReferencedBeforeAssignment("l".to_string());
    assert_eq!(e.code(), "CM03");
    assert_eq!(e.label(), "Local variable referenced before assignment");
    assert_eq!(e.message(), "Local variable 'l' referenced before assignment");
}

#[test]
fn unsupported_error_report() {
    let r = EnvironmentError::UnsupportedOperation("set".to_string()).to_runtime_error();
    assert_eq!(r.code, "CM04");
    assert_eq!(r.label, "Operation not supported");
    assert_eq!(r.message, "Operation 'set' is not supported");
}
