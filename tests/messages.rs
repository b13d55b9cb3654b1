use pyo3_binding::binder::BindError;
use pyo3_binding::message::decimal;

#[test]
fn duplicate_message() {
    let e = BindError::DuplicateArgument("a".to_string());
    assert_eq!(e.message(Some("f")), "f got multiple values for argument: a");
}

#[test]
fn missing_messages() {
    let e = BindError::MissingRequiredKeywordArgument("x".to_string());
    assert_eq!(e.message(None), "function missing required keyword-only argument: x");
    let e = BindError::MissingRequiredPositionalArgument("y".to_string());
    assert_eq!(e.message(Some("g")), "g missing required positional argument: y");
}

#[test]
fn unexpected_message() {
    let e = BindError::UnexpectedKeywordArgument("zz".to_string());
    assert_eq!(e.message(Some("h")), "h got an unexpected keyword argument: zz");
}

#[test]
fn too_many_messages() {
    let e = BindError::TooManyPositionalArguments { expected: 1, got: 3 };
    assert_eq!(e.message(Some("f")), "f takes at most 1 positional argument (3 given)");
    let e = BindError::TooManyPositionalArguments { expected: 0, got: 12 };
    assert_eq!(e.message(None), "function takes at most 0 positional arguments (12 given)");
}

#[test]
fn decimal_digits() {
    assert_eq!(decimal(0), "0");
    assert_eq!(decimal(7), "7");
    assert_eq!(decimal(1204), "1204");
    assert_eq!(decimal(usize::MAX), usize::MAX.to_string());
}
