use ephact::errors::EvalError;
use ephact::expression::functions::expect_arg_count;
use ephact::services::expression_functions::ExpressionFunctions;

#[test]
fn functions_expect_arg_count_reports_range() {
    let err = expect_arg_count("x", 4, 1, 3).unwrap_err();
    assert!(matches!(err, EvalError::ArgCount(_)));
}

#[test]
fn expression_functions_expect_arg_count_reports_range() {
    let err = ExpressionFunctions::expect_arg_count("x", 4, 1, 3).unwrap_err();
    assert!(matches!(err, EvalError::ArgCount(_)));
}
