use ephact::errors::EvalError;
use ephact::services::expression_evaluator::list_index;

fn type_error(message: &str) -> EvalError {
    EvalError::TypeError(message.to_owned())
}

#[test]
fn list_index_reads_positions_within_the_list() {
    assert_eq!(list_index(3, Some(0)), Ok(0));
    assert_eq!(list_index(3, Some(2)), Ok(2));
}

#[test]
fn list_index_past_the_end_names_index_and_length() {
    assert_eq!(
        list_index(3, Some(3)),
        Err(type_error("index 3 out of bounds for array of length 3"))
    );
    assert_eq!(
        list_index(0, Some(17)),
        Err(type_error("index 17 out of bounds for array of length 0"))
    );
}

#[test]
fn list_index_refuses_what_is_not_a_non_negative_integer() {
    assert_eq!(list_index(3, None), Err(type_error("index must be a non-negative integer")));
}
