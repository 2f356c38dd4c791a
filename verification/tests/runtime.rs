use grove::runtime::{TaskPanicked, WaitError};
use grove::text::push_decimal;

#[test]
fn task_panicked_counts_panics() {
    let err = TaskPanicked { panics: vec!["a".to_string(), "b".to_string()] };
    assert_eq!(err.message(), "2 task(s) panicked");
}

#[test]
fn wait_error_messages() {
    assert_eq!(WaitError::Timeout.message(), "timeout waiting for tasks");
    let err = WaitError::Panicked(TaskPanicked { panics: vec![String::new()] });
    assert_eq!(err.message(), "1 task(s) panicked");
}

#[test]
fn decimal_rendering() {
    let mut s = String::from("n=");
    push_decimal(&mut s, 0);
    push_decimal(&mut s, 1090);
    assert_eq!(s, "n=01090");
    let mut big = String::new();
    push_decimal(&mut big, usize::MAX);
    assert_eq!(big, usize::MAX.to_string());
}
