//! The expression evaluator on concrete inputs.

use nudhi::math::{evaluate_math, EvalOutcome};
use nudhi::store::Store;
use nudhi::value::Value;

fn eval(expr: &str, store: &Store) -> EvalOutcome {
    evaluate_math(expr.as_bytes(), store)
}

#[test]
fn eval_addition() {
    let store = Store::new();
    assert_eq!(eval("2 + 3", &store), EvalOutcome::Num(5));
}

#[test]
fn eval_division_by_zero_is_fatal() {
    let store = Store::new();
    assert_eq!(eval("10 / 0", &store), EvalOutcome::DivByZero);
    assert_eq!(eval("10 % 0", &store), EvalOutcome::DivByZero);
}

#[test]
fn eval_remainder() {
    let store = Store::new();
    assert_eq!(eval("7 % 2", &store), EvalOutcome::Num(1));
    assert_eq!(eval("-7 % 2", &store), EvalOutcome::Num(-1));
}

#[test]
fn eval_pow_keyword() {
    let store = Store::new();
    assert_eq!(eval("pow 2 5", &store), EvalOutcome::Num(32));
    assert_eq!(eval("pow 3 0", &store), EvalOutcome::Num(1));
}

#[test]
fn eval_sqrt() {
    let store = Store::new();
    assert_eq!(eval("sqrt 9", &store), EvalOutcome::Num(3));
    assert_eq!(eval("sqrt 10", &store), EvalOutcome::Num(3));
    assert_eq!(eval("sqrt 0", &store), EvalOutcome::Num(0));
}

#[test]
fn eval_log_and_ln() {
    let store = Store::new();
    assert_eq!(eval("log 8 2", &store), EvalOutcome::Num(3));
    assert_eq!(eval("log 100 10", &store), EvalOutcome::Num(2));
    assert_eq!(eval("log 99 10", &store), EvalOutcome::Num(1));
    assert_eq!(eval("ln 20", &store), EvalOutcome::Num(2));
    assert_eq!(eval("ln 21", &store), EvalOutcome::Num(3));
    assert_eq!(eval("ln 1", &store), EvalOutcome::Num(0));
}

#[test]
fn eval_abs() {
    let store = Store::new();
    assert_eq!(eval("abs -5", &store), EvalOutcome::Num(5));
    assert_eq!(eval("abs 5", &store), EvalOutcome::Num(5));
}

#[test]
fn eval_caret_is_power() {
    let store = Store::new();
    assert_eq!(eval("2 ^ 10", &store), EvalOutcome::Num(1024));
}

#[test]
fn eval_negative_exponent_rejected() {
    let store = Store::new();
    assert_eq!(eval("2 ^ -1", &store), EvalOutcome::Invalid);
    assert_eq!(eval("pow 2 -1", &store), EvalOutcome::Invalid);
}

#[test]
fn eval_subtraction_and_multiplication() {
    let store = Store::new();
    assert_eq!(eval("10 - 4", &store), EvalOutcome::Num(6));
    assert_eq!(eval("6 * 7", &store), EvalOutcome::Num(42));
}

#[test]
fn eval_division_truncates_toward_zero() {
    let store = Store::new();
    assert_eq!(eval("7 / 2", &store), EvalOutcome::Num(3));
    assert_eq!(eval("-7 / 2", &store), EvalOutcome::Num(-3));
    assert_eq!(eval("7 / -2", &store), EvalOutcome::Num(-3));
}

#[test]
fn eval_addition_wraps() {
    let store = Store::new();
    assert_eq!(eval("2147483647 + 1", &store), EvalOutcome::Num(i32::MIN));
}

#[test]
fn eval_uses_variables_by_exact_name() {
    let mut store = Store::new();
    store.set(b"a".to_vec(), Value::Int(2));
    store.set(b"cat".to_vec(), Value::Int(40));
    assert_eq!(eval("a + 3", &store), EvalOutcome::Num(5));
    // The operand `cat` resolves as one token, untouched by the variable `a`.
    assert_eq!(eval("cat + 2", &store), EvalOutcome::Num(42));
}

#[test]
fn eval_text_variable_fails() {
    let mut store = Store::new();
    store.set(b"x".to_vec(), Value::Str(b"hello".to_vec()));
    assert_eq!(eval("x + 1", &store), EvalOutcome::Invalid);
}

#[test]
fn eval_missing_variable_fails() {
    let store = Store::new();
    assert_eq!(eval("nope + 1", &store), EvalOutcome::Invalid);
}

#[test]
fn eval_wrong_shapes_fail() {
    let store = Store::new();
    assert_eq!(eval("", &store), EvalOutcome::Invalid);
    assert_eq!(eval("2 +", &store), EvalOutcome::Invalid);
    assert_eq!(eval("hello", &store), EvalOutcome::Invalid);
    assert_eq!(eval("1 + 2 + 3", &store), EvalOutcome::Invalid);
    assert_eq!(eval("sqrt 4 9", &store), EvalOutcome::Invalid);
}

#[test]
fn eval_sqrt_of_negative_rejected() {
    let store = Store::new();
    assert_eq!(eval("sqrt -4", &store), EvalOutcome::Invalid);
    assert_eq!(eval("ln 0", &store), EvalOutcome::Invalid);
    assert_eq!(eval("log 8 1", &store), EvalOutcome::Invalid);
}
