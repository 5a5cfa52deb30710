//! Factorials and Fibonacci numbers.

use codex_chat_compat::integer_math::{factorial, fibonacci};

#[test]
fn test_factorial_basic() {
    assert_eq!(factorial(5), 120);
}

#[test]
fn test_factorial_zero() {
    assert_eq!(factorial(0), 1);
}

#[test]
fn test_fibonacci_basic() {
    assert_eq!(fibonacci(10), 55);
}

#[test]
fn test_fibonacci_zero() {
    assert_eq!(fibonacci(0), 0);
}

#[test]
fn test_fibonacci_one() {
    assert_eq!(fibonacci(1), 1);
}

#[test]
fn factorial_largest_that_fits() {
    assert_eq!(factorial(1), 1);
    assert_eq!(factorial(20), 2_432_902_008_176_640_000);
}

#[test]
fn fibonacci_largest_that_fits() {
    assert_eq!(fibonacci(2), 1);
    assert_eq!(fibonacci(93), 12_200_160_415_121_876_738);
}
