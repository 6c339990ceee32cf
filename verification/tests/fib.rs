use fibonacci::{fib, result_line, MAX_FIB_INDEX};

#[test]
fn base_cases_return_the_index() {
    assert_eq!(fib(0), 0);
    assert_eq!(fib(1), 1);
}

#[test]
fn recurrence_holds_on_a_small_table() {
    let mut n: i32 = 2;
    while n <= 25 {
        assert_eq!(fib(n), fib(n - 1) + fib(n - 2));
        n += 1;
    }
}

#[test]
fn fib_ten() {
    assert_eq!(fib(10), 55);
}

#[test]
fn fib_twenty() {
    assert_eq!(fib(20), 6765);
}

#[test]
fn fib_forty_two() {
    assert_eq!(fib(42), 267914296);
}

#[test]
fn max_index_is_forty_six() {
    assert_eq!(MAX_FIB_INDEX, 46);
}

#[test]
fn line_for_the_fixed_input() {
    assert_eq!(result_line(267914296), "Rust    | Resultado: 267914296");
}

#[test]
fn line_for_zero() {
    assert_eq!(result_line(0), "Rust    | Resultado: 0");
}

#[test]
fn line_for_a_round_value() {
    assert_eq!(result_line(1000), "Rust    | Resultado: 1000");
}

#[test]
fn line_for_a_single_digit() {
    assert_eq!(result_line(7), "Rust    | Resultado: 7");
}
