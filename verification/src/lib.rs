//! Naive recursive Fibonacci numbers, with the result formatted as a
//! label-prefixed text line.

use vstd::prelude::*;

verus! {

use vstd::string::StringExecFns;

/// The Fibonacci sequence: F(0) = 0, F(1) = 1, F(n) = F(n-1) + F(n-2).
pub open spec fn spec_fib(n: nat) -> nat
    decreases n,
{
    if n == 0 {
        0
    } else if n == 1 {
        1
    } else {
        spec_fib((n - 1) as nat) + spec_fib((n - 2) as nat)
    }
}

/// The largest index whose Fibonacci number fits in `i32`:
/// F(46) = 1836311903 fits, F(47) = 2971215073 does not.
pub const MAX_FIB_INDEX: i32 = 46;

/// On the base indices the sequence returns the index itself.
pub proof fn lemma_fib_base(n: nat)
    requires
        n <= 1,
    ensures
        spec_fib(n) == n,
{
}

/// For every index at least 2, the sequence obeys the recurrence
/// F(n) = F(n-1) + F(n-2).
pub proof fn lemma_fib_recurrence(n: nat)
    requires
        n >= 2,
    ensures
        spec_fib(n) == spec_fib((n - 1) as nat) + spec_fib((n - 2) as nat),
{
}

/// The sequence never decreases as the index grows.
proof fn lemma_fib_monotonic(i: nat, j: nat)
    requires
        i <= j,
    ensures
        spec_fib(i) <= spec_fib(j),
    decreases j,
{
    if i < j && j >= 2 {
        lemma_fib_monotonic(i, (j - 1) as nat);
    }
}

/// Every Fibonacci number up to index `MAX_FIB_INDEX` fits in `i32`.
proof fn lemma_fib_fits_i32(n: nat)
    requires
        n <= MAX_FIB_INDEX,
    ensures
        spec_fib(n) <= i32::MAX,
{
    // Each assertion unfolds the definition once, on top of the previous two.
    assert(spec_fib(0) == 0);
    assert(spec_fib(1) == 1);
    assert(spec_fib(2) == 1);
    assert(spec_fib(3) == 2);
    assert(spec_fib(4) == 3);
    assert(spec_fib(5) == 5);
    assert(spec_fib(6) == 8);
    assert(spec_fib(7) == 13);
    assert(spec_fib(8) == 21);
    assert(spec_fib(9) == 34);
    assert(spec_fib(10) == 55);
    assert(spec_fib(11) == 89);
    assert(spec_fib(12) == 144);
    assert(spec_fib(13) == 233);
    assert(spec_fib(14) == 377);
    assert(spec_fib(15) == 610);
    assert(spec_fib(16) == 987);
    assert(spec_fib(17) == 1597);
    assert(spec_fib(18) == 2584);
    assert(spec_fib(19) == 4181);
    assert(spec_fib(20) == 6765);
    assert(spec_fib(21) == 10946);
    assert(spec_fib(22) == 17711);
    assert(spec_fib(23) == 28657);
    assert(spec_fib(24) == 46368);
    assert(spec_fib(25) == 75025);
    assert(spec_fib(26) == 121393);
    assert(spec_fib(27) == 196418);
    assert(spec_fib(28) == 317811);
    assert(spec_fib(29) == 514229);
    assert(spec_fib(30) == 832040);
    assert(spec_fib(31) == 1346269);
    assert(spec_fib(32) == 2178309);
    assert(spec_fib(33) == 3524578);
    assert(spec_fib(34) == 5702887);
    assert(spec_fib(35) == 9227465);
    assert(spec_fib(36) == 14930352);
    assert(spec_fib(37) == 24157817);
    assert(spec_fib(38) == 39088169);
    assert(spec_fib(39) == 63245986);
    assert(spec_fib(40) == 102334155);
    assert(spec_fib(41) == 165580141);
    assert(spec_fib(42) == 267914296);
    assert(spec_fib(43) == 433494437);
    assert(spec_fib(44) == 701408733);
    assert(spec_fib(45) == 1134903170);
    assert(spec_fib(46) == 1836311903);
    lemma_fib_monotonic(n, 46);
}

/// The n-th Fibonacci number, by direct recursion on the recurrence.
pub fn fib(n: i32) -> (r: i32)
    requires
        0 <= n <= MAX_FIB_INDEX,
    ensures
        r == spec_fib(n as nat),
    decreases n,
{
    if n < 2 {
        return n;
    }
    let a = fib(n - 1);
    let b = fib(n - 2);
    proof {
        lemma_fib_fits_i32(n as nat);
    }
    a + b
}

/// The character for a single decimal digit.
pub open spec fn spec_digit(d: nat) -> char {
    if d == 0 {
        '0'
    } else if d == 1 {
        '1'
    } else if d == 2 {
        '2'
    } else if d == 3 {
        '3'
    } else if d == 4 {
        '4'
    } else if d == 5 {
        '5'
    } else if d == 6 {
        '6'
    } else if d == 7 {
        '7'
    } else if d == 8 {
        '8'
    } else {
        '9'
    }
}

/// The decimal representation of a number, most significant digit first,
/// with no leading zeros (zero itself is the single digit '0').
pub open spec fn spec_decimal(n: nat) -> Seq<char>
    decreases n,
{
    if n < 10 {
        seq![spec_digit(n)]
    } else {
        spec_decimal(n / 10).push(spec_digit(n % 10))
    }
}

/// The output line: the fixed label prefix followed by the decimal value.
pub open spec fn spec_result_line(v: nat) -> Seq<char> {
    "Rust    | Resultado: "@ + spec_decimal(v)
}

/// The one-character string for a decimal digit.
fn digit_str(d: u32) -> (r: &'static str)
    requires
        d < 10,
    ensures
        r@ == seq![spec_digit(d as nat)],
{
    let r: &'static str = match d {
        0 => "0",
        1 => "1",
        2 => "2",
        3 => "3",
        4 => "4",
        5 => "5",
        6 => "6",
        7 => "7",
        8 => "8",
        _ => "9",
    };
    proof {
        reveal_strlit("0");
        reveal_strlit("1");
        reveal_strlit("2");
        reveal_strlit("3");
        reveal_strlit("4");
        reveal_strlit("5");
        reveal_strlit("6");
        reveal_strlit("7");
        reveal_strlit("8");
        reveal_strlit("9");
        assert(r@ =~= seq![spec_digit(d as nat)]);
    }
    r
}

/// Appends the decimal representation of `n` to `s`.
fn push_decimal(s: &mut String, n: u32)
    ensures
        final(s)@ == old(s)@ + spec_decimal(n as nat),
    decreases n,
{
    if n >= 10 {
        push_decimal(s, n / 10);
    }
    s.append(digit_str(n % 10));
    proof {
        assert(s@ =~= old(s)@ + spec_decimal(n as nat));
    }
}

/// The label-prefixed text line that reports a computed value.
pub fn result_line(value: i32) -> (r: String)
    requires
        0 <= value,
    ensures
        r@ == spec_result_line(value as nat),
{
    let mut s = "Rust    | Resultado: ".to_owned();
    push_decimal(&mut s, value as u32);
    s
}

} // verus!
