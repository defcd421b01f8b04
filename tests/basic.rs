use calc_wasm::fib;

#[test]
fn fibonacci() {
    assert_eq!(fib(0), 0);
    assert_eq!(fib(1), 1);
    assert_eq!(fib(5), 5);
    assert_eq!(fib(10), 55);
}

#[test]
fn fib_twenty() {
    assert_eq!(fib(20), 6765);
}

#[test]
fn fib_recurrence_holds_exactly_below_94() {
    for n in 2u32..94 {
        assert_eq!(fib(n), fib(n - 1) + fib(n - 2));
    }
}

#[test]
fn fib_largest_that_fits() {
    assert_eq!(fib(93), 12200160415121876738);
}

#[test]
fn fib_wraps_past_u64() {
    // The true value is 19740274219868223167, which exceeds u64::MAX.
    assert_eq!(fib(94), 1293530146158671551);
    assert_eq!(fib(94), fib(93).wrapping_add(fib(92)));
}

#[test]
fn fib_wrapping_recurrence_far_out() {
    for n in 95u32..300 {
        assert_eq!(fib(n), fib(n - 1).wrapping_add(fib(n - 2)));
    }
}
