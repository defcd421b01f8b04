use vstd::prelude::*;

verus! {

/// The number of values a `u64` can hold.
pub open spec fn u64_range() -> int {
    0x1_0000_0000_0000_0000
}

/// The Fibonacci sequence over the naturals: 0, 1, 1, 2, 3, 5, ...
pub open spec fn fib_exact(n: nat) -> nat
    decreases n,
{
    if n == 0 {
        0
    } else if n == 1 {
        1
    } else {
        fib_exact((n - 1) as nat) + fib_exact((n - 2) as nat)
    }
}

/// The Fibonacci number of `n` reduced modulo 2^64, as `fib` returns it.
pub open spec fn fib_wrapped(n: nat) -> int {
    fib_exact(n) as int % u64_range()
}

/// Walks the sequence pairwise from (0, 1), adding with wraparound.
fn fib_inner(n: u32) -> (r: u64)
    ensures
        r as int == fib_wrapped(n as nat),
{
    let mut a: u64 = 0;
    let mut b: u64 = 1;
    let mut i: u32 = 0;
    while i < n
        invariant
            i <= n,
            a as int == fib_wrapped(i as nat),
            b as int == fib_wrapped(i as nat + 1),
        decreases n - i,
    {
        proof {
            lemma_fib_wrapping_recurrence(i as nat + 2);
        }
        let c: u64 = a.wrapping_add(b);
        a = b;
        b = c;
        i = i + 1;
    }
    a
}

/// The `n`-th Fibonacci number (`fib(0) == 0`, `fib(1) == 1`), wrapping
/// modulo 2^64 once the true value no longer fits in a `u64`.
pub fn fib(n: u32) -> (r: u64)
    ensures
        r as int == fib_wrapped(n as nat),
{
    fib_inner(n)
}

/// The wrapped sequence obeys the Fibonacci recurrence modulo 2^64, for
/// every `n >= 2`.
pub proof fn lemma_fib_wrapping_recurrence(n: nat)
    requires
        n >= 2,
    ensures
        fib_wrapped(n) == (fib_wrapped((n - 1) as nat) + fib_wrapped((n - 2) as nat)) % u64_range(),
{
    let x = fib_exact((n - 1) as nat) as int;
    let y = fib_exact((n - 2) as nat) as int;
    vstd::arithmetic::div_mod::lemma_add_mod_noop(x, y, u64_range());
}

/// Below 94 no wraparound occurs: `fib(n) == fib(n - 1) + fib(n - 2)` holds
/// exactly for every `2 <= n < 94`.
pub proof fn lemma_fib_recurrence(n: nat)
    requires
        2 <= n < 94,
    ensures
        fib_wrapped(n) == fib_wrapped((n - 1) as nat) + fib_wrapped((n - 2) as nat),
{
    lemma_fib_fits(n);
    lemma_fib_fits((n - 1) as nat);
    lemma_fib_fits((n - 2) as nat);
    vstd::arithmetic::div_mod::lemma_small_mod(fib_exact(n), u64_range() as nat);
    vstd::arithmetic::div_mod::lemma_small_mod(fib_exact((n - 1) as nat), u64_range() as nat);
    vstd::arithmetic::div_mod::lemma_small_mod(fib_exact((n - 2) as nat), u64_range() as nat);
}

proof fn lemma_fib_monotonic(m: nat, n: nat)
    requires
        m <= n,
    ensures
        fib_exact(m) <= fib_exact(n),
    decreases n - m,
{
    if m < n {
        lemma_fib_monotonic(m, (n - 1) as nat);
    }
}

/// Consecutive pairs of the sequence, built by a single chain of steps.
spec fn fib_pair(n: nat) -> (nat, nat)
    decreases n,
{
    if n == 0 {
        (0, 1)
    } else {
        let p = fib_pair((n - 1) as nat);
        (p.1, p.0 + p.1)
    }
}

proof fn lemma_fib_pair(n: nat)
    ensures
        fib_pair(n) == (fib_exact(n), fib_exact(n + 1)),
    decreases n,
{
    if n > 0 {
        lemma_fib_pair((n - 1) as nat);
    }
}

proof fn lemma_fib_fits(n: nat)
    requires
        n < 94,
    ensures
        fib_exact(n) < u64_range(),
{
    assert(fib_pair(24) == (46368nat, 75025nat)) by {
        reveal_with_fuel(fib_pair, 25);
    }
    assert(fib_pair(48) == (4807526976nat, 7778742049nat)) by {
        reveal_with_fuel(fib_pair, 25);
    }
    assert(fib_pair(72) == (498454011879264nat, 806515533049393nat)) by {
        reveal_with_fuel(fib_pair, 25);
    }
    assert(fib_pair(93).0 == 12200160415121876738nat) by {
        reveal_with_fuel(fib_pair, 22);
    }
    lemma_fib_pair(93);
    lemma_fib_monotonic(n, 93);
}

} // verus!
