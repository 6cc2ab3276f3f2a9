//! Timing of operations and small numeric helpers.

use vstd::prelude::*;

verus! {

/// Declares std::time::Instant so readings of the monotonic clock can be
/// carried through verified code; nothing is assumed of what is inside.
#[verifier::external_type_specification]
#[verifier::external_body]
pub struct ExInstant(std::time::Instant);

/// Relies on Instant::now for a reading of the monotonic clock; nothing
/// is assumed of the reading.
#[verifier::external_body]
fn instant_now() -> std::time::Instant {
    std::time::Instant::now()
}

/// Relies on Instant::elapsed and Duration::as_nanos for the nanoseconds
/// since `start`; the clock decides the value, so nothing is assumed of
/// it.
#[verifier::external_body]
fn elapsed_ns(start: &std::time::Instant) -> u64 {
    start.elapsed().as_nanos() as u64
}

/// Run `func` and measure how long it took: its result, and the elapsed
/// nanoseconds. The result is one the operation allows; the duration is
/// whatever the clock reports.
pub fn measure_time_normal<F, R>(func: F) -> (r: (R, u64)) where F: FnOnce() -> R
    requires
        call_requires(func, ()),
    ensures
        call_ensures(func, (), r.0),
{
    let start = instant_now();
    let result = func();
    let duration = elapsed_ns(&start);
    (result, duration)
}

/// Run `func` for its duration alone: the elapsed nanoseconds, the result
/// discarded. The operation does run: some result of it existed.
pub fn measure_time_normal_bench<F, R>(func: F) -> (r: u64) where F: FnOnce() -> R
    requires
        call_requires(func, ()),
    ensures
        exists|y: R| call_ensures(func, (), y),
{
    let start = instant_now();
    let result = func();
    proof {
        assert(call_ensures(func, (), result));
    }
    let _ = result;
    elapsed_ns(&start)
}

/// The sequence this engine's benchmark counts with: two ones, and after
/// that each entry the sum of the previous two.
pub open spec fn fib(i: nat) -> nat
    decreases i,
{
    if i < 2 {
        1
    } else {
        fib((i - 1) as nat) + fib((i - 2) as nat)
    }
}

/// The sequence never shrinks.
proof fn lemma_fib_mono(i: nat, j: nat)
    requires
        i <= j,
    ensures
        fib(i) <= fib(j),
    decreases j,
{
    if i < j && j >= 2 {
        lemma_fib_mono(i, (j - 1) as nat);
    }
}

/// The first `n` entries of the sequence — two at least: the seed pair is
/// always present, however small `n` is.
pub fn generate_fibonacci(n: usize) -> (r: Vec<usize>)
    requires
        n <= 2 || fib((n - 1) as nat) <= usize::MAX,
    ensures
        r@.len() == if n < 2 {
            2nat
        } else {
            n as nat
        },
        forall|i: int| 0 <= i < r@.len() ==> r@[i] == fib(i as nat),
{
    let mut fib_seq: Vec<usize> = Vec::new();
    fib_seq.push(1);
    fib_seq.push(1);
    let mut i: usize = 2;
    while i < n
        invariant
            2 <= i,
            i <= n || i == 2,
            fib_seq@.len() == i,
            forall|j: int| 0 <= j < i ==> fib_seq@[j] == fib(j as nat),
            n <= 2 || fib((n - 1) as nat) <= usize::MAX,
        decreases n - i,
    {
        proof {
            lemma_fib_mono(i as nat, (n - 1) as nat);
        }
        let next_fib = fib_seq[i - 1] + fib_seq[i - 2];
        fib_seq.push(next_fib);
        i = i + 1;
    }
    fib_seq
}

} // verus!
