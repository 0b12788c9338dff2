//! Sums of machine numbers, which wrap around at the ends of their range.
use vstd::prelude::*;

verus! {

/// `n` in the range of `i64`, wrapped around where it lies outside.
pub open spec fn wrapped(n: int) -> int {
    (n + 0x8000_0000_0000_0000) % 0x1_0000_0000_0000_0000 - 0x8000_0000_0000_0000
}

/// `n` in the range of `i32`, wrapped around where it lies outside.
pub open spec fn wrapped_i32(n: int) -> int {
    (n + 0x8000_0000) % 0x1_0000_0000 - 0x8000_0000
}

/// The sum of two numbers.
pub fn wrapping_sum(a: i64, b: i64) -> (r: i64)
    ensures
        r == wrapped(a + b),
{
    a.wrapping_add(b)
}

/// The sum of two numbers.
pub fn wrapping_sum_i32(a: i32, b: i32) -> (r: i32)
    ensures
        r == wrapped_i32(a + b),
{
    a.wrapping_add(b)
}

/// A count as an `i32`.
pub fn count_i32(n: usize) -> (r: i32)
    ensures
        r == wrapped_i32(n as int),
{
    let m: u64 = n as u64;
    let r: i32 = #[verifier::truncate]
    (m as i32);
    assert(r as int == (m + 0x8000_0000) % 0x1_0000_0000 - 0x8000_0000) by (bit_vector)
        requires
            r == m as i32,
    ;
    r
}

/// Wrapping on the way does not change what comes out.
pub proof fn lemma_wrapped_again(a: int, b: int)
    ensures
        wrapped(wrapped(a) + b) == wrapped(a + b),
{
    let m = 0x1_0000_0000_0000_0000int;
    let h = 0x8000_0000_0000_0000int;
    assert(((a + h) % m + b) % m == (a + h + b) % m) by (nonlinear_arith)
        requires
            m == 0x1_0000_0000_0000_0000int,
    ;
}

/// Wrapping on the way does not change what comes out.
pub proof fn lemma_wrapped_i32_again(a: int, b: int)
    ensures
        wrapped_i32(wrapped_i32(a) + b) == wrapped_i32(a + b),
{
    let m = 0x1_0000_0000int;
    let h = 0x8000_0000int;
    assert(((a + h) % m + b) % m == (a + h + b) % m) by (nonlinear_arith)
        requires
            m == 0x1_0000_0000int,
    ;
}

/// A sum that is in range is the sum, and one that is not is off by the width of the range.
pub proof fn law_sums_wrap_around(a: i64, b: i64, r: i64)
    requires
        call_ensures(wrapping_sum, (a, b), r),
    ensures
        i64::MIN <= a + b <= i64::MAX ==> r == a + b,
        a + b > i64::MAX ==> r == a + b - 0x1_0000_0000_0000_0000,
        a + b < i64::MIN ==> r == a + b + 0x1_0000_0000_0000_0000,
{
}

/// The same for sums of the smaller numbers, and for counts.
pub proof fn law_small_sums_wrap_around(a: i32, b: i32, n: usize, r: i32, count: i32)
    requires
        call_ensures(wrapping_sum_i32, (a, b), r),
        call_ensures(count_i32, (n,), count),
    ensures
        i32::MIN <= a + b <= i32::MAX ==> r == a + b,
        a + b > i32::MAX ==> r == a + b - 0x1_0000_0000,
        a + b < i32::MIN ==> r == a + b + 0x1_0000_0000,
        n <= i32::MAX ==> count == n,
{
}

} // verus!
