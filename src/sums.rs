//! Sums and averages of sample sequences.
use vstd::prelude::*;

verus! {

pub open spec fn sum_i32(s: Seq<i32>) -> int
    decreases s.len(),
{
    if s.len() == 0 {
        0
    } else {
        sum_i32(s.drop_last()) + s.last()
    }
}

pub open spec fn sum_u32(s: Seq<u32>) -> int
    decreases s.len(),
{
    if s.len() == 0 {
        0
    } else {
        sum_u32(s.drop_last()) + s.last()
    }
}

/// Division rounding toward zero, as integer division of a signed value does.
pub open spec fn div_trunc(a: int, n: int) -> int {
    if a >= 0 {
        a / n
    } else {
        -((-a) / n)
    }
}

/// Mean of `s[start..end]`, rounded toward zero.
pub open spec fn mean_i32(s: Seq<i32>, start: int, end: int) -> int {
    div_trunc(sum_i32(s.subrange(start, end)), end - start)
}

/// Mean of `s[start..end]`, rounded down.
pub open spec fn mean_u32(s: Seq<u32>, start: int, end: int) -> int {
    sum_u32(s.subrange(start, end)) / (end - start)
}

/// A mean of values in the `i32` range is in that range.
pub proof fn lemma_div_trunc_bounds(a: int, n: int)
    requires
        n > 0,
        -n * 0x8000_0000 <= a <= n * 0x7fff_ffff,
    ensures
        -0x8000_0000 <= div_trunc(a, n) <= 0x7fff_ffff,
{
    if a >= 0 {
        assert(a / n <= 0x7fff_ffff) by (nonlinear_arith)
            requires
                n > 0,
                0 <= a <= n * 0x7fff_ffff,
        ;
        assert(a / n >= 0) by (nonlinear_arith)
            requires
                n > 0,
                0 <= a,
        ;
    } else {
        assert((-a) / n <= 0x8000_0000) by (nonlinear_arith)
            requires
                n > 0,
                0 <= -a <= n * 0x8000_0000,
        ;
        assert((-a) / n >= 0) by (nonlinear_arith)
            requires
                n > 0,
                0 <= -a,
        ;
    }
}

/// Sum of `s[start..end]`, with its bound.
pub fn sum_range_i32(s: &[i32], start: usize, end: usize) -> (r: i128)
    requires
        start <= end <= s@.len(),
    ensures
        r == sum_i32(s@.subrange(start as int, end as int)),
        -(end - start) * 0x8000_0000 <= r <= (end - start) * 0x7fff_ffff,
{
    let mut acc: i128 = 0;
    let mut k: usize = start;
    while k < end
        invariant
            start <= k <= end <= s@.len(),
            acc == sum_i32(s@.subrange(start as int, k as int)),
            -(k - start) * 0x8000_0000 <= acc <= (k - start) * 0x7fff_ffff,
        decreases end - k,
    {
        assert(s@.subrange(start as int, k + 1).drop_last() =~= s@.subrange(start as int, k as int));
        acc = acc + s[k] as i128;
        k = k + 1;
    }
    acc
}

/// Sum of `s[start..end]`.
pub fn sum_range_u32(s: &[u32], start: usize, end: usize) -> (r: u128)
    requires
        start <= end <= s@.len(),
    ensures
        r == sum_u32(s@.subrange(start as int, end as int)),
        r <= (end - start) * 0xffff_ffff,
{
    let mut acc: u128 = 0;
    let mut k: usize = start;
    while k < end
        invariant
            start <= k <= end <= s@.len(),
            acc == sum_u32(s@.subrange(start as int, k as int)),
            acc <= (k - start) * 0xffff_ffff,
        decreases end - k,
    {
        assert(s@.subrange(start as int, k + 1).drop_last() =~= s@.subrange(start as int, k as int));
        acc = acc + s[k] as u128;
        k = k + 1;
    }
    acc
}

/// Mean of `s[start..end]`, rounded toward zero.
pub fn mean_range_i32(s: &[i32], start: usize, end: usize) -> (r: i32)
    requires
        start < end <= s@.len(),
    ensures
        r == mean_i32(s@, start as int, end as int),
{
    let total = sum_range_i32(s, start, end);
    let n: u128 = (end - start) as u128;
    proof {
        lemma_div_trunc_bounds(total as int, n as int);
    }
    if total >= 0 {
        (total as u128 / n) as i32
    } else {
        let m: u128 = (0 - total) as u128;
        (0 - (m / n) as i128) as i32
    }
}

/// Mean of `s[start..end]`, rounded down.
pub fn mean_range_u32(s: &[u32], start: usize, end: usize) -> (r: u32)
    requires
        start < end <= s@.len(),
    ensures
        r == mean_u32(s@, start as int, end as int),
{
    let total = sum_range_u32(s, start, end);
    let n: u128 = (end - start) as u128;
    assert(total / n <= 0xffff_ffff) by (nonlinear_arith)
        requires
            n > 0,
            0 <= total <= n * 0xffff_ffff,
    ;
    (total / n) as u32
}

} // verus!
