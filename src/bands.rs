//! Logarithmic band boundaries over the spectrum's bins.
//!
//! Band `b` of `n` over `m` bins starts at the bin `m^(b/n)`, rounded down.
//! The boundary is found exactly: a candidate `r` is tested by comparing
//! `r^n` with `m^b` as unbounded integers, held as little-endian 64-bit limbs.
use vstd::prelude::*;
use vstd::arithmetic::power::{pow, lemma_pow_increases, lemma_pow_positive};

verus! {

pub open spec fn limb_base() -> int {
    0x1_0000_0000_0000_0000
}

/// Weight of limb `i`: the base to the power `i`.
pub open spec fn limb_weight(i: nat) -> int
    decreases i,
{
    if i == 0 {
        1
    } else {
        limb_base() * limb_weight((i - 1) as nat)
    }
}

/// The number that a sequence of limbs stands for, least significant first.
pub open spec fn big_val(s: Seq<u64>) -> int
    decreases s.len(),
{
    if s.len() == 0 {
        0
    } else {
        big_val(s.drop_last()) + limb_weight((s.len() - 1) as nat) * s.last()
    }
}

proof fn lemma_weight_positive(i: nat)
    ensures
        limb_weight(i) >= 1,
    decreases i,
{
    if i > 0 {
        lemma_weight_positive((i - 1) as nat);
        assert(limb_base() * limb_weight((i - 1) as nat) >= 1) by (nonlinear_arith)
            requires
                limb_weight((i - 1) as nat) >= 1,
        ;
    }
}

proof fn lemma_big_val_bound(s: Seq<u64>)
    ensures
        0 <= big_val(s) < limb_weight(s.len()),
    decreases s.len(),
{
    if s.len() > 0 {
        let n = (s.len() - 1) as nat;
        lemma_big_val_bound(s.drop_last());
        lemma_weight_positive(n);
        let w = limb_weight(n);
        let v = big_val(s.drop_last());
        let d = s.last() as int;
        assert(0 <= v + w * d < limb_base() * w) by (nonlinear_arith)
            requires
                0 <= v < w,
                0 <= d < limb_base(),
                w >= 1,
        ;
    }
}

/// `k` times the number in `a`.
fn mul_small(a: &Vec<u64>, k: u64) -> (r: Vec<u64>)
    ensures
        big_val(r@) == k * big_val(a@),
{
    let mut out: Vec<u64> = Vec::new();
    let mut carry: u64 = 0;
    let mut i: usize = 0;
    while i < a.len()
        invariant
            i <= a@.len(),
            out@.len() == i,
            big_val(out@) + limb_weight(i as nat) * carry == k * big_val(a@.take(i as int)),
        decreases a@.len() - i,
    {
        let x: u64 = a[i];
        assert(x * k + carry < 0x1_0000_0000_0000_0000_0000_0000_0000_0000) by (nonlinear_arith)
            requires
                0 <= x < 0x1_0000_0000_0000_0000,
                0 <= k < 0x1_0000_0000_0000_0000,
                0 <= carry < 0x1_0000_0000_0000_0000,
        ;
        let t: u128 = x as u128 * k as u128 + carry as u128;
        let lo: u64 = (t % 0x1_0000_0000_0000_0000) as u64;
        let hi: u64 = (t / 0x1_0000_0000_0000_0000) as u64;
        proof {
            let w = limb_weight(i as nat);
            assert(a@.take(i + 1).drop_last() =~= a@.take(i as int));
            assert(big_val(a@.take(i + 1)) == big_val(a@.take(i as int)) + w * x);
            assert(out@.push(lo).drop_last() =~= out@);
            assert(big_val(out@.push(lo)) == big_val(out@) + w * lo);
            assert(limb_weight((i + 1) as nat) == limb_base() * w);
            assert(t == lo + limb_base() * hi);
            assert(big_val(out@) + w * lo + limb_base() * w * hi == k * (big_val(
                a@.take(i as int),
            ) + w * x)) by (nonlinear_arith)
                requires
                    big_val(out@) + w * carry == k * big_val(a@.take(i as int)),
                    t == lo + limb_base() * hi,
                    t == x * k + carry,
            ;
        }
        out.push(lo);
        carry = hi;
        i = i + 1;
    }
    proof {
        assert(a@.take(a@.len() as int) =~= a@);
    }
    if carry > 0 {
        proof {
            assert(out@.push(carry).drop_last() =~= out@);
        }
        out.push(carry);
    }
    out
}

/// `base` to the power `e`, as limbs.
fn big_pow(base: u64, e: usize) -> (r: Vec<u64>)
    ensures
        big_val(r@) == pow(base as int, e as nat),
{
    let mut acc: Vec<u64> = Vec::new();
    acc.push(1);
    proof {
        assert(acc@.drop_last() =~= Seq::<u64>::empty());
        assert(limb_weight(0) == 1);
        assert(big_val(Seq::<u64>::empty()) == 0);
        assert(acc@.len() == 1 && acc@.last() == 1);
        assert(big_val(acc@) == 1);
        reveal(pow);
        assert(pow(base as int, 0) == 1);
    }
    let mut i: usize = 0;
    while i < e
        invariant
            i <= e,
            big_val(acc@) == pow(base as int, i as nat),
        decreases e - i,
    {
        acc = mul_small(&acc, base);
        proof {
            reveal(pow);
            assert(pow(base as int, (i + 1) as nat) == base * pow(base as int, i as nat));
        }
        i = i + 1;
    }
    acc
}

/// The same number with `extra` zero limbs on top.
fn pad_limbs(a: &mut Vec<u64>, len: usize)
    ensures
        final(a)@.len() == if old(a)@.len() < len { len as int } else { old(a)@.len() as int },
        big_val(final(a)@) == big_val(old(a)@),
{
    while a.len() < len
        invariant
            big_val(a@) == big_val(old(a)@),
            old(a)@.len() <= a@.len(),
            old(a)@.len() < len ==> a@.len() <= len,
            old(a)@.len() >= len ==> a@.len() == old(a)@.len(),
        decreases len - a@.len(),
    {
        let ghost prev = a@;
        a.push(0);
        proof {
            assert(a@.drop_last() =~= prev);
            assert(big_val(a@) == big_val(prev) + limb_weight((a@.len() - 1) as nat) * 0);
        }
    }
}

/// Whether the number in `a` is at most the number in `b`.
fn big_le(a: &Vec<u64>, b: &Vec<u64>) -> (r: bool)
    ensures
        r == (big_val(a@) <= big_val(b@)),
{
    let mut x = a.clone();
    let mut y = b.clone();
    assert(x@ =~= a@);
    assert(y@ =~= b@);
    let n: usize = if x.len() < y.len() {
        y.len()
    } else {
        x.len()
    };
    pad_limbs(&mut x, n);
    pad_limbs(&mut y, n);
    let mut i: usize = n;
    assert(x@.take(n as int) =~= x@);
    assert(y@.take(n as int) =~= y@);
    while i > 0
        invariant
            i <= n,
            x@.len() == n,
            y@.len() == n,
            big_val(x@) == big_val(a@),
            big_val(y@) == big_val(b@),
            (big_val(x@) <= big_val(y@)) == (big_val(x@.take(i as int)) <= big_val(
                y@.take(i as int),
            )),
        decreases i,
    {
        let j: usize = i - 1;
        proof {
            assert(x@.take(i as int).drop_last() =~= x@.take(j as int));
            assert(y@.take(i as int).drop_last() =~= y@.take(j as int));
            lemma_big_val_bound(x@.take(j as int));
            lemma_big_val_bound(y@.take(j as int));
            lemma_weight_positive(j as nat);
            let w = limb_weight(j as nat);
            let xa = big_val(x@.take(j as int));
            let yb = big_val(y@.take(j as int));
            let xd = x@[j as int] as int;
            let yd = y@[j as int] as int;
            assert(big_val(x@.take(i as int)) == xa + w * xd);
            assert(big_val(y@.take(i as int)) == yb + w * yd);
            if xd < yd {
                assert(xa + w * xd < yb + w * yd) by (nonlinear_arith)
                    requires
                        0 <= xa < w,
                        0 <= yb,
                        xd < yd,
                ;
            } else if xd > yd {
                assert(xa + w * xd > yb + w * yd) by (nonlinear_arith)
                    requires
                        0 <= yb < w,
                        0 <= xa,
                        xd > yd,
                ;
            }
        }
        if x[j] != y[j] {
            return x[j] < y[j];
        }
        i = j;
    }
    proof {
        assert(x@.take(0) =~= Seq::<u64>::empty());
        assert(y@.take(0) =~= Seq::<u64>::empty());
    }
    true
}

/// Whether `r^n <= m^b`.
fn pow_le(r: u64, n: usize, m: u64, b: usize) -> (res: bool)
    ensures
        res == (pow(r as int, n as nat) <= pow(m as int, b as nat)),
{
    let lhs = big_pow(r, n);
    let rhs = big_pow(m, b);
    big_le(&lhs, &rhs)
}

pub proof fn lemma_pow_base_increases(x: nat, y: nat, e: nat)
    requires
        x <= y,
    ensures
        0 <= pow(x as int, e) <= pow(y as int, e),
        e > 0 && x < y ==> pow(x as int, e) < pow(y as int, e),
    decreases e,
{
    reveal(pow);
    if e > 0 {
        lemma_pow_base_increases(x, y, (e - 1) as nat);
        let px = pow(x as int, (e - 1) as nat);
        let py = pow(y as int, (e - 1) as nat);
        assert(0 <= x * px <= y * py) by (nonlinear_arith)
            requires
                0 <= x <= y,
                0 <= px <= py,
        ;
        if x < y {
            lemma_pow_positive(y as int, (e - 1) as nat);
            assert(x * px < y * py) by (nonlinear_arith)
                requires
                    0 <= x < y,
                    0 <= px <= py,
                    py > 0,
            ;
        }
    }
}

/// The bin at which band `band` of `num_bands` starts, over `num_bins` bins:
/// `num_bins^(band/num_bands)` rounded down, with band 0 starting at bin 1 to
/// leave out the constant component.
pub open spec fn is_log_bin_start(r: int, band: nat, num_bands: nat, num_bins: nat) -> bool {
    if band == 0 {
        r == 1
    } else {
        &&& r >= 0
        &&& pow(r, num_bands) <= pow(num_bins as int, band)
        &&& pow(num_bins as int, band) < pow(r + 1, num_bands)
    }
}

/// The starting bin of a band under logarithmic spacing (see
/// [`is_log_bin_start`]).
pub fn log_bin_start(band: usize, num_bands: usize, num_bins: usize) -> (r: usize)
    requires
        num_bands > 0,
        band <= num_bands,
        num_bins <= u64::MAX,
    ensures
        is_log_bin_start(r as int, band as nat, num_bands as nat, num_bins as nat),
        band > 0 ==> r <= num_bins,
{
    if band == 0 {
        return 1;
    }
    let m: u64 = num_bins as u64;
    let ghost target = pow(m as int, band as nat);
    proof {
        vstd::arithmetic::power::lemma0_pow(num_bands as nat);
        lemma_pow_base_increases(m as nat, (m + 1) as nat, band as nat);
        lemma_pow_increases((m + 1) as nat, band as nat, num_bands as nat);
    }
    let mut lo: u128 = 0;
    let mut hi: u128 = m as u128 + 1;
    while hi - lo > 1
        invariant
            lo < hi <= m + 1,
            m <= u64::MAX,
            num_bands > 0,
            target == pow(m as int, band as nat),
            pow(lo as int, num_bands as nat) <= target,
            target < pow(hi as int, num_bands as nat),
        decreases hi - lo,
    {
        let mid: u128 = lo + (hi - lo) / 2;
        if pow_le(mid as u64, num_bands, m, band) {
            lo = mid;
        } else {
            hi = mid;
        }
    }
    lo as usize
}

} // verus!
