//! Mean, population standard deviation, minimum and maximum of a series.
use crate::arith::div_floor;
use vstd::arithmetic::div_mod::{
    lemma_div_is_ordered, lemma_div_multiples_vanish, lemma_fundamental_div_mod,
    lemma_fundamental_div_mod_converse, lemma_mod_bound,
};
use vstd::prelude::*;

verus! {

/// The sum of a series.
pub open spec fn sum_of(s: Seq<i64>) -> int
    decreases s.len(),
{
    if s.len() == 0 {
        0
    } else {
        sum_of(s.drop_last()) + s.last()
    }
}

/// The sum of the squared deviations of a series from `m`.
pub open spec fn sq_dev_sum(s: Seq<i64>, m: int) -> int
    decreases s.len(),
{
    if s.len() == 0 {
        0
    } else {
        sq_dev_sum(s.drop_last(), m) + (s.last() - m) * (s.last() - m)
    }
}

/// The mean of a non-empty series, rounded down to a whole millionth.
pub open spec fn mean_of(s: Seq<i64>) -> int {
    sum_of(s) / (s.len() as int)
}

/// The population variance about the rounded mean, rounded down.
pub open spec fn variance_of(s: Seq<i64>) -> int {
    sq_dev_sum(s, mean_of(s)) / (s.len() as int)
}

/// `r` is the square root of `v`, rounded down.
pub open spec fn is_floor_sqrt(r: int, v: int) -> bool {
    0 <= r && r * r <= v < (r + 1) * (r + 1)
}

/// The square root of `v`, rounded down.
pub open spec fn sqrt_floor(v: int) -> int {
    choose|r: int| is_floor_sqrt(r, v)
}

/// The population standard deviation (no Bessel correction), rounded down.
pub open spec fn std_dev_of(s: Seq<i64>) -> int {
    sqrt_floor(variance_of(s))
}

/// The least value of a non-empty series.
pub open spec fn is_min_of(m: int, s: Seq<i64>) -> bool {
    &&& exists|i: int| 0 <= i < s.len() && s[i] == m
    &&& forall|i: int| 0 <= i < s.len() ==> m <= #[trigger] s[i]
}

/// The greatest value of a non-empty series.
pub open spec fn is_max_of(m: int, s: Seq<i64>) -> bool {
    &&& exists|i: int| 0 <= i < s.len() && s[i] == m
    &&& forall|i: int| 0 <= i < s.len() ==> #[trigger] s[i] <= m
}

/// The least value of a non-empty series.
pub open spec fn min_of(s: Seq<i64>) -> int {
    choose|m: int| is_min_of(m, s)
}

/// The greatest value of a non-empty series.
pub open spec fn max_of(s: Seq<i64>) -> int {
    choose|m: int| is_max_of(m, s)
}

/// Only one number is the rounded-down square root of `v`.
pub proof fn lemma_floor_sqrt_unique(r1: int, r2: int, v: int)
    requires
        is_floor_sqrt(r1, v),
        is_floor_sqrt(r2, v),
    ensures
        r1 == r2,
{
    if r1 < r2 {
        assert((r1 + 1) * (r1 + 1) <= r2 * r2) by (nonlinear_arith)
            requires 0 <= r1 < r2;
    } else if r2 < r1 {
        assert((r2 + 1) * (r2 + 1) <= r1 * r1) by (nonlinear_arith)
            requires 0 <= r2 < r1;
    }
}

/// The square root of `v`, rounded down.
pub fn isqrt(v: u128) -> (r: u64)
    ensures
        is_floor_sqrt(r as int, v as int),
        r == sqrt_floor(v as int),
{
    let mut lo: u128 = 0;
    let mut hi: u128 = 0x1_0000_0000_0000_0000;
    assert(v < hi * hi) by (nonlinear_arith)
        requires
            v <= 0xffff_ffff_ffff_ffff_ffff_ffff_ffff_ffff,
            hi == 0x1_0000_0000_0000_0000,
    ;
    while lo + 1 < hi
        invariant
            lo < hi <= 0x1_0000_0000_0000_0000,
            lo * lo <= v,
            v < hi * hi,
        decreases hi - lo,
    {
        let mid: u128 = lo + (hi - lo) / 2;
        assert(mid * mid < 0x1_0000_0000_0000_0000 * 0x1_0000_0000_0000_0000) by (nonlinear_arith)
            requires
                mid < 0x1_0000_0000_0000_0000,
        ;
        if mid * mid <= v {
            lo = mid;
        } else {
            hi = mid;
        }
    }
    proof {
        assert(is_floor_sqrt(lo as int, v as int));
        lemma_floor_sqrt_unique(lo as int, sqrt_floor(v as int), v as int);
    }
    lo as u64
}

/// The largest squared deviation between two `i64` values.
pub open spec fn max_sq_dev() -> int {
    0xffff_ffff_ffff_ffffint * 0xffff_ffff_ffff_ffffint
}

proof fn lemma_sum_bounds(s: Seq<i64>)
    ensures
        s.len() * i64::MIN <= sum_of(s) <= s.len() * i64::MAX,
    decreases s.len(),
{
    if s.len() > 0 {
        lemma_sum_bounds(s.drop_last());
    }
}

proof fn lemma_sq_dev_bounds(s: Seq<i64>, m: int)
    requires
        i64::MIN <= m <= i64::MAX,
    ensures
        0 <= sq_dev_sum(s, m) <= s.len() * max_sq_dev(),
    decreases s.len(),
{
    if s.len() > 0 {
        lemma_sq_dev_bounds(s.drop_last(), m);
        let d = s.last() - m;
        assert(0 <= d * d <= max_sq_dev()) by (nonlinear_arith)
            requires
                -0xffff_ffff_ffff_ffff <= d <= 0xffff_ffff_ffff_ffff,
        ;
        assert((s.len() - 1) * max_sq_dev() + max_sq_dev() == s.len() * max_sq_dev())
            by (nonlinear_arith);
    }
}

/// The mean of a non-empty series, rounded down.
fn mean(data: &Vec<i64>) -> (m: i64)
    requires
        data@.len() > 0,
    ensures
        m == mean_of(data@),
{
    let n = data.len();
    let mut sum: i128 = 0;
    let mut i: usize = 0;
    while i < n
        invariant
            n == data@.len(),
            i <= n,
            sum == sum_of(data@.take(i as int)),
            i * i64::MIN <= sum <= i * i64::MAX,
        decreases n - i,
    {
        proof {
            assert(data@.take(i + 1).drop_last() =~= data@.take(i as int));
            assert(i * i64::MIN + i64::MIN == (i + 1) * i64::MIN);
            assert(i * i64::MAX + i64::MAX == (i + 1) * i64::MAX);
            assert(n <= 0xffff_ffff_ffff_ffff);
            assert((i + 1) * i64::MAX <= 0xffff_ffff_ffff_ffff * 0x7fff_ffff_ffff_ffff) by (nonlinear_arith)
                requires i + 1 <= 0xffff_ffff_ffff_ffff;
            assert((i + 1) * i64::MIN >= 0xffff_ffff_ffff_ffff * -0x8000_0000_0000_0000) by (nonlinear_arith)
                requires i + 1 <= 0xffff_ffff_ffff_ffff;
        }
        sum = sum + data[i] as i128;
        i = i + 1;
    }
    assert(data@.take(n as int) =~= data@);
    let q = div_floor(sum, n as i128);
    proof {
        lemma_div_is_ordered(n * i64::MIN, sum as int, n as int);
        lemma_div_is_ordered(sum as int, n * i64::MAX, n as int);
        lemma_div_multiples_vanish(i64::MIN as int, n as int);
        lemma_div_multiples_vanish(i64::MAX as int, n as int);
    }
    q as i64
}

/// The population variance about the rounded mean `m`, rounded down; the
/// sum of squares is carried as a quotient and remainder by the length so
/// that it never overflows.
fn variance(data: &Vec<i64>, m: i64) -> (v: u128)
    requires
        data@.len() > 0,
    ensures
        v == sq_dev_sum(data@, m as int) / (data@.len() as int),
{
    let n = data.len();
    let mut q: u128 = 0;
    let mut r: u128 = 0;
    let mut i: usize = 0;
    while i < n
        invariant
            n == data@.len(),
            n > 0,
            i <= n,
            q * n + r == sq_dev_sum(data@.take(i as int), m as int),
            0 <= r < n,
        decreases n - i,
    {
        proof {
            assert(data@.take(i + 1).drop_last() =~= data@.take(i as int));
            lemma_sq_dev_bounds(data@.take(i + 1), m as int);
        }
        let d: i128 = data[i] as i128 - m as i128;
        let a: u128 = if d >= 0 { d as u128 } else { (-d) as u128 };
        assert(a * a <= max_sq_dev()) by (nonlinear_arith)
            requires a <= 0xffff_ffff_ffff_ffff;
        assert(a * a == d * d) by (nonlinear_arith)
            requires a == d || a == -d;
        let sq: u128 = a * a;
        assert(n <= 0xffff_ffff_ffff_ffff);
        let t: u128 = r + sq;
        let ghost total: int = sq_dev_sum(data@.take(i + 1), m as int);
        assert(total == sq_dev_sum(data@.take(i as int), m as int) + d * d);
        proof {
            let ti = t as int;
            let ni = n as int;
            let qi = q as int;
            lemma_fundamental_div_mod(ti, ni);
            lemma_mod_bound(ti, ni);
            assert(qi * ni + (ti / ni) * ni + ti % ni == total) by (nonlinear_arith)
                requires
                    qi * ni + r == total - sq,
                    ti == r + sq,
                    ti == ni * (ti / ni) + ti % ni,
            ;
            assert(total <= ni * max_sq_dev()) by (nonlinear_arith)
                requires
                    total <= (i + 1) * max_sq_dev(),
                    i + 1 <= ni,
                    max_sq_dev() >= 0,
            ;
            assert((qi + ti / ni) * ni + ti % ni == total) by (nonlinear_arith)
                requires
                    qi * ni + (ti / ni) * ni + ti % ni == total,
            ;
            assert((qi + ti / ni) * ni <= total) by (nonlinear_arith)
                requires
                    qi * ni + (ti / ni) * ni + ti % ni == total,
                    ti % ni >= 0,
            ;
            assert(qi + ti / ni <= max_sq_dev()) by (nonlinear_arith)
                requires
                    (qi + ti / ni) * ni <= total,
                    total <= ni * max_sq_dev(),
                    ni > 0,
            ;
        }
        q = q + t / (n as u128);
        r = t % (n as u128);
        i = i + 1;
    }
    proof {
        assert(data@.take(n as int) =~= data@);
        lemma_fundamental_div_mod_converse(sq_dev_sum(data@, m as int), n as int, q as int, r as int);
    }
    q
}

/// Calculates the mean (rounded down) and the population standard deviation
/// (rounded down) of a series; both are `None` for an empty series.
pub fn mean_and_standard_deviation(data: &Vec<i64>) -> (r: (Option<i64>, Option<u64>))
    ensures
        data@.len() == 0 ==> r.0 is None && r.1 is None,
        data@.len() > 0 ==> (r.0 matches Some(m) && m == mean_of(data@)),
        data@.len() > 0 ==> (r.1 matches Some(sd) && sd == std_dev_of(data@)),
{
    if data.len() == 0 {
        return (None, None);
    }
    let m = mean(data);
    let v = variance(data, m);
    let sd = isqrt(v);
    (Some(m), Some(sd))
}

/// The least value of a series; `None` when it is empty.
pub fn min_vec(data: &Vec<i64>) -> (r: Option<i64>)
    ensures
        data@.len() == 0 <==> r is None,
        r matches Some(m) ==> is_min_of(m as int, data@) && m == min_of(data@),
{
    if data.len() == 0 {
        return None;
    }
    let mut m = data[0];
    let mut k: usize = 0;
    let mut i: usize = 1;
    while i < data.len()
        invariant
            1 <= i <= data@.len(),
            k < i,
            data@[k as int] == m,
            forall|j: int| 0 <= j < i ==> m <= #[trigger] data@[j],
        decreases data@.len() - i,
    {
        if data[i] < m {
            m = data[i];
            k = i;
        }
        i = i + 1;
    }
    proof {
        let c = min_of(data@);
        assert(is_min_of(m as int, data@));
        assert(c <= m && m <= c);
    }
    Some(m)
}

/// The greatest value of a series; `None` when it is empty.
pub fn max_vec(data: &Vec<i64>) -> (r: Option<i64>)
    ensures
        data@.len() == 0 <==> r is None,
        r matches Some(m) ==> is_max_of(m as int, data@) && m == max_of(data@),
{
    if data.len() == 0 {
        return None;
    }
    let mut m = data[0];
    let mut k: usize = 0;
    let mut i: usize = 1;
    while i < data.len()
        invariant
            1 <= i <= data@.len(),
            k < i,
            data@[k as int] == m,
            forall|j: int| 0 <= j < i ==> #[trigger] data@[j] <= m,
        decreases data@.len() - i,
    {
        if data[i] > m {
            m = data[i];
            k = i;
        }
        i = i + 1;
    }
    proof {
        let c = max_of(data@);
        assert(is_max_of(m as int, data@));
        assert(c <= m && m <= c);
    }
    Some(m)
}

} // verus!
