//! Exact statistics over integer latency samples: arithmetic mean and
//! linear-interpolation percentile. Percentile ranks are given in tenths of a
//! percent (so `999` stands for the 99.9th percentile) and percentile results
//! are scaled by 1000, which keeps every value an integer and exact.

use vstd::arithmetic::mul::lemma_mul_inequality;
use vstd::arithmetic::mul::lemma_mul_upper_bound;
use vstd::prelude::*;

verus! {

/// An exact non-negative rational number: `num / den`.
#[derive(Clone, Copy, Debug, PartialEq, Eq, Structural)]
pub struct Ratio {
    pub num: u128,
    pub den: u128,
}

/// Sum of a sequence of samples, as a mathematical integer.
pub open spec fn sum(s: Seq<u64>) -> int
    decreases s.len(),
{
    if s.len() == 0 {
        0
    } else {
        sum(s.drop_last()) + s.last()
    }
}

/// The sequence is in ascending order.
pub open spec fn sorted(s: Seq<u64>) -> bool {
    forall|i: int, j: int| 0 <= i <= j < s.len() ==> s[i] <= s[j]
}

proof fn lemma_sum_subrange_step(s: Seq<u64>, i: int)
    requires
        0 <= i < s.len(),
    ensures
        sum(s.subrange(0, i + 1)) == sum(s.subrange(0, i)) + s[i],
{
    assert(s.subrange(0, i + 1).drop_last() =~= s.subrange(0, i));
    assert(s.subrange(0, i + 1).last() == s[i]);
}

/// Arithmetic mean of the samples as an exact rational; an empty input yields
/// zero (`0 / 1`).
pub fn avg(data: &Vec<u64>) -> (r: Ratio)
    ensures
        r.num as int == sum(data@),
        r.den as int == if data@.len() == 0 { 1int } else { data@.len() as int },
        data@.len() == 0 ==> r.num == 0,
{
    let ghost s = data@;
    let n = data.len();
    let mut total: u128 = 0;
    let mut i: usize = 0;
    while i < n
        invariant
            s == data@,
            n == s.len(),
            i <= n,
            total as int == sum(s.subrange(0, i as int)),
            total as int <= i * (u64::MAX as int),
        decreases n - i,
    {
        proof {
            lemma_sum_subrange_step(s, i as int);
            let m = u64::MAX as int;
            assert(total as int + s[i as int] <= (i as int + 1) * m) by (nonlinear_arith)
                requires
                    total as int <= i as int * m,
                    s[i as int] <= m,
                    0 <= i as int,
            ;
            lemma_mul_inequality(i as int + 1, usize::MAX as int, m);
            lemma_mul_upper_bound(usize::MAX as int, u64::MAX as int, m, u64::MAX as int);
        }
        total = total + (data[i] as u128);
        i += 1;
    }
    proof {
        assert(s.subrange(0, n as int) =~= s);
    }
    if n == 0 {
        Ratio { num: 0, den: 1 }
    } else {
        Ratio { num: total, den: n as u128 }
    }
}

proof fn lemma_insert_multiset(s: Seq<u64>, pos: int, e: u64)
    requires
        0 <= pos <= s.len(),
    ensures
        s.insert(pos, e).to_multiset() == s.to_multiset().insert(e),
{
    broadcast use vstd::seq_lib::group_to_multiset_ensures;
    broadcast use vstd::multiset::group_multiset_axioms;

    let a = s.subrange(0, pos);
    let b = s.subrange(pos, s.len() as int);
    assert(s.insert(pos, e) =~= a.push(e) + b);
    assert(s =~= a + b);
    vstd::seq_lib::lemma_multiset_commutative(a.push(e), b);
    vstd::seq_lib::lemma_multiset_commutative(a, b);
    assert(a.to_multiset().insert(e).add(b.to_multiset()) =~= a.to_multiset().add(
        b.to_multiset(),
    ).insert(e));
}

/// Sort the samples in ascending order; the result is a permutation of the
/// input.
pub fn sort_u64(v: &mut Vec<u64>)
    ensures
        final(v)@.len() == old(v)@.len(),
        final(v)@.to_multiset() == old(v)@.to_multiset(),
        sorted(final(v)@),
{
    broadcast use vstd::seq_lib::group_to_multiset_ensures;

    let ghost orig = v@;
    let n = v.len();
    let mut out: Vec<u64> = Vec::new();
    let mut i: usize = 0;
    while i < n
        invariant
            v@ == orig,
            n == orig.len(),
            i <= n,
            out@.len() == i,
            sorted(out@),
            out@.to_multiset() == orig.subrange(0, i as int).to_multiset(),
        decreases n - i,
    {
        let x = v[i];
        let ghost before = out@;
        let mut k: usize = 0;
        while k < out.len() && out[k] <= x
            invariant
                out@ == before,
                k <= out@.len(),
                forall|t: int| 0 <= t < k ==> out@[t] <= x,
            decreases out@.len() - k,
        {
            k += 1;
        }
        proof {
            lemma_insert_multiset(out@, k as int, x);
            assert(orig.subrange(0, i as int + 1) =~= orig.subrange(0, i as int).push(
                orig[i as int],
            ));
            vstd::seq_lib::to_multiset_build(orig.subrange(0, i as int), orig[i as int]);
        }
        out.insert(k, x);
        proof {
            before.insert_ensures(k as int, x);
            assert forall|p: int, q: int| 0 <= p <= q < out@.len() implies out@[p] <= out@[q] by {
                if p < k as int && q < k as int {
                } else if p < k as int && q == k as int {
                } else if p < k as int && q > k as int {
                    assert(out@[q] == before[q - 1]);
                } else if p == k as int && q > k as int {
                    assert(out@[q] == before[q - 1]);
                    assert(before[k as int] <= before[q - 1]);
                } else if p > k as int && q > k as int {
                    assert(out@[p] == before[p - 1] && out@[q] == before[q - 1]);
                }
            }
        }
        i += 1;
    }
    proof {
        assert(orig.subrange(0, n as int) =~= orig);
    }
    *v = out;
}

/// Value of the `p`-tenths-of-a-percent percentile of an ascending sequence,
/// scaled by 1000. The rank index is `(len - 1) * p / 1000`; a fractional
/// index interpolates linearly between the two neighbouring samples, and rank
/// 1000 (the 100th percentile) is the last sample exactly.
pub open spec fn percentile_of_sorted(s: Seq<u64>, p: int) -> int
    recommends
        s.len() > 0,
        0 < p <= 1000,
{
    if p == 1000 {
        s.last() * 1000
    } else {
        let idx = (s.len() - 1) * p;
        let lo = idx / 1000;
        let frac = idx % 1000;
        if frac == 0 {
            s[lo] * 1000
        } else {
            s[lo] * (1000 - frac) + s[lo + 1] * frac
        }
    }
}

/// Bounds on the rank index used by `percentile_of_sorted`: the lower sample
/// index stays below the length, and interpolation only ever reaches the next
/// sample.
proof fn lemma_rank_bounds(len: int, p: int)
    requires
        len >= 1,
        0 < p < 1000,
    ensures
        0 <= ((len - 1) * p) / 1000 <= len - 1,
        ((len - 1) * p) % 1000 != 0 ==> ((len - 1) * p) / 1000 < len - 1,
        0 <= ((len - 1) * p) % 1000 < 1000,
{
    let idx = (len - 1) * p;
    assert(0 <= (len - 1) * p <= (len - 1) * 1000) by (nonlinear_arith)
        requires
            len >= 1,
            0 < p <= 1000,
    ;
    vstd::arithmetic::div_mod::lemma_div_is_ordered(idx, (len - 1) * 1000, 1000);
    vstd::arithmetic::div_mod::lemma_div_multiples_vanish(len - 1, 1000);
    vstd::arithmetic::div_mod::lemma_fundamental_div_mod(idx, 1000);
    vstd::arithmetic::div_mod::lemma_remainder_upper(idx, 1000);
    vstd::arithmetic::div_mod::lemma_remainder_lower(idx, 1000);
    if idx % 1000 != 0 {
        assert(idx != (len - 1) * 1000) by {
            vstd::arithmetic::div_mod::lemma_mod_multiples_basic(len - 1, 1000);
        }
        assert(idx < (len - 1) * 1000);
        vstd::arithmetic::div_mod::lemma_multiply_divide_lt(idx, len - 1, 1000);
    }
}

/// The `percent_tenths`-tenths-of-a-percent percentile of the samples, scaled
/// by 1000 (a result of 81200 stands for 81.2). Sorts the samples in place;
/// the result is what `percentile_of_sorted` gives on the sorted permutation
/// of the input.
pub fn percentile(data: &mut Vec<u64>, percent_tenths: u64) -> (r: u128)
    requires
        old(data)@.len() > 0,
        0 < percent_tenths <= 1000,
    ensures
        final(data)@.len() == old(data)@.len(),
        final(data)@.to_multiset() == old(data)@.to_multiset(),
        sorted(final(data)@),
        r as int == percentile_of_sorted(final(data)@, percent_tenths as int),
{
    sort_u64(data);
    let n = data.len();
    if percent_tenths == 1000 {
        let m = data[n - 1];
        proof {
            assert(data@.last() == data@[n as int - 1]);
            lemma_mul_upper_bound(m as int, u64::MAX as int, 1000, 1000);
        }
        return (m as u128) * 1000;
    }
    proof {
        lemma_rank_bounds(n as int, percent_tenths as int);
        lemma_mul_upper_bound(n as int - 1, u64::MAX as int, percent_tenths as int, 1000);
    }
    let idx: u128 = ((n - 1) as u128) * (percent_tenths as u128);
    let lo: u128 = idx / 1000;
    let frac: u128 = idx % 1000;
    let lo_ix: usize = lo as usize;
    if frac == 0 {
        let a = data[lo_ix];
        proof {
            lemma_mul_upper_bound(a as int, u64::MAX as int, 1000, 1000);
        }
        (a as u128) * 1000
    } else {
        let a = data[lo_ix];
        let b = data[lo_ix + 1];
        proof {
            lemma_mul_upper_bound(a as int, u64::MAX as int, 1000 - frac as int, 1000);
            lemma_mul_upper_bound(b as int, u64::MAX as int, frac as int, 1000);
        }
        (a as u128) * (1000 - frac) + (b as u128) * frac
    }
}

/// For any non-empty sample set and any rank, the percentile lies between the
/// smallest and the largest sample, and rank 1000 (the 100th percentile) is
/// the largest sample exactly, with no interpolation. `xs` is the samples as
/// handed in; `s` is their ascending ordering, whose first and last elements
/// are the minimum and maximum of `xs`.
pub proof fn lemma_percentile_bounds(xs: Seq<u64>, s: Seq<u64>, p: int)
    requires
        xs.to_multiset() == s.to_multiset(),
        sorted(s),
        s.len() > 0,
        0 < p <= 1000,
    ensures
        xs.len() == s.len(),
        xs.contains(s[0]),
        xs.contains(s.last()),
        forall|i: int| 0 <= i < xs.len() ==> s[0] <= #[trigger] xs[i] <= s.last(),
        s[0] * 1000 <= percentile_of_sorted(s, p) <= s.last() * 1000,
        p == 1000 ==> percentile_of_sorted(s, p) == s.last() * 1000,
{
    broadcast use vstd::seq_lib::group_to_multiset_ensures;

    assert(xs.len() == s.len()) by {
        xs.to_multiset_ensures();
        s.to_multiset_ensures();
        assert(xs.to_multiset().len() == s.to_multiset().len());
    }
    assert(s.contains(s[0]) && s.contains(s.last()));
    assert(xs.contains(s[0]) && xs.contains(s.last())) by {
        assert(xs.to_multiset().count(s[0]) > 0 && xs.to_multiset().count(s.last()) > 0);
    }
    assert forall|i: int| 0 <= i < xs.len() implies s[0] <= #[trigger] xs[i] <= s.last() by {
        assert(s.to_multiset().count(xs[i]) > 0);
        assert(s.contains(xs[i]));
        let j = choose|j: int| 0 <= j < s.len() && s[j] == xs[i];
        assert(s[0] <= s[j] <= s[s.len() - 1]);
    }
    if p < 1000 {
        lemma_rank_bounds(s.len() as int, p);
        let idx = (s.len() - 1) * p;
        let lo = idx / 1000;
        let frac = idx % 1000;
        let mn = s[0] as int;
        let mx = s.last() as int;
        if frac == 0 {
            assert(mn * 1000 <= s[lo] * 1000 <= mx * 1000) by (nonlinear_arith)
                requires
                    mn <= s[lo] <= mx,
            ;
        } else {
            let a = s[lo] as int;
            let b = s[lo + 1] as int;
            assert(mn * 1000 <= a * (1000 - frac) + b * frac <= mx * 1000) by (nonlinear_arith)
                requires
                    mn <= a <= mx,
                    mn <= b <= mx,
                    0 < frac < 1000,
            ;
        }
    }
}

/// The percentile does not depend on the order of the samples: two ascending
/// sequences holding the same samples are the same sequence, so every
/// percentile of the one equals that percentile of the other.
pub proof fn lemma_percentile_permutation(s1: Seq<u64>, s2: Seq<u64>, p: int)
    requires
        sorted(s1),
        sorted(s2),
        s1.to_multiset() == s2.to_multiset(),
    ensures
        s1 == s2,
        percentile_of_sorted(s1, p) == percentile_of_sorted(s2, p),
{
    let leq = |a: u64, b: u64| a <= b;
    assert(vstd::relations::total_ordering(leq)) by {
        assert forall|x: u64| #[trigger] leq(x, x) by {}
        assert forall|x: u64, y: u64| #[trigger] leq(x, y) && #[trigger] leq(y, x) implies x
            == y by {}
        assert forall|x: u64, y: u64, z: u64|
            #[trigger] leq(x, y) && #[trigger] leq(y, z) implies leq(x, z) by {}
        assert forall|x: u64, y: u64| #[trigger] leq(x, y) || #[trigger] leq(y, x) by {}
    }
    assert(vstd::relations::sorted_by(s1, leq));
    assert(vstd::relations::sorted_by(s2, leq));
    vstd::seq_lib::lemma_sorted_unique(s1, s2, leq);
    assert(s1 == s2);
}

/// The median of an ascending sequence, scaled by 1000: the middle sample for
/// an odd length, the mean of the two middle samples for an even length.
pub open spec fn median_of_sorted(s: Seq<u64>) -> int
    recommends
        s.len() > 0,
{
    if s.len() % 2 == 1 {
        s[(s.len() - 1) as int / 2] * 1000
    } else {
        (s[s.len() as int / 2 - 1] + s[s.len() as int / 2]) * 500
    }
}

/// The 50th percentile is the median under its usual definition: the middle
/// sample for an odd number of samples, the average of the two middle samples
/// for an even number.
pub proof fn lemma_percentile_median(s: Seq<u64>)
    requires
        sorted(s),
        s.len() > 0,
    ensures
        percentile_of_sorted(s, 500) == median_of_sorted(s),
{
    let len = s.len() as int;
    let idx = (len - 1) * 500;
    if len % 2 == 1 {
        let h = (len - 1) / 2;
        assert(len - 1 == 2 * h);
        assert(idx == h * 1000) by (nonlinear_arith)
            requires
                idx == (len - 1) * 500,
                len - 1 == 2 * h,
        ;
        vstd::arithmetic::div_mod::lemma_fundamental_div_mod_converse(idx, 1000, h, 0);
    } else {
        let h = len / 2;
        assert(len == 2 * h);
        assert(idx == (h - 1) * 1000 + 500) by (nonlinear_arith)
            requires
                idx == (len - 1) * 500,
                len == 2 * h,
        ;
        vstd::arithmetic::div_mod::lemma_fundamental_div_mod_converse(idx, 1000, h - 1, 500);
        assert(percentile_of_sorted(s, 500) == s[h - 1] * 500 + s[h] * 500);
        assert((s[h - 1] + s[h]) * 500 == s[h - 1] * 500 + s[h] * 500) by (nonlinear_arith);
    }
}

/// Over a single sample, every percentile equals that sample.
pub proof fn lemma_percentile_single(s: Seq<u64>, p: int)
    requires
        s.len() == 1,
        0 < p <= 1000,
    ensures
        percentile_of_sorted(s, p) == s[0] * 1000,
{
    if p < 1000 {
        assert((s.len() - 1) * p == 0) by (nonlinear_arith)
            requires
                s.len() == 1,
        ;
    } else {
        assert(s.last() == s[0]);
    }
}

} // verus!
