//! Order statistics over measured distances: sorting, median, and the
//! quartile-based outlier rejection shared by the ray caster and the stroke
//! contrast analyses.
//!
//! All values are fixed-point integers. The outlier policy sorts the values,
//! takes the first and third quartile at the index positions `len / 4` and
//! `3 * len / 4` of the sorted list, and keeps the values within one and a half
//! interquartile ranges of the quartiles. Lists of fewer than three values are
//! returned unchanged.

use vstd::prelude::*;
use vstd::relations::{sorted_by, total_ordering};
use vstd::seq_lib::lemma_sorted_unique;

verus! {

/// The ascending order on measured values.
pub open spec fn value_le(a: i64, b: i64) -> bool {
    a <= b
}

/// The ascending rearrangement of a sequence of values.
pub open spec fn ascending_of(s: Seq<i64>) -> Seq<i64> {
    s.sort_by(|a: i64, b: i64| value_le(a, b))
}

/// Whether a sequence is ascending.
pub open spec fn is_ascending(s: Seq<i64>) -> bool {
    forall|i: int, j: int| 0 <= i < j < s.len() ==> s[i] <= s[j]
}

proof fn lemma_value_le_total()
    ensures
        total_ordering(|a: i64, b: i64| value_le(a, b)),
{
}

pub(crate) proof fn lemma_ascending_of(s: Seq<i64>)
    ensures
        ascending_of(s).to_multiset() == s.to_multiset(),
        ascending_of(s).len() == s.len(),
        is_ascending(ascending_of(s)),
{
    let leq = |a: i64, b: i64| value_le(a, b);
    s.lemma_sort_by_ensures(leq);
    broadcast use vstd::seq_lib::group_to_multiset_ensures;

    assert(s.to_multiset().len() == s.len());
    assert(s.sort_by(leq).to_multiset().len() == s.sort_by(leq).len());
    assert(sorted_by(ascending_of(s), leq));
    assert forall|i: int, j: int|
        0 <= i < j < ascending_of(s).len() implies ascending_of(s)[i] <= ascending_of(s)[j] by {
        assert(leq(ascending_of(s)[i], ascending_of(s)[j]));
    }
}

/// Sorts the values ascending. The result is the ascending rearrangement of
/// the input.
pub fn sort_values(values: &Vec<i64>) -> (r: Vec<i64>)
    ensures
        r@ == ascending_of(values@),
        r@.len() == values@.len(),
        is_ascending(r@),
{
    let mut rest: Vec<i64> = values.clone();
    let mut out: Vec<i64> = Vec::new();
    proof {
        broadcast use vstd::seq_lib::group_to_multiset_ensures;

        assert(rest@ =~= values@);
        assert(out@.to_multiset().add(rest@.to_multiset()) =~= values@.to_multiset());
    }
    while rest.len() > 0
        invariant
            out@.to_multiset().add(rest@.to_multiset()) == values@.to_multiset(),
            out@.len() + rest@.len() == values@.len(),
            is_ascending(out@),
            forall|i: int, j: int|
                0 <= i < out@.len() && 0 <= j < rest@.len() ==> out@[i] <= rest@[j],
        decreases rest@.len(),
    {
        let mut m: usize = 0;
        let mut k: usize = 1;
        while k < rest.len()
            invariant
                0 <= m < k <= rest@.len(),
                rest@.len() > 0,
                forall|i: int| 0 <= i < k ==> rest@[m as int] <= rest@[i],
            decreases rest@.len() - k,
        {
            if rest[k] < rest[m] {
                m = k;
            }
            k = k + 1;
        }
        let x = rest.remove(m);
        out.push(x);
        proof {
            broadcast use vstd::seq_lib::group_to_multiset_ensures;
        }
    }
    proof {
        broadcast use vstd::seq_lib::group_to_multiset_ensures;

        let leq = |a: i64, b: i64| value_le(a, b);
        lemma_value_le_total();
        values@.lemma_sort_by_ensures(leq);
        lemma_ascending_of(values@);
        assert(out@.to_multiset() =~= values@.to_multiset());
        assert(sorted_by(out@, leq));
        assert(sorted_by(ascending_of(values@), leq));
        lemma_sorted_unique(out@, ascending_of(values@), leq);
        assert(out@ =~= ascending_of(values@));
    }
    out
}

/// The midpoint of two values `a <= b`, rounded toward `a`.
pub open spec fn midpoint(a: int, b: int) -> int {
    a + (b - a) / 2
}

/// The median of a list of values: the middle element of the ascending
/// rearrangement, or the midpoint of the two middle elements when the length
/// is even.
pub open spec fn median_spec(s: Seq<i64>) -> int
    recommends
        s.len() > 0,
{
    let t = ascending_of(s);
    if s.len() % 2 == 1 {
        t[s.len() as int / 2] as int
    } else {
        midpoint(t[s.len() as int / 2 - 1] as int, t[s.len() as int / 2] as int)
    }
}

/// Returns the median of the values.
pub fn median(values: &Vec<i64>) -> (r: i64)
    requires
        values@.len() > 0,
    ensures
        r as int == median_spec(values@),
{
    let t = sort_values(values);
    let n = t.len();
    if n % 2 == 1 {
        t[n / 2]
    } else {
        let a = t[n / 2 - 1];
        let b = t[n / 2];
        assert(a <= b);
        let half: i64 = (((b as i128) - (a as i128)) / 2) as i64;
        assert(a as int + half as int == midpoint(a as int, b as int));
        a + half
    }
}

/// The first quartile of the values: the element of the ascending
/// rearrangement at a quarter of the length.
pub open spec fn quartile1(s: Seq<i64>) -> i64 {
    ascending_of(s)[s.len() as int / 4]
}

/// The third quartile of the values: the element of the ascending
/// rearrangement at three quarters of the length.
pub open spec fn quartile3(s: Seq<i64>) -> i64 {
    ascending_of(s)[s.len() as int * 3 / 4]
}

/// Whether a value lies within one and a half interquartile ranges of the
/// quartiles, stated over doubled values so that the half stays exact.
pub open spec fn within_fences(v: i64, q1: i64, q3: i64) -> bool {
    let iqr = q3 as int - q1 as int;
    &&& 2 * (v as int) >= 2 * (q1 as int) - 3 * iqr
    &&& 2 * (v as int) <= 2 * (q3 as int) + 3 * iqr
}

/// Outlier rejection: lists of fewer than three values are unchanged; longer
/// lists keep exactly the values within the quartile fences, in their
/// original order.
pub open spec fn reject_outliers_spec(s: Seq<i64>) -> Seq<i64> {
    if s.len() < 3 {
        s
    } else {
        s.filter(|v: i64| within_fences(v, quartile1(s), quartile3(s)))
    }
}

pub(crate) proof fn lemma_filter_push<A>(s: Seq<A>, pred: spec_fn(A) -> bool, x: A)
    ensures
        s.push(x).filter(pred) == if pred(x) {
            s.filter(pred).push(x)
        } else {
            s.filter(pred)
        },
{
    reveal(Seq::filter);
    assert(s.push(x).drop_last() =~= s);
    assert(s.push(x).last() == x);
}

pub(crate) proof fn lemma_filter_all<A>(s: Seq<A>, pred: spec_fn(A) -> bool)
    requires
        forall|i: int| 0 <= i < s.len() ==> pred(s[i]),
    ensures
        s.filter(pred) == s,
    decreases s.len(),
{
    reveal(Seq::filter);
    if s.len() > 0 {
        lemma_filter_all(s.drop_last(), pred);
        assert(s.drop_last().push(s.last()) =~= s);
        lemma_filter_push(s.drop_last(), pred, s.last());
    }
}

/// A filtered prefix is a prefix of the filtered whole.
pub(crate) proof fn lemma_filter_prefix<A>(s: Seq<A>, pred: spec_fn(A) -> bool, j: int)
    requires
        0 <= j <= s.len(),
    ensures
        s.take(j).filter(pred).len() <= s.filter(pred).len(),
        s.take(j).filter(pred) == s.filter(pred).take(s.take(j).filter(pred).len() as int),
    decreases s.len() - j,
{
    if j == s.len() {
        assert(s.take(j) =~= s);
        assert(s.filter(pred).take(s.filter(pred).len() as int) =~= s.filter(pred));
    } else {
        lemma_filter_prefix(s, pred, j + 1);
        lemma_filter_push(s.take(j), pred, s[j]);
        assert(s.take(j).push(s[j]) =~= s.take(j + 1));
        let a = s.take(j).filter(pred);
        let b = s.take(j + 1).filter(pred);
        assert(b == s.filter(pred).take(b.len() as int));
        if pred(s[j]) {
            assert(b == a.push(s[j]));
            assert(a =~= b.take(a.len() as int));
        } else {
            assert(a == b);
        }
        assert(a =~= s.filter(pred).take(a.len() as int));
    }
}

/// Rejects outliers from a list of values. Fewer than three values are
/// returned unchanged; otherwise exactly the values within the quartile
/// fences are kept, in order.
pub fn reject_outliers(values: &Vec<i64>) -> (r: Vec<i64>)
    ensures
        r@ == reject_outliers_spec(values@),
        values@.len() < 3 ==> r@ == values@,
{
    if values.len() < 3 {
        let r = values.clone();
        proof {
            assert(r@ =~= values@);
        }
        return r;
    }
    let t = sort_values(values);
    let q1 = t[values.len() / 4];
    let q3i: usize = ((values.len() as u128) * 3 / 4) as usize;
    assert(q3i == values@.len() as int * 3 / 4);
    let q3 = t[q3i];
    assert(q1 == quartile1(values@));
    assert(q3 == quartile3(values@));
    let ghost pred = |v: i64| within_fences(v, quartile1(values@), quartile3(values@));
    let mut out: Vec<i64> = Vec::new();
    let mut i: usize = 0;
    proof {
        assert(values@.subrange(0, 0) =~= Seq::<i64>::empty());
        reveal(Seq::filter);
    }
    while i < values.len()
        invariant
            0 <= i <= values@.len(),
            values@.len() >= 3,
            q1 == quartile1(values@),
            q3 == quartile3(values@),
            pred == (|v: i64| within_fences(v, quartile1(values@), quartile3(values@))),
            out@ == values@.subrange(0, i as int).filter(pred),
        decreases values@.len() - i,
    {
        let v = values[i];
        let iqr: i128 = (q3 as i128) - (q1 as i128);
        let keep = 2 * (v as i128) >= 2 * (q1 as i128) - 3 * iqr && 2 * (v as i128) <= 2 * (
        q3 as i128) + 3 * iqr;
        assert(keep == pred(v));
        if keep {
            out.push(v);
        }
        proof {
            lemma_filter_push(values@.subrange(0, i as int), pred, v);
            assert(values@.subrange(0, i as int).push(v) =~= values@.subrange(0, i as int + 1));
        }
        i = i + 1;
    }
    proof {
        assert(values@.subrange(0, values@.len() as int) =~= values@);
    }
    out
}

/// Every list whose values all lie within one interquartile range of the
/// median keeps all of its values under outlier rejection.
pub proof fn lemma_within_iqr_of_median_kept(s: Seq<i64>)
    requires
        forall|i: int|
            0 <= i < s.len() ==> median_spec(s) - (quartile3(s) as int - quartile1(s) as int) <= (
            #[trigger] s[i]) as int <= median_spec(s) + (quartile3(s) as int - quartile1(s) as int),
    ensures
        reject_outliers_spec(s) == s,
{
    if s.len() < 3 {
    } else {
        let t = ascending_of(s);
        let n = s.len() as int;
        lemma_ascending_of(s);
        let q1 = quartile1(s) as int;
        let q3 = quartile3(s) as int;
        let med = median_spec(s);
        assert(0 <= n / 4 <= n * 3 / 4 < n);
        assert(q1 <= q3) by {
            if n / 4 < n * 3 / 4 {
                assert(t[n / 4] <= t[n * 3 / 4]);
            }
        }
        let iqr = q3 - q1;
        assert(q1 <= med) by {
            if n % 2 == 1 {
                assert(n / 4 <= n / 2);
                if n / 4 < n / 2 {
                    assert(t[n / 4] <= t[n / 2]);
                }
            } else {
                assert(n >= 4);
                assert(n / 4 <= n / 2 - 1);
                if n / 4 < n / 2 - 1 {
                    assert(t[n / 4] <= t[n / 2 - 1]);
                }
                assert(t[n / 2 - 1] <= t[n / 2]);
                assert(med >= t[n / 2 - 1]);
            }
        }
        assert(med <= q3) by {
            if n % 2 == 1 {
                assert(n / 2 <= n * 3 / 4);
                if n / 2 < n * 3 / 4 {
                    assert(t[n / 2] <= t[n * 3 / 4]);
                }
            } else {
                assert(t[n / 2 - 1] <= t[n / 2]);
                assert(med <= t[n / 2]);
                assert(n / 2 <= n * 3 / 4);
                if n / 2 < n * 3 / 4 {
                    assert(t[n / 2] <= t[n * 3 / 4]);
                }
            }
        }
        let pred = |v: i64| within_fences(v, quartile1(s), quartile3(s));
        assert forall|i: int| 0 <= i < s.len() implies pred(s[i]) by {
            assert(s[i] as int >= med - iqr);
            assert(s[i] as int <= med + iqr);
        }
        lemma_filter_all(s, pred);
    }
}

} // verus!
