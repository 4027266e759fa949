use vstd::prelude::*;

use crate::error::SplineError;

verus! {

broadcast use vstd::seq_lib::group_to_multiset_ensures;

/// Keys never decrease along `s`.
pub open spec fn sorted_by_key<V>(s: Seq<(i64, V)>) -> bool {
    forall|i: int, j: int| 0 <= i < j < s.len() ==> s[i].0 <= s[j].0
}

/// Keys strictly increase along `s`.
pub open spec fn strictly_sorted_by_key<V>(s: Seq<(i64, V)>) -> bool {
    forall|i: int, j: int| 0 <= i < j < s.len() ==> s[i].0 < s[j].0
}

/// No two entries of `s` share a key.
pub open spec fn distinct_keys<V>(s: Seq<(i64, V)>) -> bool {
    forall|i: int, j: int| 0 <= i < s.len() && 0 <= j < s.len() && i != j ==> s[i].0 != s[j].0
}

/// `from` tells for each entry of `s` where it stands in `input`, and entries
/// of `s` with equal keys keep the order they had in `input`.
pub open spec fn stable_source<V>(s: Seq<(i64, V)>, input: Seq<(i64, V)>, from: Seq<int>) -> bool {
    &&& from.len() == s.len()
    &&& forall|k: int| 0 <= k < s.len() ==> 0 <= #[trigger] from[k] < input.len() && s[k] == input[from[k]]
    &&& forall|k: int, l: int|
        0 <= k < l < s.len() && s[k].0 == s[l].0 ==> #[trigger] from[k] < #[trigger] from[l]
}

/// `s` holds the entries of `input`, ordered by key by a stable sort.
pub open spec fn arranges<V>(s: Seq<(i64, V)>, input: Seq<(i64, V)>) -> bool {
    &&& sorted_by_key(s)
    &&& s.to_multiset() == input.to_multiset()
    &&& distinct_keys(input) ==> strictly_sorted_by_key(s)
    &&& exists|from: Seq<int>| stable_source(s, input, from)
}

/// Pairs the positions `x` with the values `y`, index by index.
pub fn vec_to_points<T: Copy>(x: &Vec<T>, y: &Vec<T>) -> (r: Vec<(T, T)>)
    requires
        x.len() == y.len(),
    ensures
        r.len() == x.len(),
        forall|i: int| 0 <= i < r.len() ==> #[trigger] r@[i] == (x@[i], y@[i]),
{
    let mut r: Vec<(T, T)> = Vec::new();
    let mut i: usize = 0;
    while i < x.len()
        invariant
            x.len() == y.len(),
            i <= x.len(),
            r.len() == i,
            forall|k: int| 0 <= k < i ==> #[trigger] r@[k] == (x@[k], y@[k]),
        decreases x.len() - i,
    {
        r.push((x[i], y[i]));
        i += 1;
    }
    r
}

/// The first index of the sorted `s` whose key is above `key`.
fn insertion_point<V: Copy>(s: &Vec<(i64, V)>, key: i64) -> (r: usize)
    requires
        sorted_by_key(s@),
    ensures
        r <= s.len(),
        forall|k: int| 0 <= k < r ==> s@[k].0 <= key,
        forall|k: int| r <= k < s.len() ==> s@[k].0 > key,
{
    let mut lo: usize = 0;
    let mut hi: usize = s.len();
    while lo < hi
        invariant
            lo <= hi <= s.len(),
            sorted_by_key(s@),
            forall|k: int| 0 <= k < lo ==> s@[k].0 <= key,
            forall|k: int| hi <= k < s.len() ==> s@[k].0 > key,
        decreases hi - lo,
    {
        let mid: usize = lo + (hi - lo) / 2;
        if s[mid].0 <= key {
            lo = mid + 1;
        } else {
            hi = mid;
        }
    }
    lo
}

/// Orders points, each carried with the order key of its position, by key.
///
/// The sort is stable: points at the same position keep their input order.
/// Fewer than two points cannot make a spline and are refused.
pub fn sort_points<V: Copy>(points: Vec<(i64, V)>) -> (r: Result<Vec<(i64, V)>, SplineError>)
    ensures
        r is Err <==> points.len() < 2,
        r matches Err(e) ==> e == SplineError::InsufficientData,
        r matches Ok(s) ==> arranges(s@, points@),
{
    let n = points.len();
    if n < 2 {
        return Err(SplineError::InsufficientData);
    }
    let mut out: Vec<(i64, V)> = Vec::new();
    let ghost mut from: Seq<int> = Seq::empty();
    let mut i: usize = 0;
    while i < n
        invariant
            n == points.len(),
            i <= n,
            out.len() == i,
            sorted_by_key(out@),
            out@.to_multiset() == points@.subrange(0, i as int).to_multiset(),
            from.len() == i,
            forall|k: int| 0 <= k < i ==> 0 <= #[trigger] from[k] < i && out@[k] == points@[from[k]],
            forall|k: int, l: int|
                0 <= k < l < i && out@[k].0 == out@[l].0 ==> #[trigger] from[k] < #[trigger] from[l],
            distinct_keys(points@) ==> strictly_sorted_by_key(out@),
        decreases n - i,
    {
        let p = points[i];
        let j = insertion_point(&out, p.0);
        let ghost before = out@;
        let ghost from0 = from;
        assert(points@.subrange(0, i + 1) == points@.subrange(0, i as int).push(p));
        out.insert(j, p);
        proof {
            from = from.insert(j as int, i as int);
            assert forall|k: int| 0 <= k < i + 1 implies 0 <= #[trigger] from[k] < i + 1
                && out@[k] == points@[from[k]] by {
                if k < j {
                    assert(from[k] == from0[k]);
                } else if k > j {
                    assert(from[k] == from0[k - 1]);
                }
            }
            assert forall|k: int, l: int|
                0 <= k < l < i + 1 && out@[k].0 == out@[l].0 implies #[trigger] from[k]
                < #[trigger] from[l] by {
                if k < j && l < j {
                    assert(from0[k] < from0[l]);
                } else if k < j && l > j {
                    assert(before[l - 1].0 > p.0);
                } else if k > j && l > j {
                    assert(from0[k - 1] < from0[l - 1]);
                } else if k == j {
                    assert(before[l - 1].0 > p.0);
                } else {
                    assert(from0[k] < i);
                }
            }
            assert forall|a: int, b: int| 0 <= a < b < i + 1 implies out@[a].0 <= out@[b].0 by {
                if a < j && b > j {
                    assert(before[a].0 <= p.0);
                }
            }
            if distinct_keys(points@) {
                assert forall|a: int, b: int| 0 <= a < b < i + 1 implies out@[a].0 < out@[b].0 by {
                    if a < j && b == j {
                        assert(before[a] == points@[from0[a]]);
                        assert(from0[a] != i);
                    } else if a < j && b > j {
                        assert(before[a] == points@[from0[a]]);
                        assert(from0[a] != i);
                    }
                }
            }
        }
        i += 1;
    }
    assert(points@.subrange(0, n as int) == points@);
    assert(stable_source(out@, points@, from));
    Ok(out)
}

/// Two key-sorted sequences with the same entries are equal when the first
/// has no repeated key.
proof fn lemma_sorted_unique<V>(s1: Seq<(i64, V)>, s2: Seq<(i64, V)>)
    requires
        strictly_sorted_by_key(s1),
        sorted_by_key(s2),
        s1.to_multiset() == s2.to_multiset(),
    ensures
        s1 == s2,
    decreases s1.len(),
{
    assert(s1.len() == s1.to_multiset().len());
    assert(s2.len() == s2.to_multiset().len());
    if s1.len() == 0 {
        assert(s1 =~= s2);
    } else {
        let x = s1[0];
        let y = s2[0];
        assert(s1.contains(x));
        assert(s1.to_multiset().count(x) > 0);
        assert(s2.contains(x));
        let j = choose|j: int| 0 <= j < s2.len() && s2[j] == x;
        assert(x.0 >= y.0);
        assert(s2.contains(y));
        assert(s2.to_multiset().count(y) > 0);
        assert(s1.contains(y));
        let i = choose|i: int| 0 <= i < s1.len() && s1[i] == y;
        assert(y.0 >= x.0);
        assert(i == 0);
        assert(x == y);
        let r1 = s1.remove(0);
        let r2 = s2.remove(0);
        assert(r1.to_multiset() == s1.to_multiset().remove(x));
        assert(r2.to_multiset() == s2.to_multiset().remove(y));
        assert(strictly_sorted_by_key(r1));
        assert(sorted_by_key(r2));
        lemma_sorted_unique(r1, r2);
        assert forall|k: int| 0 <= k < s1.len() implies s1[k] == s2[k] by {
            if k > 0 {
                assert(s1[k] == r1[k - 1]);
                assert(s2[k] == r2[k - 1]);
            }
        }
        assert(s1 =~= s2);
    }
}

/// Sorting points whose positions are all distinct does not depend on the
/// order in which they are given: any two arrangements of the same points
/// sort to the same sequence.
pub proof fn lemma_order_independent<V>(
    a: Seq<(i64, V)>,
    b: Seq<(i64, V)>,
    sorted_a: Seq<(i64, V)>,
    sorted_b: Seq<(i64, V)>,
)
    requires
        distinct_keys(a),
        b.to_multiset() == a.to_multiset(),
        arranges(sorted_a, a),
        arranges(sorted_b, b),
    ensures
        sorted_a == sorted_b,
{
    lemma_sorted_unique(sorted_a, sorted_b);
}

} // verus!
