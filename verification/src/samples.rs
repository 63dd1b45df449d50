//! The example tasks the library is demonstrated and exercised with: a
//! sorting function on raw bytes and one on a small wrapper type. A worker
//! registers these under their names; the calling side reaches them only
//! through the name-keyed wire path.

use vstd::prelude::*;

verus! {

broadcast use vstd::seq_lib::group_to_multiset_ensures;

/// A byte sequence is sorted in non-decreasing order.
pub open spec fn sorted(s: Seq<u8>) -> bool {
    forall|i: int, j: int| 0 <= i <= j < s.len() ==> s[i] <= s[j]
}

/// A wrapper type around a byte vector: the payload of the example tasks.
#[derive(Debug, Clone, PartialEq, Eq)]
pub struct VecType(pub Vec<u8>);

/// Sorts a byte vector in non-decreasing order. The result holds exactly
/// the input's bytes, rearranged.
pub fn sort(v: Vec<u8>) -> (r: Vec<u8>)
    ensures
        sorted(r@),
        r@.to_multiset() == v@.to_multiset(),
{
    let n = v.len();
    let mut out: Vec<u8> = Vec::new();
    let mut i: usize = 0;
    while i < n
        invariant
            i <= n,
            n == v@.len(),
            sorted(out@),
            out@.len() == i,
            out@.to_multiset() == v@.take(i as int).to_multiset(),
        decreases n - i,
    {
        let x = v[i];
        let m = out.len();
        let mut p: usize = 0;
        while p < m && out[p] <= x
            invariant
                p <= m,
                m == out@.len(),
                forall|j: int| 0 <= j < p ==> out@[j] <= x,
            decreases m - p,
        {
            p = p + 1;
        }
        let ghost out0 = out@;
        out.insert(p, x);
        proof {
            out0.insert_ensures(p as int, x);
            assert forall|a: int, b: int| 0 <= a <= b < out@.len() implies out@[a] <= out@[b] by {
                if b < p {
                    assert(out@[a] == out0[a] && out@[b] == out0[b]);
                } else if a > p {
                    assert(out@[a] == out0[a - 1] && out@[b] == out0[b - 1]);
                } else if a == p && b == p {
                } else if a < p && b == p {
                    assert(out@[a] == out0[a] && out@[b] == x);
                } else if a == p && b > p {
                    assert(out@[a] == x && out@[b] == out0[b - 1]);
                    assert(p < out0.len() ==> out0[p as int] > x);
                    assert(out0[b - 1] >= out0[p as int]);
                } else {
                    assert(a < p && b > p);
                    assert(out@[a] == out0[a] && out@[b] == out0[b - 1]);
                    assert(out0[b - 1] >= out0[p as int]);
                }
            }
            assert(v@.take(i as int + 1) =~= v@.take(i as int).push(x));
            assert(out@.to_multiset() == v@.take(i as int + 1).to_multiset());
        }
        i = i + 1;
    }
    proof {
        assert(v@.take(n as int) =~= v@);
    }
    out
}

/// The example task on the wrapper type: sorts the wrapped bytes.
pub fn sort_vec(v: VecType) -> (r: VecType)
    ensures
        sorted(r.0@),
        r.0@.to_multiset() == v.0@.to_multiset(),
{
    VecType(sort(v.0))
}

} // verus!
