//! A verified descending sort of key/value pairs, shared by the listings
//! that present rows in key order.

use vstd::prelude::*;
use vstd::multiset::Multiset;
use vstd::seq_lib::group_to_multiset_ensures;

verus! {

/// Whether the pairs are in descending key order.
pub open spec fn sorted_desc<T>(s: Seq<(i64, T)>) -> bool {
    forall|a: int, b: int| 0 <= a < b < s.len() ==> (#[trigger] s[a]).0 >= (#[trigger] s[b]).0
}

/// Sorts the pairs by descending key: the result holds exactly the input's
/// pairs, in descending key order.
pub fn sort_pairs_desc<T>(input: Vec<(i64, T)>) -> (r: Vec<(i64, T)>)
    ensures
        r@.len() == input@.len(),
        r@.to_multiset() == input@.to_multiset(),
        sorted_desc(r@),
        forall|x: (i64, T)| r@.contains(x) <==> input@.contains(x),
{
    broadcast use group_to_multiset_ensures;

    let ghost input0 = input@;
    let mut rest = input;
    let mut out: Vec<(i64, T)> = Vec::new();
    while rest.len() > 0
        invariant
            out@.len() + rest@.len() == input0.len(),
            out@.to_multiset().add(rest@.to_multiset()) == input0.to_multiset(),
            sorted_desc(out@),
            forall|a: int, k: int|
                0 <= a < out@.len() && 0 <= k < rest@.len() ==> (#[trigger] out@[a]).0 >= (
                #[trigger] rest@[k]).0,
        decreases rest@.len(),
    {
        let n = rest.len();
        let mut mi: usize = 0;
        let mut k: usize = 1;
        while k < n
            invariant
                n == rest@.len(),
                mi < k,
                k <= n,
                forall|m: int| 0 <= m < k ==> (#[trigger] rest@[m]).0 <= rest@[mi as int].0,
            decreases n - k,
        {
            if rest[k].0 > rest[mi].0 {
                mi = k;
            }
            k += 1;
        }
        let ghost rest0 = rest@;
        let ghost out0 = out@;
        let item = rest.remove(mi);
        out.push(item);
        proof {
            rest0.to_multiset_ensures();
            out0.to_multiset_ensures();
            assert(rest@ == rest0.remove(mi as int));
            assert(item == rest0[mi as int]);
            assert(rest0.remove(mi as int).to_multiset() =~= rest0.to_multiset().remove(item));
            assert(out@ == out0.push(item));
            assert(out0.push(item).to_multiset() =~= out0.to_multiset().insert(item));
            assert(rest0.to_multiset().count(item) >= 1) by {
                assert(rest0.contains(item));
            }
            assert(out@.to_multiset().add(rest@.to_multiset()) =~= input0.to_multiset());
            assert(forall|m: int| 0 <= m < rest@.len() ==> rest@[m] == rest0[if m < mi as int {
                m
            } else {
                m + 1
            }]);
        }
    }
    proof {
        assert(rest@.to_multiset() =~= Multiset::<(i64, T)>::empty());
        assert(out@.to_multiset() =~= out@.to_multiset().add(rest@.to_multiset()));
        assert forall|x: (i64, T)| out@.contains(x) <==> input0.contains(x) by {
            assert(out@.contains(x) <==> out@.to_multiset().count(x) > 0);
            assert(input0.contains(x) <==> input0.to_multiset().count(x) > 0);
        }
    }
    out
}

} // verus!
