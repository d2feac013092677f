//! Ordered reassembly: results arrive from the workers in arbitrary
//! completion order; the collector checks that exactly as many arrived as
//! jobs were submitted, then restores temporal order by sorting on the frame
//! index — never by arrival order.

use vstd::prelude::*;
use vstd::multiset::Multiset;
use vstd::multiset::group_multiset_axioms;
use vstd::seq_lib::{
    group_to_multiset_ensures, to_multiset_contains, to_multiset_insert, to_multiset_len,
    to_multiset_remove,
};
use crate::colour::{Colour, IndexedColumn};
use crate::error::PipelineError;

verus! {

/// The columns stand in temporal order: frame indices never decrease.
pub open spec fn sorted_by_index(s: Seq<IndexedColumn>) -> bool {
    forall|i: int, j: int|
        0 <= i < j < s.len() ==> #[trigger] s[i].index <= #[trigger] s[j].index
}

/// No two columns carry the same frame index. The pipeline guarantees this:
/// an index is assigned exactly once per decoded frame.
pub open spec fn unique_indices(s: Seq<IndexedColumn>) -> bool {
    forall|i: int, j: int|
        0 <= i < s.len() && 0 <= j < s.len() && i != j ==> #[trigger] s[i].index
            != #[trigger] s[j].index
}

/// Removing one occurrence of an element and putting it back leaves a
/// multiset unchanged.
proof fn lemma_multiset_remove_insert<T>(m: Multiset<T>, x: T)
    requires
        m.count(x) >= 1,
    ensures
        m.remove(x).insert(x) == m,
{
    broadcast use group_multiset_axioms;

    assert(m.remove(x).insert(x) =~= m);
}

/// Sorts the columns ascending by frame index (insertion sort). The result
/// holds exactly the given columns — the same multiset — in temporal order.
pub fn sort_by_frame_index(v: &mut Vec<IndexedColumn>)
    ensures
        sorted_by_index(final(v)@),
        final(v)@.to_multiset() == old(v)@.to_multiset(),
        final(v)@.len() == old(v)@.len(),
{
    broadcast use group_to_multiset_ensures;

    let ghost orig = v@;
    if v.len() <= 1 {
        return ;
    }
    let mut i: usize = 1;
    while i < v.len()
        invariant
            1 <= i <= v@.len(),
            v@.len() == orig.len(),
            v@.to_multiset() == orig.to_multiset(),
            sorted_by_index(v@.subrange(0, i as int)),
        decreases v@.len() - i,
    {
        let ghost pre = v@;
        let x = v.remove(i);
        proof {
            to_multiset_remove(pre, i as int);
        }
        let mut j: usize = i;
        while j > 0 && v[j - 1].index > x.index
            invariant
                j <= i,
                i < pre.len(),
                v@.len() == pre.len() - 1,
                v@ == pre.remove(i as int),
                sorted_by_index(pre.subrange(0, i as int)),
                forall|k: int| j <= k < i ==> #[trigger] v@[k].index > x.index,
            decreases j,
        {
            j = j - 1;
        }
        proof {
            assert(forall|k: int| 0 <= k < i ==> v@[k] == pre[k]);
            assert(j > 0 ==> v@[j - 1].index <= x.index);
        }
        v.insert(j, x);
        proof {
            to_multiset_insert(pre.remove(i as int), j as int, x);
            assert(pre.contains(x)) by {
                assert(pre[i as int] == x);
            }
            to_multiset_contains(pre, x);
            lemma_multiset_remove_insert(pre.to_multiset(), x);
            assert(v@.to_multiset() == orig.to_multiset());
            assert forall|a: int, b: int| 0 <= a < b < i + 1 implies #[trigger] v@[a].index
                <= #[trigger] v@[b].index by {
                let s = pre.subrange(0, i as int);
                assert(forall|k: int| 0 <= k < j ==> v@[k] == s[k]);
                assert(v@[j as int] == x);
                assert(forall|k: int| j < k < i + 1 ==> v@[k] == s[k - 1]);
                assert(forall|k: int| 0 <= k < j ==> #[trigger] s[k].index <= x.index);
                assert(forall|k: int| j <= k < i ==> #[trigger] s[k].index > x.index);
            }
            assert(sorted_by_index(v@.subrange(0, i as int + 1))) by {
                assert(forall|k: int|
                    0 <= k < i + 1 ==> v@.subrange(0, i as int + 1)[k] == v@[k]);
            }
        }
        i = i + 1;
    }
    proof {
        assert(v@ == v@.subrange(0, i as int));
    }
}

/// Checks the result count and restores temporal order.
///
/// Exactly `expected` results — the number of jobs the dispatcher submitted —
/// must have arrived; any other count means a worker dropped a result, and
/// the run fails rather than assembling a short or garbled image. On success
/// the returned sequence holds exactly the given results, sorted ascending by
/// frame index.
pub fn collect_results(results: Vec<IndexedColumn>, expected: usize) -> (r: Result<
    Vec<IndexedColumn>,
    PipelineError,
>)
    ensures
        match r {
            Ok(sorted) => {
                &&& results@.len() == expected
                &&& sorted_by_index(sorted@)
                &&& sorted@.to_multiset() == results@.to_multiset()
                &&& sorted@.len() == results@.len()
            },
            Err(e) => {
                &&& results@.len() != expected
                &&& e == PipelineError::ResultCountMismatch
            },
        },
{
    if results.len() != expected {
        return Err(PipelineError::ResultCountMismatch);
    }
    let mut sorted = results;
    sort_by_frame_index(&mut sorted);
    Ok(sorted)
}

/// Strips the frame indices off a sorted result sequence, leaving the bare
/// columns in the same order.
pub fn column_colours(sorted: Vec<IndexedColumn>) -> (cols: Vec<Vec<Colour>>)
    ensures
        cols@.len() == sorted@.len(),
        forall|i: int| 0 <= i < sorted@.len() ==> #[trigger] cols@[i]@ == sorted@[i].column@,
{
    let ghost orig = sorted@;
    let mut rest = sorted;
    let mut cols: Vec<Vec<Colour>> = Vec::new();
    while rest.len() > 0
        invariant
            cols@.len() + rest@.len() == orig.len(),
            forall|i: int| 0 <= i < cols@.len() ==> #[trigger] cols@[i]@ == orig[i].column@,
            forall|i: int| 0 <= i < rest@.len() ==> #[trigger] rest@[i] == orig[cols@.len() + i],
        decreases rest@.len(),
    {
        let ic = rest.remove(0);
        cols.push(ic.column);
    }
    cols
}

/// Order independence of collection: two temporally-ordered sequences that
/// hold the same multiset of results — the same jobs, completed in whatever
/// interleaving — are one and the same sequence. Together with
/// `collect_results`'s contract, submitting the jobs in any completion order
/// yields the identical final column sequence, provided no two results carry
/// the same frame index.
pub proof fn lemma_collection_order_independent(s1: Seq<IndexedColumn>, s2: Seq<IndexedColumn>)
    requires
        sorted_by_index(s1),
        sorted_by_index(s2),
        unique_indices(s1),
        s1.to_multiset() == s2.to_multiset(),
    ensures
        s1 == s2,
    decreases s1.len(),
{
    broadcast use group_multiset_axioms;

    to_multiset_len(s1);
    to_multiset_len(s2);
    if s1.len() == 0 {
        assert(s1 =~= s2);
    } else {
        assert(s1.contains(s1[0])) by {
            assert(s1[0] == s1[0]);
        }
        assert(s2.contains(s2[0])) by {
            assert(s2[0] == s2[0]);
        }
        to_multiset_contains(s1, s1[0]);
        to_multiset_contains(s2, s1[0]);
        to_multiset_contains(s2, s2[0]);
        to_multiset_contains(s1, s2[0]);
        let j = choose|j: int| 0 <= j < s2.len() && s2[j] == s1[0];
        let i = choose|i: int| 0 <= i < s1.len() && s1[i] == s2[0];
        assert(s2[0].index <= s2[j].index);
        assert(s1[0].index <= s1[i].index);
        assert(s1[0].index == s2[0].index);
        assert(s1[0] == s2[0]) by {
            if s1[0] != s2[0] {
                assert(s1[i] == s2[0]);
                assert(i != 0);
                assert(s1[i].index != s1[0].index);
            }
        }
        let t1 = s1.drop_first();
        let t2 = s2.drop_first();
        assert(t1 =~= s1.remove(0));
        assert(t2 =~= s2.remove(0));
        to_multiset_remove(s1, 0);
        to_multiset_remove(s2, 0);
        assert(t1.to_multiset() == t2.to_multiset());
        assert(sorted_by_index(t1)) by {
            assert(forall|k: int| 0 <= k < t1.len() ==> #[trigger] t1[k] == s1[k + 1]);
        }
        assert(sorted_by_index(t2)) by {
            assert(forall|k: int| 0 <= k < t2.len() ==> #[trigger] t2[k] == s2[k + 1]);
        }
        assert(unique_indices(t1)) by {
            assert(forall|k: int| 0 <= k < t1.len() ==> #[trigger] t1[k] == s1[k + 1]);
        }
        lemma_collection_order_independent(t1, t2);
        assert(s1 =~= s2) by {
            assert(forall|k: int| 0 < k < s1.len() ==> #[trigger] s1[k] == t1[k - 1]);
            assert(forall|k: int| 0 < k < s2.len() ==> #[trigger] s2[k] == t2[k - 1]);
        }
    }
}

} // verus!
