//! The order in which authors are reported.
use crate::counts::{keys_distinct, lemma_entries_map_index, CountMap};
use vstd::prelude::*;

verus! {

/// Counts are in descending order.
pub open spec fn by_count_desc(s: Seq<(String, u128)>) -> bool {
    forall|j: int, k: int| 0 <= j < k < s.len() ==> s[j].1 >= s[k].1
}

/// Every author of `counts` with its count, once each, the largest count
/// first; authors with equal counts keep the order in which they are stored.
pub fn rank_authors(counts: &CountMap) -> (r: Vec<(String, u128)>)
    requires
        counts.wf(),
    ensures
        r@.len() == counts@.dom().len(),
        keys_distinct(r@),
        forall|j: int|
            0 <= j < r@.len() ==> counts@.contains_key(#[trigger] r@[j].0@) && counts@[r@[j].0@]
                == r@[j].1 as int,
        by_count_desc(r@),
{
    let entries = counts.entries();
    let ghost es = entries@;
    let mut out: Vec<(String, u128)> = Vec::new();
    let mut i: usize = 0;
    while i < entries.len()
        invariant
            es == entries@,
            keys_distinct(es),
            i <= es.len(),
            out@.len() == i,
            forall|j: int|
                0 <= j < out@.len() ==> exists|k: int|
                    0 <= k < i && #[trigger] out@[j].0@ == es[k].0@ && out@[j].1 == es[k].1,
            keys_distinct(out@),
            by_count_desc(out@),
        decreases es.len() - i,
    {
        let c = entries[i].1;
        let mut pos: usize = 0;
        while pos < out.len() && out[pos].1 >= c
            invariant
                pos <= out@.len(),
                forall|j: int| 0 <= j < pos ==> #[trigger] out@[j].1 >= c,
            decreases out@.len() - pos,
        {
            pos = pos + 1;
        }
        let ghost before = out@;
        let e = (entries[i].0.clone(), c);
        out.insert(pos, e);
        proof {
            assert(out@ == before.insert(pos as int, e));
            assert forall|j: int| 0 <= j < out@.len() implies exists|k: int|
                0 <= k < i + 1 && #[trigger] out@[j].0@ == es[k].0@ && out@[j].1 == es[k].1 by {
                if j < pos {
                    assert(out@[j] == before[j]);
                } else if j == pos {
                    assert(out@[j].0@ == es[i as int].0@);
                } else {
                    assert(out@[j] == before[j - 1]);
                }
            }
            assert forall|j: int| 0 <= j < before.len() implies #[trigger] before[j].0@ != es[i as int].0@ by {
                let k = choose|k: int| 0 <= k < i && #[trigger] before[j].0@ == es[k].0@ && before[j].1 == es[k].1;
            }
            assert forall|a: int, b: int| 0 <= a < out@.len() && 0 <= b < out@.len() && a != b
                implies out@[a].0@ != out@[b].0@ by {
                let ia = if a < pos { a } else if a == pos { -1 } else { a - 1 };
                let ib = if b < pos { b } else if b == pos { -1 } else { b - 1 };
                if ia >= 0 {
                    assert(out@[a] == before[ia]);
                }
                if ib >= 0 {
                    assert(out@[b] == before[ib]);
                }
            }
            assert forall|a: int, b: int| 0 <= a < b < out@.len() implies out@[a].1 >= out@[b].1 by {
                if pos < out@.len() - 1 && b > pos {
                    assert(before[pos as int].1 < c);
                }
                if b < pos {
                    assert(out@[a] == before[a] && out@[b] == before[b]);
                } else if b == pos {
                    assert(out@[a] == before[a]);
                } else if a < pos {
                    assert(out@[a] == before[a] && out@[b] == before[b - 1]);
                } else if a == pos {
                    assert(out@[b] == before[b - 1]);
                    assert(before[pos as int].1 >= before[b - 1].1);
                } else {
                    assert(out@[a] == before[a - 1] && out@[b] == before[b - 1]);
                }
            }
        }
        i = i + 1;
    }
    proof {
        assert forall|j: int| 0 <= j < out@.len() implies counts@.contains_key(
            #[trigger] out@[j].0@,
        ) && counts@[out@[j].0@] == out@[j].1 as int by {
            let k = choose|k: int| 0 <= k < es.len() && #[trigger] out@[j].0@ == es[k].0@ && out@[j].1 == es[k].1;
            lemma_entries_map_index(es, k);
        }
    }
    out
}

} // verus!
