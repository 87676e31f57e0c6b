//! Per-author line counts, with point-wise summation.
use vstd::prelude::*;

verus! {

/// The count of `k` in `m`; zero for an absent author.
pub open spec fn count_of(m: Map<Seq<char>, int>, k: Seq<char>) -> int {
    if m.contains_key(k) {
        m[k]
    } else {
        0
    }
}

/// The point-wise sum of two count mappings.
pub open spec fn sum_counts(a: Map<Seq<char>, int>, b: Map<Seq<char>, int>) -> Map<
    Seq<char>,
    int,
> {
    Map::new(|k: Seq<char>| a.contains_key(k) || b.contains_key(k), |k: Seq<char>| count_of(a, k) + count_of(b, k))
}

/// The point-wise sum of a sequence of count mappings.
pub open spec fn total_counts(ms: Seq<Map<Seq<char>, int>>) -> Map<Seq<char>, int>
    decreases ms.len(),
{
    if ms.len() == 0 {
        Map::empty()
    } else {
        sum_counts(total_counts(ms.drop_last()), ms.last())
    }
}

/// Point-wise summation does not depend on the order of its operands.
pub proof fn lemma_sum_counts_commutative(a: Map<Seq<char>, int>, b: Map<Seq<char>, int>)
    ensures
        sum_counts(a, b) == sum_counts(b, a),
{
    assert(sum_counts(a, b) =~= sum_counts(b, a));
}

/// Point-wise summation does not depend on how its operands are grouped.
pub proof fn lemma_sum_counts_associative(
    a: Map<Seq<char>, int>,
    b: Map<Seq<char>, int>,
    c: Map<Seq<char>, int>,
)
    ensures
        sum_counts(sum_counts(a, b), c) == sum_counts(a, sum_counts(b, c)),
{
    assert(sum_counts(sum_counts(a, b), c) =~= sum_counts(a, sum_counts(b, c)));
}

/// The sum over two runs of mappings is the sum of their two sums.
pub proof fn lemma_total_counts_append(x: Seq<Map<Seq<char>, int>>, y: Seq<Map<Seq<char>, int>>)
    ensures
        total_counts(x + y) == sum_counts(total_counts(x), total_counts(y)),
    decreases y.len(),
{
    if y.len() == 0 {
        assert(x + y =~= x);
        assert(sum_counts(total_counts(x), Map::empty()) =~= total_counts(x));
    } else {
        assert((x + y).drop_last() =~= x + y.drop_last());
        lemma_total_counts_append(x, y.drop_last());
        lemma_sum_counts_associative(total_counts(x), total_counts(y.drop_last()), y.last());
    }
}

/// Summing two sets of per-file mappings gives the same mapping whichever
/// set comes first.
pub proof fn lemma_total_counts_order(x: Seq<Map<Seq<char>, int>>, y: Seq<Map<Seq<char>, int>>)
    ensures
        total_counts(x + y) == total_counts(y + x),
{
    lemma_total_counts_append(x, y);
    lemma_total_counts_append(y, x);
    lemma_sum_counts_commutative(total_counts(x), total_counts(y));
}

/// No author appears twice among the entries.
pub open spec fn keys_distinct(s: Seq<(String, u128)>) -> bool {
    forall|i: int, j: int| 0 <= i < s.len() && 0 <= j < s.len() && i != j ==> s[i].0@ != s[j].0@
}

/// The mapping that a list of entries stands for.
pub open spec fn entries_map(s: Seq<(String, u128)>) -> Map<Seq<char>, int>
    decreases s.len(),
{
    if s.len() == 0 {
        Map::empty()
    } else {
        entries_map(s.drop_last()).insert(s.last().0@, s.last().1 as int)
    }
}

pub proof fn lemma_entries_map_index(s: Seq<(String, u128)>, i: int)
    requires
        keys_distinct(s),
        0 <= i < s.len(),
    ensures
        entries_map(s).contains_key(s[i].0@),
        entries_map(s)[s[i].0@] == s[i].1 as int,
    decreases s.len(),
{
    if i < s.len() - 1 {
        lemma_entries_map_index(s.drop_last(), i);
    }
}

proof fn lemma_entries_map_absent(s: Seq<(String, u128)>, k: Seq<char>)
    requires
        forall|i: int| 0 <= i < s.len() ==> #[trigger] s[i].0@ != k,
    ensures
        !entries_map(s).contains_key(k),
    decreases s.len(),
{
    if s.len() > 0 {
        lemma_entries_map_absent(s.drop_last(), k);
    }
}

proof fn lemma_entries_map_update(s: Seq<(String, u128)>, i: int, v: u128)
    requires
        keys_distinct(s),
        0 <= i < s.len(),
    ensures
        entries_map(s.update(i, (s[i].0, v))) == entries_map(s).insert(s[i].0@, v as int),
    decreases s.len(),
{
    let t = s.update(i, (s[i].0, v));
    if i == s.len() - 1 {
        assert(t.drop_last() =~= s.drop_last());
        assert(entries_map(t) =~= entries_map(s).insert(s[i].0@, v as int));
    } else {
        lemma_entries_map_update(s.drop_last(), i, v);
        assert(t.drop_last() =~= s.drop_last().update(i, (s[i].0, v)));
        assert(entries_map(t) =~= entries_map(s).insert(s[i].0@, v as int));
    }
}

/// Per-author line counts: each author appears once, with its count.
pub struct CountMap {
    entries: Vec<(String, u128)>,
}

impl View for CountMap {
    type V = Map<Seq<char>, int>;

    closed spec fn view(&self) -> Map<Seq<char>, int> {
        entries_map(self.entries@)
    }
}

impl CountMap {
    pub closed spec fn wf(&self) -> bool {
        keys_distinct(self.entries@)
    }

    /// The mapping with no author.
    pub fn new() -> (r: CountMap)
        ensures
            r.wf(),
            r@ == Map::<Seq<char>, int>::empty(),
    {
        CountMap { entries: Vec::new() }
    }

    /// The entries, one per author, in no particular order.
    pub fn entries(&self) -> (r: &Vec<(String, u128)>)
        ensures
            entries_map(r@) == self@,
            self.wf() ==> keys_distinct(r@),
            self.wf() ==> r@.len() == self@.dom().len(),
    {
        proof {
            if self.wf() {
                self.lemma_dom_len();
            }
        }
        &self.entries
    }

    /// The number of authors.
    pub fn len(&self) -> (r: usize)
        requires
            self.wf(),
        ensures
            r == self@.dom().len(),
    {
        proof {
            self.lemma_dom_len();
        }
        self.entries.len()
    }

    proof fn lemma_dom_len(&self)
        requires
            self.wf(),
        ensures
            self@.dom().len() == self.entries@.len(),
            self@.dom().finite(),
    {
        lemma_entries_dom(self.entries@);
    }

    /// Where `author` stands among the entries, if anywhere.
    fn find(&self, author: &String) -> (r: Option<usize>)
        requires
            self.wf(),
        ensures
            r matches Some(i) ==> i < self.entries@.len() && self.entries@[i as int].0@ == author@,
            r is None ==> !self@.contains_key(author@),
    {
        let mut i: usize = 0;
        while i < self.entries.len()
            invariant
                i <= self.entries@.len(),
                forall|j: int| 0 <= j < i ==> #[trigger] self.entries@[j].0@ != author@,
            decreases self.entries@.len() - i,
        {
            if self.entries[i].0 == *author {
                return Some(i);
            }
            i = i + 1;
        }
        proof {
            lemma_entries_map_absent(self.entries@, author@);
        }
        None
    }

    /// The count of `author`; zero where it is absent.
    pub fn get(&self, author: &String) -> (r: u128)
        requires
            self.wf(),
        ensures
            r as int == count_of(self@, author@),
    {
        match self.find(author) {
            Some(i) => {
                proof {
                    lemma_entries_map_index(self.entries@, i as int);
                }
                self.entries[i].1
            },
            None => 0,
        }
    }

    /// Adds `n` to the count of `author`.
    pub fn add(&mut self, author: String, n: u128)
        requires
            old(self).wf(),
            count_of(old(self)@, author@) + n <= u128::MAX,
        ensures
            final(self).wf(),
            final(self)@ == old(self)@.insert(author@, count_of(old(self)@, author@) + n),
    {
        match self.find(&author) {
            Some(i) => {
                proof {
                    lemma_entries_map_index(self.entries@, i as int);
                }
                let key = self.entries[i].0.clone();
                let v = self.entries[i].1 + n;
                proof {
                    lemma_entries_map_update(self.entries@, i as int, v);
                }
                self.entries.set(i, (key, v));
            },
            None => {
                let ghost s = self.entries@;
                proof {
                    assert forall|j: int| 0 <= j < s.len() implies #[trigger] s[j].0@ != author@ by {
                        lemma_entries_map_index(s, j);
                    }
                }
                self.entries.push((author, n));
                assert(self.entries@.drop_last() =~= s);
            },
        }
    }

    /// Adds every count of `other` to this mapping: the point-wise sum.
    pub fn merge(&mut self, other: &CountMap)
        requires
            old(self).wf(),
            other.wf(),
            forall|k: Seq<char>| count_of(old(self)@, k) + count_of(other@, k) <= u128::MAX,
        ensures
            final(self).wf(),
            final(self)@ == sum_counts(old(self)@, other@),
    {
        let ghost start = self@;
        let mut i: usize = 0;
        assert(sum_counts(start, entries_map(other.entries@.subrange(0, 0))) =~= start);
        while i < other.entries.len()
            invariant
                self.wf(),
                other.wf(),
                i <= other.entries@.len(),
                forall|k: Seq<char>| count_of(start, k) + count_of(other@, k) <= u128::MAX,
                self@ == sum_counts(start, entries_map(other.entries@.subrange(0, i as int))),
            decreases other.entries@.len() - i,
        {
            let ghost pre = other.entries@.subrange(0, i as int);
            let ghost post = other.entries@.subrange(0, i + 1);
            let ghost k = other.entries@[i as int].0@;
            proof {
                assert(post.drop_last() =~= pre);
                assert forall|j: int| 0 <= j < pre.len() implies #[trigger] pre[j].0@ != k by {
                    assert(pre[j] == other.entries@[j]);
                }
                lemma_entries_map_absent(pre, k);
                lemma_entries_map_index(other.entries@, i as int);
                assert(count_of(other@, k) == other.entries@[i as int].1);
            }
            let key = other.entries[i].0.clone();
            self.add(key, other.entries[i].1);
            proof {
                assert(self@ =~= sum_counts(start, entries_map(post)));
            }
            i = i + 1;
        }
        assert(other.entries@.subrange(0, other.entries@.len() as int) =~= other.entries@);
    }
}

proof fn lemma_entries_dom(s: Seq<(String, u128)>)
    requires
        keys_distinct(s),
    ensures
        entries_map(s).dom().finite(),
        entries_map(s).dom().len() == s.len(),
    decreases s.len(),
{
    if s.len() > 0 {
        let t = s.drop_last();
        lemma_entries_dom(t);
        assert forall|i: int| 0 <= i < t.len() implies #[trigger] t[i].0@ != s.last().0@ by {
            assert(t[i] == s[i]);
        }
        lemma_entries_map_absent(t, s.last().0@);
    }
}

} // verus!
