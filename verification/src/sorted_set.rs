//! A set of members ranked by an accumulated score.

use std::sync::Arc;
use vstd::prelude::*;

use crate::sort_key::{lemma_text_lt_total, lemma_text_lt_transitive, text_lt, KeyOrder, SortKey};

verus! {

/// A member's key and its score, as the model of one entry.
pub type RankedEntry = (Seq<char>, usize);

/// Entries are ordered by score, then by key.
pub open spec fn entry_lt(a: RankedEntry, b: RankedEntry) -> bool {
    a.1 < b.1 || (a.1 == b.1 && text_lt(a.0, b.0))
}

/// A ranking lists each key once, in strictly ascending (score, key) order.
pub open spec fn ranked_well(s: Seq<RankedEntry>) -> bool {
    forall|i: int, j: int| 0 <= i < j < s.len() ==> #[trigger] entry_lt(s[i], s[j]) && s[i].0 != s[j].0
}

/// Keys of a sequence of entries are pairwise distinct.
pub open spec fn keys_unique(s: Seq<RankedEntry>) -> bool {
    forall|i: int, j: int| 0 <= i < s.len() && 0 <= j < s.len() && i != j ==> s[i].0 != s[j].0
}

/// The score recorded for `k`, if `k` is a member.
pub open spec fn score_in(s: Seq<RankedEntry>, k: Seq<char>) -> Option<usize>
    decreases s.len(),
{
    if s.len() == 0 {
        None
    } else if s.last().0 == k {
        Some(s.last().1)
    } else {
        score_in(s.drop_last(), k)
    }
}

/// The scores of a ranking, as a map from key to score.
pub open spec fn scores(s: Seq<RankedEntry>) -> Map<Seq<char>, usize> {
    Map::new(|k: Seq<char>| score_in(s, k) is Some, |k: Seq<char>| score_in(s, k)->0)
}

/// The number of entries whose score is at least `x`.
pub open spec fn count_at_least(s: Seq<RankedEntry>, x: usize) -> nat
    decreases s.len(),
{
    if s.len() == 0 {
        0
    } else {
        count_at_least(s.drop_last(), x) + (if s.last().1 >= x { 1nat } else { 0nat })
    }
}

/// The score a member has after `add` with `score`: the old score plus
/// `score`, or `score` for a new member.
pub open spec fn added_score(s: Seq<RankedEntry>, k: Seq<char>, score: usize) -> int {
    match score_in(s, k) {
        Some(c) => c + score,
        None => score as int,
    }
}

/// The rank of `k`: how many other members have a score at least as high.
pub open spec fn rank_in(s: Seq<RankedEntry>, k: Seq<char>) -> Option<usize> {
    match score_in(s, k) {
        Some(c) => Some((count_at_least(s, c) - 1) as usize),
        None => None,
    }
}

proof fn lemma_score_in_index(s: Seq<RankedEntry>, k: Seq<char>)
    requires
        keys_unique(s),
    ensures
        score_in(s, k) is Some <==> exists|i: int| 0 <= i < s.len() && #[trigger] s[i].0 == k,
        forall|i: int| 0 <= i < s.len() && #[trigger] s[i].0 == k ==> score_in(s, k) == Some(s[i].1),
    decreases s.len(),
{
    if s.len() > 0 {
        let t = s.drop_last();
        assert(keys_unique(t)) by {
            assert forall|i: int, j: int| 0 <= i < t.len() && 0 <= j < t.len() && i != j implies t[i].0 != t[j].0 by {
                assert(t[i] == s[i] && t[j] == s[j]);
            }
        }
        lemma_score_in_index(t, k);
        if s.last().0 != k {
            if exists|i: int| 0 <= i < s.len() && #[trigger] s[i].0 == k {
                let i = choose|i: int| 0 <= i < s.len() && #[trigger] s[i].0 == k;
                assert(i != s.len() - 1);
                assert(t[i].0 == k);
            }
            assert forall|i: int| 0 <= i < t.len() && #[trigger] t[i].0 == k implies s[i].0 == k by {
                assert(t[i] == s[i]);
            }
        } else {
            assert(s[s.len() - 1].0 == k);
        }
        assert forall|i: int| 0 <= i < s.len() && #[trigger] s[i].0 == k implies score_in(s, k) == Some(s[i].1) by {
            if i < s.len() - 1 {
                assert(t[i] == s[i]);
            }
        }
    }
}

proof fn lemma_ranked_unique(s: Seq<RankedEntry>)
    requires
        ranked_well(s),
    ensures
        keys_unique(s),
{
    assert forall|i: int, j: int| 0 <= i < s.len() && 0 <= j < s.len() && i != j implies s[i].0 != s[j].0 by {
        if i < j {
            assert(entry_lt(s[i], s[j]));
        } else {
            assert(entry_lt(s[j], s[i]));
        }
    }
}

proof fn lemma_entry_lt_transitive(a: RankedEntry, b: RankedEntry, c: RankedEntry)
    requires
        entry_lt(a, b),
        entry_lt(b, c),
    ensures
        entry_lt(a, c),
{
    if a.1 == b.1 && b.1 == c.1 {
        lemma_text_lt_transitive(a.0, b.0, c.0);
    }
}

proof fn lemma_entry_lt_total(a: RankedEntry, b: RankedEntry)
    requires
        a.0 != b.0,
    ensures
        entry_lt(a, b) || entry_lt(b, a),
        !(entry_lt(a, b) && entry_lt(b, a)),
{
    lemma_text_lt_total(a.0, b.0);
}

proof fn lemma_count_suffix(s: Seq<RankedEntry>, x: usize, p: int)
    requires
        0 <= p <= s.len(),
        forall|t: int| 0 <= t < p ==> #[trigger] s[t].1 < x,
        forall|t: int| p <= t < s.len() ==> #[trigger] s[t].1 >= x,
    ensures
        count_at_least(s, x) == s.len() - p,
    decreases s.len(),
{
    if s.len() > 0 {
        let t = s.drop_last();
        if p == s.len() {
            assert(s[s.len() - 1].1 < x);
            assert forall|u: int| 0 <= u < t.len() implies #[trigger] t[u].1 < x by {
                assert(t[u] == s[u]);
            }
            lemma_count_suffix(t, x, t.len() as int);
        } else {
            assert(s[s.len() - 1].1 >= x);
            assert forall|u: int| 0 <= u < p implies #[trigger] t[u].1 < x by {
                assert(t[u] == s[u]);
            }
            assert forall|u: int| p <= u < t.len() implies #[trigger] t[u].1 >= x by {
                assert(t[u] == s[u]);
            }
            lemma_count_suffix(t, x, p);
        }
    }
}

proof fn lemma_remove_keeps_ranked(s: Seq<RankedEntry>, i: int)
    requires
        ranked_well(s),
        0 <= i < s.len(),
    ensures
        ranked_well(s.remove(i)),
{
    let m = s.remove(i);
    assert forall|a: int, b: int| 0 <= a < b < m.len() implies #[trigger] entry_lt(m[a], m[b]) && m[a].0 != m[b].0 by {
        let oa = if a < i { a } else { a + 1 };
        let ob = if b < i { b } else { b + 1 };
        assert(m[a] == s[oa]);
        assert(m[b] == s[ob]);
        assert(entry_lt(s[oa], s[ob]));
    }
}

proof fn lemma_insert_keeps_ranked(s: Seq<RankedEntry>, j: int, e: RankedEntry)
    requires
        ranked_well(s),
        0 <= j <= s.len(),
        forall|t: int| 0 <= t < s.len() ==> #[trigger] s[t].0 != e.0,
        forall|t: int| 0 <= t < j ==> #[trigger] entry_lt(s[t], e),
        j < s.len() ==> entry_lt(e, s[j]),
    ensures
        ranked_well(s.insert(j, e)),
{
    let nr = s.insert(j, e);
    assert forall|a: int, b: int| 0 <= a < b < nr.len() implies #[trigger] entry_lt(nr[a], nr[b]) && nr[a].0 != nr[b].0 by {
        if b < j {
            assert(entry_lt(s[a], s[b]));
        } else if b == j {
            assert(entry_lt(s[a], e));
        } else {
            assert(nr[b] == s[b - 1]);
            assert(entry_lt(e, s[j]));
            if b - 1 > j {
                assert(entry_lt(s[j], s[b - 1]));
                lemma_entry_lt_transitive(e, s[j], s[b - 1]);
            }
            if a < j {
                assert(entry_lt(s[a], e));
                lemma_entry_lt_transitive(s[a], e, s[b - 1]);
            } else if a > j {
                assert(nr[a] == s[a - 1]);
                assert(entry_lt(s[a - 1], s[b - 1]));
            }
        }
    }
}

proof fn lemma_scores_remove(s: Seq<RankedEntry>, i: int)
    requires
        keys_unique(s),
        0 <= i < s.len(),
    ensures
        scores(s.remove(i)) == scores(s).remove(s[i].0),
{
    let m = s.remove(i);
    assert(keys_unique(m)) by {
        assert forall|a: int, b: int| 0 <= a < m.len() && 0 <= b < m.len() && a != b implies m[a].0 != m[b].0 by {
            let oa = if a < i { a } else { a + 1 };
            let ob = if b < i { b } else { b + 1 };
            assert(m[a] == s[oa] && m[b] == s[ob]);
        }
    }
    assert forall|q: Seq<char>| #![auto] scores(m).dom().contains(q) <==> scores(s).remove(s[i].0).dom().contains(q) by {
        lemma_score_in_index(m, q);
        lemma_score_in_index(s, q);
        if exists|t: int| 0 <= t < m.len() && #[trigger] m[t].0 == q {
            let t = choose|t: int| 0 <= t < m.len() && #[trigger] m[t].0 == q;
            let ot = if t < i { t } else { t + 1 };
            assert(m[t] == s[ot]);
        }
        if q != s[i].0 && exists|t: int| 0 <= t < s.len() && #[trigger] s[t].0 == q {
            let t = choose|t: int| 0 <= t < s.len() && #[trigger] s[t].0 == q;
            assert(t != i);
            let mt = if t < i { t } else { t - 1 };
            assert(m[mt] == s[t]);
        }
    }
    assert forall|q: Seq<char>| #![auto] scores(m).dom().contains(q) implies scores(m)[q] == scores(s)[q] by {
        lemma_score_in_index(m, q);
        lemma_score_in_index(s, q);
        let t = choose|t: int| 0 <= t < m.len() && #[trigger] m[t].0 == q;
        let ot = if t < i { t } else { t + 1 };
        assert(m[t] == s[ot]);
    }
    assert(scores(m) =~= scores(s).remove(s[i].0));
}

proof fn lemma_scores_insert(s: Seq<RankedEntry>, j: int, e: RankedEntry)
    requires
        keys_unique(s),
        0 <= j <= s.len(),
        forall|t: int| 0 <= t < s.len() ==> #[trigger] s[t].0 != e.0,
    ensures
        scores(s.insert(j, e)) == scores(s).insert(e.0, e.1),
{
    let m = s.insert(j, e);
    assert(keys_unique(m)) by {
        assert forall|a: int, b: int| 0 <= a < m.len() && 0 <= b < m.len() && a != b implies m[a].0 != m[b].0 by {
            if a != j && b != j {
                let oa = if a < j { a } else { a - 1 };
                let ob = if b < j { b } else { b - 1 };
                assert(m[a] == s[oa] && m[b] == s[ob]);
            } else if a == j {
                let ob = if b < j { b } else { b - 1 };
                assert(m[b] == s[ob]);
            } else {
                let oa = if a < j { a } else { a - 1 };
                assert(m[a] == s[oa]);
            }
        }
    }
    assert(m[j] == e);
    assert forall|q: Seq<char>| #![auto] scores(m).dom().contains(q) <==> scores(s).insert(e.0, e.1).dom().contains(q) by {
        lemma_score_in_index(m, q);
        lemma_score_in_index(s, q);
        if q != e.0 && exists|t: int| 0 <= t < m.len() && #[trigger] m[t].0 == q {
            let t = choose|t: int| 0 <= t < m.len() && #[trigger] m[t].0 == q;
            assert(t != j);
            let ot = if t < j { t } else { t - 1 };
            assert(m[t] == s[ot]);
        }
        if exists|t: int| 0 <= t < s.len() && #[trigger] s[t].0 == q {
            let t = choose|t: int| 0 <= t < s.len() && #[trigger] s[t].0 == q;
            let mt = if t < j { t } else { t + 1 };
            assert(m[mt] == s[t]);
        }
    }
    assert forall|q: Seq<char>| #![auto] scores(m).dom().contains(q) implies scores(m)[q] == scores(s).insert(e.0, e.1)[q] by {
        lemma_score_in_index(m, q);
        lemma_score_in_index(s, q);
        if q != e.0 {
            let t = choose|t: int| 0 <= t < m.len() && #[trigger] m[t].0 == q;
            assert(t != j);
            let ot = if t < j { t } else { t - 1 };
            assert(m[t] == s[ot]);
        }
    }
    assert(scores(m) =~= scores(s).insert(e.0, e.1));
}

proof fn lemma_count_bounds(s: Seq<RankedEntry>, x: usize, y: usize)
    requires
        x <= y,
    ensures
        count_at_least(s, y) <= count_at_least(s, x) <= s.len(),
        (exists|t: int| 0 <= t < s.len() && x <= #[trigger] s[t].1 < y) ==> count_at_least(s, y) < count_at_least(s, x),
        (exists|t: int| 0 <= t < s.len() && #[trigger] s[t].1 >= y) ==> count_at_least(s, y) >= 1,
    decreases s.len(),
{
    if s.len() > 0 {
        let u = s.drop_last();
        lemma_count_bounds(u, x, y);
        if exists|t: int| 0 <= t < s.len() && x <= #[trigger] s[t].1 < y {
            let t = choose|t: int| 0 <= t < s.len() && x <= #[trigger] s[t].1 < y;
            if t < s.len() - 1 {
                assert(u[t] == s[t]);
            }
        }
        if exists|t: int| 0 <= t < s.len() && #[trigger] s[t].1 >= y {
            let t = choose|t: int| 0 <= t < s.len() && #[trigger] s[t].1 >= y;
            if t < s.len() - 1 {
                assert(u[t] == s[t]);
            }
        }
    }
}

/// After a member's score is set to `x` (as `add` and `add_ref` do), reading
/// the score back gives `x`, and every other member keeps its score.
pub proof fn law_score_reads_back_add(before: Seq<RankedEntry>, after: Seq<RankedEntry>, k: Seq<char>, x: usize)
    requires
        scores(after) == scores(before).insert(k, x),
    ensures
        score_in(after, k) == Some(x),
        forall|j: Seq<char>| j != k ==> score_in(after, j) == score_in(before, j),
{
    assert(scores(after).dom().contains(k));
    assert(scores(after)[k] == x);
    assert(score_in(after, k) is Some);
    assert forall|j: Seq<char>| j != k implies score_in(after, j) == score_in(before, j) by {
        assert(scores(after).dom().contains(j) == scores(before).dom().contains(j));
        if scores(before).dom().contains(j) {
            assert(scores(after)[j] == scores(before)[j]);
        }
    }
}

/// Every member's rank is below the number of members.
pub proof fn law_rank_below_size(s: Seq<RankedEntry>, k: Seq<char>)
    requires
        ranked_well(s),
        s.len() <= usize::MAX,
        score_in(s, k) is Some,
    ensures
        rank_in(s, k)->0 < s.len(),
{
    lemma_ranked_unique(s);
    lemma_score_in_index(s, k);
    let c = score_in(s, k)->0;
    let t = choose|t: int| 0 <= t < s.len() && #[trigger] s[t].0 == k;
    assert(s[t].1 >= c);
    lemma_count_bounds(s, c, c);
}

/// A member with a strictly higher score has a strictly smaller rank, and
/// members with equal scores share their rank.
pub proof fn law_rank_follows_score(s: Seq<RankedEntry>, a: Seq<char>, b: Seq<char>)
    requires
        ranked_well(s),
        s.len() <= usize::MAX,
        score_in(s, a) is Some,
        score_in(s, b) is Some,
    ensures
        score_in(s, a)->0 > score_in(s, b)->0 ==> rank_in(s, a)->0 < rank_in(s, b)->0,
        score_in(s, a)->0 == score_in(s, b)->0 ==> rank_in(s, a) == rank_in(s, b),
{
    lemma_ranked_unique(s);
    lemma_score_in_index(s, a);
    lemma_score_in_index(s, b);
    let ca = score_in(s, a)->0;
    let cb = score_in(s, b)->0;
    let ta = choose|t: int| 0 <= t < s.len() && #[trigger] s[t].0 == a;
    let tb = choose|t: int| 0 <= t < s.len() && #[trigger] s[t].0 == b;
    assert(s[ta].1 >= ca);
    assert(s[tb].1 >= cb);
    if ca > cb {
        assert(cb <= s[tb].1 < ca);
        lemma_count_bounds(s, cb, ca);
    }
    lemma_count_bounds(s, ca, ca);
    lemma_count_bounds(s, cb, cb);
}

/// The number of entries whose score is strictly above `x`.
pub open spec fn count_above(s: Seq<RankedEntry>, x: usize) -> nat
    decreases s.len(),
{
    if s.len() == 0 {
        0
    } else {
        count_above(s.drop_last(), x) + (if s.last().1 > x { 1nat } else { 0nat })
    }
}

/// No two entries share a score.
pub open spec fn scores_distinct(s: Seq<RankedEntry>) -> bool {
    forall|i: int, j: int| 0 <= i < s.len() && 0 <= j < s.len() && i != j ==> #[trigger] s[i].1 != #[trigger] s[j].1
}

proof fn lemma_count_above_suffix(s: Seq<RankedEntry>, x: usize, p: int)
    requires
        0 <= p <= s.len(),
        forall|t: int| 0 <= t < p ==> #[trigger] s[t].1 <= x,
        forall|t: int| p <= t < s.len() ==> #[trigger] s[t].1 > x,
    ensures
        count_above(s, x) == s.len() - p,
    decreases s.len(),
{
    if s.len() > 0 {
        let t = s.drop_last();
        if p == s.len() {
            assert(s[s.len() - 1].1 <= x);
            assert forall|u: int| 0 <= u < t.len() implies #[trigger] t[u].1 <= x by {
                assert(t[u] == s[u]);
            }
            lemma_count_above_suffix(t, x, t.len() as int);
        } else {
            assert(s[s.len() - 1].1 > x);
            assert forall|u: int| 0 <= u < p implies #[trigger] t[u].1 <= x by {
                assert(t[u] == s[u]);
            }
            assert forall|u: int| p <= u < t.len() implies #[trigger] t[u].1 > x by {
                assert(t[u] == s[u]);
            }
            lemma_count_above_suffix(t, x, p);
        }
    }
}

/// When no two members share a score, a member's rank is the number of
/// members with a strictly higher score; as the ranking (what `iter_rank`
/// lists) runs from the lowest score up, it is also the member's distance
/// from the end of the ranking.
pub proof fn law_rank_counts_higher_scores(s: Seq<RankedEntry>, i: int)
    requires
        ranked_well(s),
        scores_distinct(s),
        s.len() <= usize::MAX,
        0 <= i < s.len(),
    ensures
        rank_in(s, s[i].0) == Some(count_above(s, s[i].1) as usize),
        rank_in(s, s[i].0) == Some((s.len() - 1 - i) as usize),
{
    lemma_ranked_unique(s);
    lemma_score_in_index(s, s[i].0);
    let c = s[i].1;
    assert forall|t: int| 0 <= t < i implies #[trigger] s[t].1 < c by {
        assert(entry_lt(s[t], s[i]));
        assert(s[t].1 != s[i].1);
    }
    assert forall|t: int| i <= t < s.len() implies #[trigger] s[t].1 >= c by {
        if t > i {
            assert(entry_lt(s[i], s[t]));
        }
    }
    lemma_count_suffix(s, c, i);
    assert forall|t: int| 0 <= t < i + 1 implies #[trigger] s[t].1 <= c by {
        if t < i {
            assert(entry_lt(s[t], s[i]));
        }
    }
    assert forall|t: int| i + 1 <= t < s.len() implies #[trigger] s[t].1 > c by {
        assert(entry_lt(s[i], s[t]));
        assert(s[t].1 != s[i].1);
    }
    lemma_count_above_suffix(s, c, i + 1);
}

/// Scores and ranks of values that are identified by a text key.
///
/// The ranking is kept as one list ordered by (score, key); the member
/// with the highest score has rank 0.
pub struct SortedSet<V> {
    entries: Vec<(V, usize)>,
}

/// A `SortedSet` whose members are shared pointers.
pub type ArcSortedSet<V> = SortedSet<Arc<V>>;

/// Shares an `Arc`: the clone points at the same value.
#[verifier::external_body]
fn share<V>(a: &Arc<V>) -> (r: Arc<V>)
    ensures
        r == *a,
{
    Arc::clone(a)
}

impl<V: SortKey> SortedSet<Arc<V>> {
    /// The model: each member's key and score, in ascending (score, key) order.
    pub closed spec fn ranking(&self) -> Seq<RankedEntry> {
        Seq::new(self.entries@.len(), |i: int| (self.entries@[i].0.sort_key(), self.entries@[i].1))
    }

    /// The value stored for the `i`-th entry of the ranking.
    pub closed spec fn member(&self, i: int) -> V {
        *self.entries@[i].0
    }

    /// The set is well formed: its ranking is ordered and lists each key once.
    pub closed spec fn wf(&self) -> bool {
        &&& ranked_well(self.ranking())
        &&& forall|i: int| 0 <= i < self.entries@.len() ==> #[trigger] self.member(i).sort_key() == self.ranking()[i].0
    }

    /// Creates a new empty SortedSet
    pub fn new() -> (s: SortedSet<Arc<V>>)
        ensures
            s.wf(),
            s.ranking() == Seq::<RankedEntry>::empty(),
    {
        let s = SortedSet { entries: Vec::new() };
        assert(s.ranking() =~= Seq::<RankedEntry>::empty());
        s
    }

    /// Position of the entry whose key is the key of `value`.
    fn find(&self, value: &V) -> (r: Option<usize>)
        requires
            self.wf(),
        ensures
            match r {
                Some(i) => i < self.ranking().len() && self.ranking()[i as int].0 == value.sort_key(),
                None => forall|i: int| 0 <= i < self.ranking().len() ==> #[trigger] self.ranking()[i].0 != value.sort_key(),
            },
    {
        let n = self.entries.len();
        let mut i: usize = 0;
        while i < n
            invariant
                n == self.entries@.len(),
                i <= n,
                forall|j: int| 0 <= j < i ==> #[trigger] self.ranking()[j].0 != value.sort_key(),
            decreases n - i,
        {
            let o = (*self.entries[i].0).compare_key(value);
            if o == KeyOrder::Equal {
                return Some(i);
            }
            i = i + 1;
        }
        None
    }

    /// The score of `value`, if it is a member.
    pub fn score(&self, value: &V) -> (r: Option<usize>)
        requires
            self.wf(),
        ensures
            r == score_in(self.ranking(), value.sort_key()),
    {
        proof {
            lemma_ranked_unique(self.ranking());
            lemma_score_in_index(self.ranking(), value.sort_key());
        }
        match self.find(value) {
            Some(i) => Some(self.entries[i].1),
            None => None,
        }
    }

    /// Puts `value` with `new_score` into the ranking, replacing its old
    /// entry if there is one.
    fn place(&mut self, value: Arc<V>, new_score: usize)
        requires
            old(self).wf(),
        ensures
            final(self).wf(),
            scores(final(self).ranking()) == scores(old(self).ranking()).insert(value.sort_key(), new_score),
    {
        let ghost k = value.sort_key();
        let ghost old_rank = self.ranking();
        proof {
            lemma_ranked_unique(old_rank);
        }
        let found = self.find(&*value);
        let ghost mid_rank = old_rank;
        if let Some(i) = found {
            let ghost before = self.entries@;
            self.entries.remove(i);
            proof {
                mid_rank = old_rank.remove(i as int);
                assert(self.ranking() =~= mid_rank);
                lemma_remove_keeps_ranked(old_rank, i as int);
                lemma_scores_remove(old_rank, i as int);
                assert forall|j: int| 0 <= j < self.entries@.len() implies #[trigger] self.member(j).sort_key() == self.ranking()[j].0 by {
                    let oj = if j < i { j } else { j + 1 };
                    assert(self.entries@[j] == before[oj]);
                    assert(old(self).member(oj).sort_key() == old_rank[oj].0);
                }
            }
        }
        let ghost e: RankedEntry = (k, new_score);
        proof {
            lemma_ranked_unique(mid_rank);
            assert forall|t: int| 0 <= t < mid_rank.len() implies #[trigger] mid_rank[t].0 != k by {
                if let Some(i) = found {
                    let ot = if t < i { t } else { t + 1 };
                    assert(mid_rank[t] == old_rank[ot]);
                    assert(old_rank[ot].0 != old_rank[i as int].0);
                }
            }
        }
        // First position whose entry ranks above the new one.
        let n = self.entries.len();
        let mut j: usize = 0;
        while j < n
            invariant
                n == self.entries@.len(),
                self.ranking() == mid_rank,
                self.wf(),
                e == (k, new_score),
                k == value.sort_key(),
                ranked_well(mid_rank),
                forall|t: int| 0 <= t < mid_rank.len() ==> #[trigger] mid_rank[t].0 != k,
                j <= n,
                forall|t: int| 0 <= t < j ==> #[trigger] entry_lt(mid_rank[t], e),
            ensures
                j <= n,
                forall|t: int| 0 <= t < j ==> #[trigger] entry_lt(mid_rank[t], e),
                j < n ==> entry_lt(e, mid_rank[j as int]),
            decreases n - j,
        {
            let s = self.entries[j].1;
            let ghost kj = self.entries@[j as int].0.sort_key();
            proof {
                assert(mid_rank[j as int] == (kj, s));
                assert(mid_rank[j as int].0 != k);
                assert(kj != k);
                lemma_entry_lt_total(e, mid_rank[j as int]);
            }
            let above = if new_score < s {
                true
            } else if new_score == s {
                (*value).compare_key(&*self.entries[j].0) == KeyOrder::Less
            } else {
                false
            };
            if above {
                break;
            }
            j = j + 1;
        }
        let ghost before = self.entries@;
        self.entries.insert(j, (value, new_score));
        proof {
            let nr = mid_rank.insert(j as int, e);
            assert(self.ranking() =~= nr) by {
                assert forall|t: int| 0 <= t < nr.len() implies self.ranking()[t] == nr[t] by {
                    if t < j {
                        assert(self.entries@[t] == before[t]);
                    } else if t > j {
                        assert(self.entries@[t] == before[t - 1]);
                    }
                }
            }
            lemma_insert_keeps_ranked(mid_rank, j as int, e);
            lemma_scores_insert(mid_rank, j as int, e);
            assert forall|t: int| 0 <= t < self.entries@.len() implies #[trigger] self.member(t).sort_key() == self.ranking()[t].0 by {
                if t < j {
                    assert(self.entries@[t] == before[t]);
                } else if t > j {
                    assert(self.entries@[t] == before[t - 1]);
                }
            }
            assert(scores(nr) =~= scores(old_rank).insert(k, new_score));
        }
    }

    /// Adds a value to the set with the given score
    pub fn add(&mut self, value: V, score: usize) -> (r: Arc<V>)
        requires
            old(self).wf(),
            added_score(old(self).ranking(), value.sort_key(), score) <= usize::MAX,
        ensures
            final(self).wf(),
            r == value,
            scores(final(self).ranking()) == scores(old(self).ranking()).insert(
                value.sort_key(),
                added_score(old(self).ranking(), value.sort_key(), score) as usize,
            ),
    {
        let new_score = match self.score(&value) {
            Some(curr_score) => curr_score + score,
            None => score,
        };
        let inner = Arc::new(value);
        let stored = share(&inner);
        self.place(stored, new_score);
        inner
    }

    /// Adds a value to the set with the given score
    pub fn add_ref(&mut self, value: Arc<V>, score: usize) -> (r: Arc<V>)
        requires
            old(self).wf(),
            added_score(old(self).ranking(), value.sort_key(), score) <= usize::MAX,
        ensures
            final(self).wf(),
            r == value,
            scores(final(self).ranking()) == scores(old(self).ranking()).insert(
                value.sort_key(),
                added_score(old(self).ranking(), value.sort_key(), score) as usize,
            ),
    {
        let new_score = match self.score(&*value) {
            Some(curr_score) => curr_score + score,
            None => score,
        };
        let stored = share(&value);
        self.place(stored, new_score);
        value
    }

    /// Gets the rank of the value based on its score: how many other
    /// members have a score at least as high (the top member has rank 0).
    pub fn rank(&mut self, value: &V) -> (r: Option<usize>)
        requires
            old(self).wf(),
        ensures
            *final(self) == *old(self),
            r == rank_in(old(self).ranking(), value.sort_key()),
    {
        proof {
            lemma_ranked_unique(self.ranking());
            lemma_score_in_index(self.ranking(), value.sort_key());
        }
        match self.find(value) {
            None => None,
            Some(i) => {
                let s = self.entries[i].1;
                let n = self.entries.len();
                let ghost rk = self.ranking();
                let mut p: usize = 0;
                while p < n && self.entries[p].1 < s
                    invariant
                        n == self.entries@.len(),
                        rk == self.ranking(),
                        i < n,
                        rk[i as int].1 == s,
                        p <= i,
                        forall|t: int| 0 <= t < p ==> #[trigger] rk[t].1 < s,
                    decreases n - p,
                {
                    p = p + 1;
                }
                proof {
                    assert(rk[p as int].1 >= s);
                    assert forall|t: int| p <= t < rk.len() implies #[trigger] rk[t].1 >= s by {
                        if t > p {
                            assert(entry_lt(rk[p as int], rk[t]));
                        }
                    }
                    lemma_count_suffix(rk, s, p as int);
                }
                Some(n - p - 1)
            },
        }
    }

    /// The members with their scores, one entry per member.
    pub fn iter(&self) -> (r: Vec<(&V, &usize)>)
        requires
            self.wf(),
        ensures
            r@.len() == self.ranking().len(),
            forall|i: int| 0 <= i < r@.len() ==> (#[trigger] r@[i]).0.sort_key() == self.ranking()[i].0 && *r@[i].1 == self.ranking()[i].1,
    {
        let mut r: Vec<(&V, &usize)> = Vec::new();
        let n = self.entries.len();
        let mut i: usize = 0;
        while i < n
            invariant
                n == self.entries@.len(),
                self.wf(),
                i <= n,
                r@.len() == i,
                forall|t: int| 0 <= t < i ==> (#[trigger] r@[t]).0.sort_key() == self.ranking()[t].0 && *r@[t].1 == self.ranking()[t].1,
            decreases n - i,
        {
            let e = &self.entries[i];
            proof {
                assert(self.member(i as int).sort_key() == self.ranking()[i as int].0);
            }
            r.push((&*e.0, &e.1));
            i = i + 1;
        }
        r
    }

    /// The members from the lowest to the highest (score, key).
    pub fn iter_rank(&self) -> (r: Vec<&V>)
        requires
            self.wf(),
        ensures
            ranked_well(self.ranking()),
            r@.len() == self.ranking().len(),
            forall|i: int| 0 <= i < r@.len() ==> (#[trigger] r@[i]).sort_key() == self.ranking()[i].0,
    {
        let mut r: Vec<&V> = Vec::new();
        let n = self.entries.len();
        let mut i: usize = 0;
        while i < n
            invariant
                n == self.entries@.len(),
                self.wf(),
                i <= n,
                r@.len() == i,
                forall|t: int| 0 <= t < i ==> (#[trigger] r@[t]).sort_key() == self.ranking()[t].0,
            decreases n - i,
        {
            proof {
                assert(self.member(i as int).sort_key() == self.ranking()[i as int].0);
            }
            r.push(&*self.entries[i].0);
            i = i + 1;
        }
        r
    }
}

} // verus!
