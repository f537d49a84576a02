//! Maps objects to the server they are placed on.

use vstd::prelude::*;

use crate::service_object::ObjectId;
use crate::seq_keep::{keep, lemma_keep_members, lemma_keep_take};
use crate::text::join3;

verus! {

/// Struct providing placement information
pub struct ObjectPlacementItem {
    pub object_id: ObjectId,
    pub server_address: Option<String>,
}

impl ObjectPlacementItem {
    pub fn new(object_id: ObjectId, server_address: Option<String>) -> (r: ObjectPlacementItem)
        ensures
            r.object_id == object_id,
            r.server_address == server_address,
    {
        ObjectPlacementItem { object_id, server_address }
    }
}

/// The key an in-memory placement map files an object under: its type and
/// id joined by a dot.
pub open spec fn placement_key(object_id: ObjectId) -> Seq<char> {
    object_id.0@ + "."@ + object_id.1@
}

/// The key a placement is stored under in Redis: type and id joined by a
/// colon, after the prefix.
pub open spec fn redis_object_key(prefix: Seq<char>, object_id: ObjectId) -> Seq<char> {
    prefix + object_id.0@ + ":"@ + object_id.1@
}

/// The key of the set of objects placed on a server in Redis.
pub open spec fn redis_server_key(prefix: Seq<char>, address: Seq<char>) -> Seq<char> {
    prefix + address
}

/// The object's id as a member of a server's set in Redis (type and id
/// joined by a colon).
pub fn redis_object_name(object_id: &ObjectId) -> (r: String)
    ensures
        r@ == object_id.0@ + ":"@ + object_id.1@,
{
    join3(object_id.0.as_str(), ":", object_id.1.as_str())
}

/// The Redis key of an object's placement.
pub fn redis_object_key_of(prefix: &str, object_id: &ObjectId) -> (r: String)
    ensures
        r@ == redis_object_key(prefix@, *object_id),
{
    let name = redis_object_name(object_id);
    let r = prefix.to_owned().concat(name.as_str());
    proof {
        assert(r@ =~= redis_object_key(prefix@, *object_id));
    }
    r
}

/// The Redis key of a server's set of objects.
pub fn redis_server_key_of(prefix: &str, address: &str) -> (r: String)
    ensures
        r@ == redis_server_key(prefix@, address@),
{
    prefix.to_owned().concat(address)
}

/// The in-memory map key of an object.
pub fn placement_key_of(object_id: &ObjectId) -> (r: String)
    ensures
        r@ == placement_key(*object_id),
{
    join3(object_id.0.as_str(), ".", object_id.1.as_str())
}

/// The placements that remain once a server is cleaned: those on other servers.
pub open spec fn without_server(m: Map<Seq<char>, Seq<char>>, address: Seq<char>) -> Map<Seq<char>, Seq<char>> {
    m.restrict(m.dom().filter(|k: Seq<char>| m[k] != address))
}

/// Cleaning the server at `address` unassigns exactly the objects placed
/// at that very address: an object placed at any other address (another
/// port of the same host included) keeps its placement, and nothing new is
/// placed.
pub proof fn law_clean_server_keeps_other_addresses(m: Map<Seq<char>, Seq<char>>, address: Seq<char>, k: Seq<char>)
    ensures
        m.contains_key(k) && m[k] != address ==> without_server(m, address).contains_key(k)
            && without_server(m, address)[k] == m[k],
        m.contains_key(k) && m[k] == address ==> !without_server(m, address).contains_key(k),
        !m.contains_key(k) ==> !without_server(m, address).contains_key(k),
{
}

/// An entry whose server is not `address`.
pub open spec fn on_other_server(address: Seq<char>) -> spec_fn((String, String)) -> bool {
    |e: (String, String)| e.1@ != address
}

/// The map a list of (key, address) entries describes.
pub open spec fn entries_map(entries: Seq<(String, String)>) -> Map<Seq<char>, Seq<char>> {
    Map::new(
        |k: Seq<char>| exists|i: int| 0 <= i < entries.len() && #[trigger] entries[i].0@ == k,
        |k: Seq<char>| entries[choose|i: int| 0 <= i < entries.len() && #[trigger] entries[i].0@ == k].1@,
    )
}

proof fn lemma_entries_lookup(entries: Seq<(String, String)>, s: int)
    requires
        0 <= s < entries.len(),
        forall|i: int, j: int| 0 <= i < entries.len() && 0 <= j < entries.len() && i != j
            ==> #[trigger] entries[i].0@ != #[trigger] entries[j].0@,
    ensures
        entries_map(entries).contains_key(entries[s].0@),
        entries_map(entries)[entries[s].0@] == entries[s].1@,
{
    let k = entries[s].0@;
    assert(entries_map(entries).dom().contains(k));
    let j = choose|j: int| 0 <= j < entries.len() && #[trigger] entries[j].0@ == k;
    assert(j == s);
}

proof fn lemma_keep_unique(entries: Seq<(String, String)>, p: spec_fn((String, String)) -> bool)
    requires
        forall|i: int, j: int| 0 <= i < entries.len() && 0 <= j < entries.len() && i != j
            ==> #[trigger] entries[i].0@ != #[trigger] entries[j].0@,
    ensures
        forall|i: int, j: int| 0 <= i < keep(entries, p).len() && 0 <= j < keep(entries, p).len() && i != j
            ==> #[trigger] keep(entries, p)[i].0@ != #[trigger] keep(entries, p)[j].0@,
    decreases entries.len(),
{
    if entries.len() > 0 {
        let t = entries.drop_last();
        assert forall|i: int, j: int| 0 <= i < t.len() && 0 <= j < t.len() && i != j implies #[trigger] t[i].0@ != #[trigger] t[j].0@ by {
            assert(t[i] == entries[i] && t[j] == entries[j]);
        }
        lemma_keep_unique(t, p);
        lemma_keep_members(t, p);
        let r = keep(t, p);
        let last = entries.last();
        if p(last) {
            assert forall|i: int| 0 <= i < r.len() implies #[trigger] r[i].0@ != last.0@ by {
                assert(t.contains(r[i]));
                let s = choose|s: int| 0 <= s < t.len() && t[s] == r[i];
                assert(entries[s] == t[s]);
                assert(entries[entries.len() - 1] == last);
            }
            let k = keep(entries, p);
            assert(k == r.push(last));
            assert forall|i: int, j: int| 0 <= i < k.len() && 0 <= j < k.len() && i != j implies #[trigger] k[i].0@ != #[trigger] k[j].0@ by {
                if i < r.len() && j < r.len() {
                    assert(k[i] == r[i] && k[j] == r[j]);
                } else if i < r.len() {
                    assert(k[i] == r[i]);
                    assert(k[j] == last);
                    assert(r[i].0@ != last.0@);
                } else {
                    assert(k[j] == r[j]);
                    assert(k[i] == last);
                    assert(r[j].0@ != last.0@);
                }
            }
        } else {
            assert(keep(entries, p) == r);
            assert forall|i: int, j: int| 0 <= i < keep(entries, p).len() && 0 <= j < keep(entries, p).len() && i != j
                implies #[trigger] keep(entries, p)[i].0@ != #[trigger] keep(entries, p)[j].0@ by {
                assert(r[i].0@ != r[j].0@);
            }
        }
    }
}

/// In-memory placement map: object key to server address, each key once.
pub struct PlacementTable {
    entries: Vec<(String, String)>,
}

impl PlacementTable {
    /// The map from object key to server address.
    pub closed spec fn view_map(&self) -> Map<Seq<char>, Seq<char>> {
        entries_map(self.entries@)
    }

    /// Each key is stored once.
    #[verifier::type_invariant]
    spec fn wf(&self) -> bool {
        forall|i: int, j: int| 0 <= i < self.entries@.len() && 0 <= j < self.entries@.len() && i != j
            ==> #[trigger] self.entries@[i].0@ != #[trigger] self.entries@[j].0@
    }

    proof fn lemma_lookup(&self, i: int)
        requires
            self.wf(),
            0 <= i < self.entries@.len(),
        ensures
            self.view_map().contains_key(self.entries@[i].0@),
            self.view_map()[self.entries@[i].0@] == self.entries@[i].1@,
    {
        let k = self.entries@[i].0@;
        assert(self.view_map().dom().contains(k));
        let j = choose|j: int| 0 <= j < self.entries@.len() && #[trigger] self.entries@[j].0@ == k;
        assert(j == i);
    }

    /// An empty map.
    pub fn new() -> (r: PlacementTable)
        ensures
            r.view_map() == Map::<Seq<char>, Seq<char>>::empty(),
    {
        let r = PlacementTable { entries: Vec::new() };
        assert(r.view_map() =~= Map::<Seq<char>, Seq<char>>::empty());
        r
    }

    fn position(&self, key: &str) -> (r: Option<usize>)
        ensures
            match r {
                Some(i) => i < self.entries@.len() && self.entries@[i as int].0@ == key@,
                None => !self.view_map().contains_key(key@),
            },
    {
        let n = self.entries.len();
        let mut i: usize = 0;
        while i < n
            invariant
                n == self.entries@.len(),
                i <= n,
                forall|j: int| 0 <= j < i ==> self.entries@[j].0@ != key@,
            decreases n - i,
        {
            if crate::text::same_text(self.entries[i].0.as_str(), key) {
                return Some(i);
            }
            i = i + 1;
        }
        None
    }

    /// Find the server address for a given object
    pub fn lookup(&self, object_id: &ObjectId) -> (r: Option<String>)
        ensures
            match r {
                Some(a) => self.view_map().contains_key(placement_key(*object_id)) && a@ == self.view_map()[placement_key(*object_id)],
                None => !self.view_map().contains_key(placement_key(*object_id)),
            },
    {
        let key = placement_key_of(object_id);
        match self.position(key.as_str()) {
            Some(i) => {
                proof {
                    use_type_invariant(self);
                    self.lemma_lookup(i as int);
                }
                Some(self.entries[i].1.clone())
            },
            None => None,
        }
    }

    fn remove_key(&mut self, key: &str)
        ensures
            final(self).view_map() == old(self).view_map().remove(key@),
    {
        match self.position(key) {
            None => {
                assert(self.view_map() =~= old(self).view_map().remove(key@));
            },
            Some(i) => {
                let ghost before = self.entries@;
                proof {
                    use_type_invariant(&*self);
                }
                let mut entries: Vec<(String, String)> = Vec::new();
                std::mem::swap(&mut entries, &mut self.entries);
                entries.remove(i);
                proof {
                    let after = entries@;
                    assert forall|a: int, b: int| 0 <= a < after.len() && 0 <= b < after.len() && a != b implies #[trigger] after[a].0@ != #[trigger] after[b].0@ by {
                        let oa = if a < i { a } else { a + 1 };
                        let ob = if b < i { b } else { b + 1 };
                        assert(after[a] == before[oa] && after[b] == before[ob]);
                    }
                }
                self.entries = entries;
                proof {
                    let after = self.entries@;
                    use_type_invariant(&*self);
                    let want = old(self).view_map().remove(key@);
                    assert forall|k: Seq<char>| #![auto] self.view_map().dom().contains(k) <==> want.dom().contains(k) by {
                        if self.view_map().dom().contains(k) {
                            let t = choose|t: int| 0 <= t < after.len() && #[trigger] after[t].0@ == k;
                            let ot = if t < i { t } else { t + 1 };
                            assert(after[t] == before[ot]);
                            assert(old(self).entries@[ot].0@ == k);
                            assert(ot != i);
                        }
                        if want.dom().contains(k) {
                            let t = choose|t: int| 0 <= t < before.len() && #[trigger] before[t].0@ == k;
                            assert(t != i);
                            let nt = if t < i { t } else { t - 1 };
                            assert(after[nt] == before[t]);
                        }
                    }
                    assert forall|k: Seq<char>| #![auto] self.view_map().dom().contains(k) implies self.view_map()[k] == want[k] by {
                        let t = choose|t: int| 0 <= t < after.len() && #[trigger] after[t].0@ == k;
                        self.lemma_lookup(t);
                        let ot = if t < i { t } else { t + 1 };
                        assert(after[t] == before[ot]);
                        old(self).lemma_lookup(ot);
                    }
                    assert(self.view_map() =~= want);
                }
            },
        }
    }

    fn insert_key(&mut self, key: String, address: String)
        ensures
            final(self).view_map() == old(self).view_map().insert(key@, address@),
    {
        self.remove_key(key.as_str());
        proof {
            use_type_invariant(&*self);
        }
        let ghost before = self.entries@;
        let ghost mid = self.view_map();
        let ghost k = key@;
        let ghost v = address@;
        assert(forall|i: int, j: int| 0 <= i < before.len() && 0 <= j < before.len() && i != j
            ==> #[trigger] before[i].0@ != #[trigger] before[j].0@);
        let mut entries: Vec<(String, String)> = Vec::new();
        std::mem::swap(&mut entries, &mut self.entries);
        entries.push((key, address));
        proof {
            let after = entries@;
            let n = before.len() as int;
            assert(!mid.contains_key(k));
            assert forall|t: int| 0 <= t < n implies #[trigger] before[t].0@ != k by {
                if before[t].0@ == k {
                    assert(mid.dom().contains(k));
                }
            }
            assert forall|a: int, b: int| 0 <= a < after.len() && 0 <= b < after.len() && a != b implies #[trigger] after[a].0@ != #[trigger] after[b].0@ by {
                if a < n && b < n {
                    assert(after[a] == before[a] && after[b] == before[b]);
                } else if a == n {
                    assert(after[b] == before[b]);
                    assert(after[a].0@ == k);
                    assert(before[b].0@ != k);
                } else {
                    assert(after[a] == before[a]);
                    assert(after[b].0@ == k);
                    assert(before[a].0@ != k);
                }
            }
        }
        self.entries = entries;
        proof {
            let after = self.entries@;
            let n = before.len() as int;
            use_type_invariant(&*self);
            let want = mid.insert(k, v);
            assert forall|q: Seq<char>| #![auto] self.view_map().dom().contains(q) <==> want.dom().contains(q) by {
                if self.view_map().dom().contains(q) && q != k {
                    let t = choose|t: int| 0 <= t < after.len() && #[trigger] after[t].0@ == q;
                    assert(t != n);
                    assert(after[t] == before[t]);
                }
                if q == k {
                    assert(after[n].0@ == k);
                }
                if mid.dom().contains(q) {
                    let t = choose|t: int| 0 <= t < before.len() && #[trigger] before[t].0@ == q;
                    assert(after[t] == before[t]);
                }
            }
            assert forall|q: Seq<char>| #![auto] self.view_map().dom().contains(q) implies self.view_map()[q] == want[q] by {
                let t = choose|t: int| 0 <= t < after.len() && #[trigger] after[t].0@ == q;
                self.lemma_lookup(t);
                if t < n {
                    assert(after[t] == before[t]);
                } else {
                    assert(after[t].0@ == k);
                }
            }
            assert(self.view_map() =~= want) by {
                assert forall|q: Seq<char>| #![auto] self.view_map().dom().contains(q) && q != k implies mid[q] == self.view_map()[q] by {
                    let t = choose|t: int| 0 <= t < after.len() && #[trigger] after[t].0@ == q;
                    assert(t < n);
                    assert(after[t] == before[t]);
                }
            }
        }
    }

    /// Insert or update the object placement; an item without a server
    /// removes the placement.
    pub fn update(&mut self, object_placement: ObjectPlacementItem)
        ensures
            final(self).view_map() == match object_placement.server_address {
                Some(a) => old(self).view_map().insert(placement_key(object_placement.object_id), a@),
                None => old(self).view_map().remove(placement_key(object_placement.object_id)),
            },
    {
        let key = placement_key_of(&object_placement.object_id);
        match object_placement.server_address {
            Some(address) => self.insert_key(key, address),
            None => self.remove_key(key.as_str()),
        }
    }

    /// Unassign a single object by its ID
    pub fn remove(&mut self, object_id: &ObjectId)
        ensures
            final(self).view_map() == old(self).view_map().remove(placement_key(*object_id)),
    {
        let key = placement_key_of(object_id);
        self.remove_key(key.as_str());
    }

    /// Unassign all objects for a given server
    pub fn clean_server(&mut self, address: String)
        ensures
            final(self).view_map() == without_server(old(self).view_map(), address@),
    {
        let ghost old_entries = self.entries@;
        let ghost pred = on_other_server(address@);
        let mut kept: Vec<(String, String)> = Vec::new();
        let n = self.entries.len();
        let mut i: usize = 0;
        while i < n
            invariant
                n == self.entries@.len(),
                self.entries@ == old_entries,
                pred == on_other_server(address@),
                i <= n,
                kept@ == keep(old_entries.take(i as int), pred),
            decreases n - i,
        {
            proof {
                lemma_keep_take(old_entries, pred, i as int);
            }
            if !crate::text::same_text(self.entries[i].1.as_str(), address.as_str()) {
                let e = (self.entries[i].0.clone(), self.entries[i].1.clone());
                assert(e == old_entries[i as int]);
                kept.push(e);
            }
            i = i + 1;
        }
        proof {
            use_type_invariant(&*self);
            assert(old_entries.take(n as int) =~= old_entries);
            PlacementTable::lemma_clean_map(old_entries, address@);
        }
        self.entries = kept;
    }

    proof fn lemma_clean_map(old_entries: Seq<(String, String)>, address: Seq<char>)
        requires
            forall|i: int, j: int| 0 <= i < old_entries.len() && 0 <= j < old_entries.len() && i != j
                ==> #[trigger] old_entries[i].0@ != #[trigger] old_entries[j].0@,
        ensures
            ({
                let kept = keep(old_entries, on_other_server(address));
                &&& forall|i: int, j: int| 0 <= i < kept.len() && 0 <= j < kept.len() && i != j
                    ==> #[trigger] kept[i].0@ != #[trigger] kept[j].0@
                &&& entries_map(kept) == without_server(entries_map(old_entries), address)
            }),
    {
        let pred = on_other_server(address);
        let kept = keep(old_entries, pred);
        lemma_keep_members(old_entries, pred);
        lemma_keep_unique(old_entries, pred);
        let old_map = entries_map(old_entries);
        let new_map = entries_map(kept);
        let want = without_server(old_map, address);
        assert forall|q: Seq<char>| #![auto] new_map.dom().contains(q) <==> want.dom().contains(q) by {
            if new_map.dom().contains(q) {
                let t = choose|t: int| 0 <= t < kept.len() && #[trigger] kept[t].0@ == q;
                assert(pred(kept[t]));
                assert(old_entries.contains(kept[t]));
                let s = choose|s: int| 0 <= s < old_entries.len() && old_entries[s] == kept[t];
                lemma_entries_lookup(old_entries, s);
            }
            if want.dom().contains(q) {
                let s = choose|s: int| 0 <= s < old_entries.len() && #[trigger] old_entries[s].0@ == q;
                lemma_entries_lookup(old_entries, s);
                assert(old_entries.contains(old_entries[s]));
                assert(kept.contains(old_entries[s]));
                let t = choose|t: int| 0 <= t < kept.len() && kept[t] == old_entries[s];
                assert(kept[t].0@ == q);
            }
        }
        assert forall|q: Seq<char>| #![auto] new_map.dom().contains(q) implies new_map[q] == want[q] by {
            let t = choose|t: int| 0 <= t < kept.len() && #[trigger] kept[t].0@ == q;
            lemma_entries_lookup(kept, t);
            assert(old_entries.contains(kept[t]));
            let s = choose|s: int| 0 <= s < old_entries.len() && old_entries[s] == kept[t];
            lemma_entries_lookup(old_entries, s);
        }
        assert(new_map =~= want);
    }


}

/// Placing an object on a server and then looking it up gives that server;
/// removing it, or cleaning that server, leaves it unplaced; the placement
/// of an object filed under another key does not change. (`update` with a
/// server leaves the table's map inserted at the object's key; `update`
/// without one, and `remove`, leave it removed; `clean_server` leaves it
/// `without_server`; `lookup` reads it at the object's key.)
pub proof fn law_placement_reads_back(table: PlacementTable, object_id: ObjectId, other: ObjectId, address: String)
    requires
        placement_key(other) != placement_key(object_id),
    ensures
        ({
            let m = table.view_map();
            let k = placement_key(object_id);
            let o = placement_key(other);
            let placed = m.insert(k, address@);
            let removed = m.remove(k);
            let cleaned = without_server(placed, address@);
            &&& placed.contains_key(k) && placed[k] == address@
            &&& !removed.contains_key(k)
            &&& !cleaned.contains_key(k)
            &&& placed.contains_key(o) == m.contains_key(o)
            &&& removed.contains_key(o) == m.contains_key(o)
            &&& m.contains_key(o) ==> placed[o] == m[o] && removed[o] == m[o]
        }),
{
}

} // verus!
