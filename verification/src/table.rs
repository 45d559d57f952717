//! An ordered table: a finite map kept in the strict order of its keys.

use crate::identity::Identity;
use vstd::prelude::*;

verus! {

/// Whether the keys of `s` strictly ascend in the order of `K`.
pub open spec fn ascending<K: Identity, V>(s: Seq<(K::V, V)>) -> bool {
    forall|i: int, j: int|
        #![trigger s[i], s[j]]
        0 <= i < j < s.len() ==> K::precedes(s[i].0, s[j].0)
}

/// Whether some entry of `s` has the key `id`.
pub open spec fn holds_key<I, V>(s: Seq<(I, V)>, id: I) -> bool {
    exists|i: int| 0 <= i < s.len() && (#[trigger] s[i]).0 == id
}

/// The place of an entry of `s` with the key `id`.
pub open spec fn place_of<I, V>(s: Seq<(I, V)>, id: I) -> int {
    choose|i: int| 0 <= i < s.len() && (#[trigger] s[i]).0 == id
}

/// The map that the entries of `s` spell out.
pub open spec fn as_map<I, V>(s: Seq<(I, V)>) -> Map<I, V> {
    Map::new(|id: I| holds_key(s, id), |id: I| s[place_of(s, id)].1)
}

/// The sum of `weigh` over the pairs of a finite map.
pub open spec fn map_total<I, V>(m: Map<I, V>, weigh: spec_fn(I, V) -> nat) -> nat
    decreases m.dom().len(),
{
    if !m.dom().finite() || m.dom().len() == 0 {
        0
    } else {
        let k = m.dom().choose();
        weigh(k, m[k]) + map_total(m.remove(k), weigh)
    }
}

/// The sum over a map is the weight of any one pair and the sum over the
/// rest.
pub proof fn lemma_map_total_remove<I, V>(m: Map<I, V>, k: I, weigh: spec_fn(I, V) -> nat)
    requires
        m.dom().finite(),
        m.contains_key(k),
    ensures
        map_total(m, weigh) == weigh(k, m[k]) + map_total(m.remove(k), weigh),
    decreases m.dom().len(),
{
    let c = m.dom().choose();
    if c != k {
        lemma_map_total_remove(m.remove(c), k, weigh);
        lemma_map_total_remove(m.remove(k), c, weigh);
        assert(m.remove(c).remove(k) =~= m.remove(k).remove(c));
    }
}

/// Setting the value beside a key changes the sum by the difference of the
/// weights of the new pair and of the pair that stood there, if any.
pub proof fn lemma_map_total_insert<I, V>(m: Map<I, V>, k: I, v: V, weigh: spec_fn(I, V) -> nat)
    requires
        m.dom().finite(),
    ensures
        map_total(m.insert(k, v), weigh) + (if m.contains_key(k) {
            weigh(k, m[k])
        } else {
            0
        }) == map_total(m, weigh) + weigh(k, v),
{
    lemma_map_total_remove(m.insert(k, v), k, weigh);
    assert(m.insert(k, v).remove(k) =~= m.remove(k));
    if m.contains_key(k) {
        lemma_map_total_remove(m, k, weigh);
    } else {
        assert(m.remove(k) =~= m);
    }
}

/// The sum over a map whose pairs all weigh nothing is nothing.
pub proof fn lemma_map_total_of_nothing<I, V>(m: Map<I, V>, weigh: spec_fn(I, V) -> nat)
    requires
        m.dom().finite(),
        forall|k: I| m.contains_key(k) ==> #[trigger] weigh(k, m[k]) == 0,
    ensures
        map_total(m, weigh) == 0,
    decreases m.dom().len(),
{
    if m.dom().len() != 0 {
        let k = m.dom().choose();
        assert(m.contains_key(k));
        lemma_map_total_of_nothing(m.remove(k), weigh);
    }
}

/// In an ascending sequence no key stands twice.
pub proof fn lemma_keys_differ<K: Identity, V>(s: Seq<(K::V, V)>, i: int, j: int)
    requires
        ascending::<K, V>(s),
        0 <= i < s.len(),
        0 <= j < s.len(),
        s[i].0 == s[j].0,
    ensures
        i == j,
{
    K::order_is_irreflexive(s[i].0);
    if i < j {
        assert(K::precedes(s[i].0, s[j].0));
    } else if j < i {
        assert(K::precedes(s[j].0, s[i].0));
    }
}

/// The map of an ascending sequence sends each key to the value beside it.
pub proof fn lemma_lookup<K: Identity, V>(s: Seq<(K::V, V)>, i: int)
    requires
        ascending::<K, V>(s),
        0 <= i < s.len(),
    ensures
        as_map(s).contains_key(s[i].0),
        as_map(s)[s[i].0] == s[i].1,
{
    let id = s[i].0;
    assert(holds_key(s, id));
    lemma_keys_differ::<K, V>(s, i, place_of(s, id));
}

/// A key that falls strictly between the entries before `i` and those from
/// `i` on is not a key of the sequence.
pub proof fn lemma_absent<K: Identity, V>(s: Seq<(K::V, V)>, i: int, id: K::V)
    requires
        ascending::<K, V>(s),
        0 <= i <= s.len(),
        forall|j: int| 0 <= j < i ==> K::precedes((#[trigger] s[j]).0, id),
        i < s.len() ==> K::precedes(id, s[i].0),
    ensures
        !holds_key(s, id),
        forall|j: int| i <= j < s.len() ==> K::precedes(id, (#[trigger] s[j]).0),
{
    assert forall|j: int| i <= j < s.len() implies K::precedes(id, (#[trigger] s[j]).0) by {
        if i < j {
            assert(K::precedes(s[i].0, s[j].0));
            K::order_is_transitive(id, s[i].0, s[j].0);
        }
    }
    K::order_is_irreflexive(id);
    if holds_key(s, id) {
        let p = place_of(s, id);
        if p < i {
            assert(K::precedes(s[p].0, id));
        } else {
            assert(K::precedes(id, s[p].0));
        }
    }
}

/// Putting a new key in its place keeps the order and adds one pair.
pub proof fn lemma_insert<K: Identity, V>(s: Seq<(K::V, V)>, i: int, e: (K::V, V))
    requires
        ascending::<K, V>(s),
        0 <= i <= s.len(),
        forall|j: int| 0 <= j < i ==> K::precedes((#[trigger] s[j]).0, e.0),
        forall|j: int| i <= j < s.len() ==> K::precedes(e.0, (#[trigger] s[j]).0),
    ensures
        ascending::<K, V>(s.insert(i, e)),
        as_map(s.insert(i, e)) == as_map(s).insert(e.0, e.1),
{
    let t = s.insert(i, e);
    assert forall|a: int, b: int| 0 <= a < b < t.len() implies K::precedes(t[a].0, t[b].0) by {
        if a == i {
            assert(t[b] == s[b - 1]);
        } else if b == i {
            assert(t[a] == s[a]);
        } else {
            let a0 = if a < i { a } else { a - 1 };
            let b0 = if b < i { b } else { b - 1 };
            assert(t[a] == s[a0] && t[b] == s[b0]);
            assert(K::precedes(s[a0].0, s[b0].0));
        }
    }
    assert forall|id: K::V| #[trigger] holds_key(t, id) <==> (holds_key(s, id) || id == e.0) by {
        if holds_key(t, id) {
            let p = place_of(t, id);
            if p < i {
                assert(s[p].0 == id);
            } else if p > i {
                assert(s[p - 1].0 == id);
            }
        }
        if holds_key(s, id) {
            let p = place_of(s, id);
            let q = if p < i { p } else { p + 1 };
            assert(t[q].0 == id);
        }
        if id == e.0 {
            assert(t[i].0 == id);
        }
    }
    assert forall|id: K::V| holds_key(t, id) implies #[trigger] as_map(t)[id] == as_map(s).insert(
        e.0,
        e.1,
    )[id] by {
        let p = place_of(t, id);
        lemma_lookup::<K, V>(t, p);
        if p < i {
            lemma_lookup::<K, V>(s, p);
            K::order_is_irreflexive(id);
        } else if p > i {
            lemma_lookup::<K, V>(s, p - 1);
            assert(t[p] == s[p - 1]);
            K::order_is_irreflexive(id);
        }
    }
    assert(as_map(t) =~= as_map(s).insert(e.0, e.1));
}

/// Replacing the value beside a key keeps the order and changes one pair.
pub proof fn lemma_update<K: Identity, V>(s: Seq<(K::V, V)>, i: int, e: (K::V, V))
    requires
        ascending::<K, V>(s),
        0 <= i < s.len(),
        s[i].0 == e.0,
    ensures
        ascending::<K, V>(s.update(i, e)),
        as_map(s.update(i, e)) == as_map(s).insert(e.0, e.1),
{
    let t = s.update(i, e);
    assert forall|a: int, b: int| 0 <= a < b < t.len() implies K::precedes(t[a].0, t[b].0) by {
        assert(t[a].0 == s[a].0 && t[b].0 == s[b].0);
        assert(K::precedes(s[a].0, s[b].0));
    }
    assert forall|id: K::V| #[trigger] holds_key(t, id) <==> (holds_key(s, id) || id == e.0) by {
        if holds_key(t, id) {
            let p = place_of(t, id);
            assert(s[p].0 == id);
        }
        if holds_key(s, id) {
            let p = place_of(s, id);
            assert(t[p].0 == id);
        }
        if id == e.0 {
            assert(t[i].0 == id);
        }
    }
    assert forall|id: K::V| holds_key(t, id) implies #[trigger] as_map(t)[id] == as_map(s).insert(
        e.0,
        e.1,
    )[id] by {
        let p = place_of(t, id);
        lemma_lookup::<K, V>(t, p);
        if p != i {
            lemma_lookup::<K, V>(s, p);
            lemma_keys_differ::<K, V>(t, p, p);
            if id == e.0 {
                lemma_keys_differ::<K, V>(t, p, i);
            }
        }
    }
    assert(as_map(t) =~= as_map(s).insert(e.0, e.1));
}

/// Taking an entry out keeps the order and removes one pair.
pub proof fn lemma_remove<K: Identity, V>(s: Seq<(K::V, V)>, i: int)
    requires
        ascending::<K, V>(s),
        0 <= i < s.len(),
    ensures
        ascending::<K, V>(s.remove(i)),
        as_map(s.remove(i)) == as_map(s).remove(s[i].0),
{
    let t = s.remove(i);
    assert forall|a: int, b: int| 0 <= a < b < t.len() implies K::precedes(t[a].0, t[b].0) by {
        let a0 = if a < i { a } else { a + 1 };
        let b0 = if b < i { b } else { b + 1 };
        assert(t[a] == s[a0] && t[b] == s[b0]);
        assert(K::precedes(s[a0].0, s[b0].0));
    }
    assert forall|id: K::V| #[trigger] holds_key(t, id) <==> (holds_key(s, id) && id != s[i].0) by {
        if holds_key(t, id) {
            let p = place_of(t, id);
            let q = if p < i { p } else { p + 1 };
            assert(s[q].0 == id);
            if id == s[i].0 {
                lemma_keys_differ::<K, V>(s, q, i);
            }
        }
        if holds_key(s, id) && id != s[i].0 {
            let p = place_of(s, id);
            let q = if p < i { p } else { p - 1 };
            assert(t[q].0 == id);
        }
    }
    assert forall|id: K::V| holds_key(t, id) implies #[trigger] as_map(t)[id] == as_map(s)[id] by {
        let p = place_of(t, id);
        lemma_lookup::<K, V>(t, p);
        let q = if p < i { p } else { p + 1 };
        assert(t[p] == s[q]);
        lemma_lookup::<K, V>(s, q);
    }
    assert(as_map(t) =~= as_map(s).remove(s[i].0));
}

/// The map of an ascending sequence has as many keys as the sequence has
/// entries.
pub proof fn lemma_domain_size<K: Identity, V>(s: Seq<(K::V, V)>)
    requires
        ascending::<K, V>(s),
    ensures
        as_map(s).dom().finite(),
        as_map(s).dom().len() == s.len(),
    decreases s.len(),
{
    if s.len() == 0 {
        assert(as_map(s).dom() =~= Set::<K::V>::empty());
    } else {
        let t = s.drop_last();
        let e = s.last();
        assert forall|a: int, b: int| 0 <= a < b < t.len() implies K::precedes(t[a].0, t[b].0) by {
            assert(t[a] == s[a] && t[b] == s[b]);
        }
        assert forall|j: int| 0 <= j < t.len() implies K::precedes((#[trigger] t[j]).0, e.0) by {
            assert(t[j] == s[j] && e == s[s.len() - 1]);
        }
        lemma_domain_size::<K, V>(t);
        lemma_absent::<K, V>(t, t.len() as int, e.0);
        lemma_insert::<K, V>(t, t.len() as int, e);
        assert(t.insert(t.len() as int, e) =~= s);
        assert(as_map(s).dom() =~= as_map(t).dom().insert(e.0));
    }
}

/// A finite map from identities to values, kept in the order of its keys.
#[derive(Debug)]
pub struct OrderedMap<K: Identity, V> {
    entries: Vec<(K, V)>,
}

impl<K: Identity, V> View for OrderedMap<K, V> {
    type V = Map<K::V, V>;

    closed spec fn view(&self) -> Map<K::V, V> {
        as_map(self.entries())
    }
}

impl<K: Identity, V> OrderedMap<K, V> {
    /// The pairs of the map in the order of their keys.
    pub closed spec fn entries(&self) -> Seq<(K::V, V)> {
        Self::model(self.entries@)
    }

    /// The pairs that stored entries stand for: each key by its view.
    closed spec fn model(stored: Seq<(K, V)>) -> Seq<(K::V, V)> {
        Seq::new(stored.len(), |i: int| (stored[i].0@, stored[i].1))
    }

    /// The keys ascend strictly. This holds of every map.
    #[verifier::type_invariant]
    pub closed spec fn wf(&self) -> bool {
        ascending::<K, V>(self.entries())
    }

    /// How the pairs in order relate to the map.
    pub proof fn lemma_entries(&self)
        requires
            self.wf(),
        ensures
            ascending::<K, V>(self.entries()),
            self@ == as_map(self.entries()),
            self@.dom().finite(),
            self@.len() == self.entries().len(),
            forall|i: int|
                0 <= i < self.entries().len() ==> self@.contains_key(
                    (#[trigger] self.entries()[i]).0,
                ) && self@[self.entries()[i].0] == self.entries()[i].1,
            forall|id: K::V| #[trigger]
                self@.contains_key(id) ==> 0 <= place_of(self.entries(), id) < self.entries().len()
                    && self.entries()[place_of(self.entries(), id)] == (id, self@[id]),
    {
        let s = self.entries();
        assert forall|i: int| 0 <= i < s.len() implies self@.contains_key((#[trigger] s[i]).0)
            && self@[s[i].0] == s[i].1 by {
            lemma_lookup::<K, V>(s, i);
        }
        lemma_domain_size::<K, V>(s);
    }

    /// An empty map.
    pub fn new() -> (r: Self)
        ensures
            r@ == Map::<K::V, V>::empty(),
            r.entries() == Seq::<(K::V, V)>::empty(),
            forall|weigh: spec_fn(K::V, V) -> nat| #[trigger] map_total(r@, weigh) == 0,
    {
        let r = OrderedMap { entries: Vec::new() };
        assert(r.entries() =~= Seq::<(K::V, V)>::empty());
        assert(r@ =~= Map::<K::V, V>::empty());
        r
    }

    /// The number of pairs.
    pub fn len(&self) -> (r: usize)
        ensures
            r == self.entries().len(),
            self@.dom().finite(),
            r == self@.len(),
    {
        proof {
            use_type_invariant(self);
            lemma_domain_size::<K, V>(self.entries());
        }
        self.entries.len()
    }

    /// The place where `key` stands or would stand, and whether it stands
    /// there, found by halving the range in which it can stand.
    fn locate(&self, key: &K) -> (r: (usize, bool))
        ensures
            r.0 <= self.entries().len(),
            r.1 ==> r.0 < self.entries().len() && self.entries()[r.0 as int].0 == key@,
            r.1 == self@.contains_key(key@),
            forall|j: int| 0 <= j < r.0 ==> K::precedes((#[trigger] self.entries()[j]).0, key@),
            !r.1 ==> forall|j: int|
                r.0 <= j < self.entries().len() ==> K::precedes(
                    key@,
                    (#[trigger] self.entries()[j]).0,
                ),
    {
        proof {
            use_type_invariant(self);
        }
        let mut low: usize = 0;
        let mut high: usize = self.entries.len();
        while low < high
            invariant
                low <= high <= self.entries@.len(),
                self.entries().len() == self.entries@.len(),
                ascending::<K, V>(self.entries()),
                forall|j: int| 0 <= j < low ==> K::precedes((#[trigger] self.entries()[j]).0, key@),
                forall|j: int|
                    high <= j < self.entries().len() ==> K::precedes(
                        key@,
                        (#[trigger] self.entries()[j]).0,
                    ),
            decreases high - low,
        {
            let middle = low + (high - low) / 2;
            let ghost s = self.entries();
            if self.entries[middle].0.before(key) {
                proof {
                    assert forall|j: int| 0 <= j < middle + 1 implies K::precedes(
                        (#[trigger] s[j]).0,
                        key@,
                    ) by {
                        if j < middle {
                            assert(K::precedes(s[j].0, s[middle as int].0));
                            K::order_is_transitive(s[j].0, s[middle as int].0, key@);
                        }
                    }
                }
                low = middle + 1;
            } else if self.entries[middle].0.same(key) {
                proof {
                    lemma_lookup::<K, V>(s, middle as int);
                    assert forall|j: int| 0 <= j < middle implies K::precedes(
                        (#[trigger] s[j]).0,
                        key@,
                    ) by {
                        assert(K::precedes(s[j].0, s[middle as int].0));
                    }
                }
                return (middle, true);
            } else {
                proof {
                    K::order_is_total(key@, s[middle as int].0);
                    assert forall|j: int| middle <= j < s.len() implies K::precedes(
                        key@,
                        (#[trigger] s[j]).0,
                    ) by {
                        if middle < j {
                            assert(K::precedes(s[middle as int].0, s[j].0));
                            K::order_is_transitive(key@, s[middle as int].0, s[j].0);
                        }
                    }
                }
                high = middle;
            }
        }
        proof {
            lemma_absent::<K, V>(self.entries(), low as int, key@);
        }
        (low, false)
    }

    /// Whether the map has a pair with this key.
    pub fn contains_key(&self, key: &K) -> (r: bool)
        ensures
            r == self@.contains_key(key@),
    {
        self.locate(key).1
    }

    /// The value beside `key`, if there is one.
    pub fn get(&self, key: &K) -> (r: Option<&V>)
        ensures
            r == (if self@.contains_key(key@) {
                Some(&self@[key@])
            } else {
                None
            }),
    {
        proof {
            use_type_invariant(self);
        }
        let (i, found) = self.locate(key);
        if found {
            proof {
                lemma_lookup::<K, V>(self.entries(), i as int);
            }
            Some(&self.entries[i].1)
        } else {
            None
        }
    }

    /// Sets the value beside `key`, adding the pair where the key is new.
    pub fn insert(&mut self, key: K, value: V)
        ensures
            final(self)@ == old(self)@.insert(key@, value),
            forall|weigh: spec_fn(K::V, V) -> nat| #[trigger]
                map_total(final(self)@, weigh) + (if old(self)@.contains_key(key@) {
                    weigh(key@, old(self)@[key@])
                } else {
                    0
                }) == map_total(old(self)@, weigh) + weigh(key@, value),
            old(self)@.contains_key(key@) ==> final(self).entries() == old(self).entries().update(
                place_of(old(self).entries(), key@),
                (key@, value),
            ),
            final(self).entries().len() == old(self).entries().len() + (if old(
                self,
            )@.contains_key(key@) {
                0int
            } else {
                1int
            }),
    {
        proof {
            use_type_invariant(&*self);
        }
        let (i, found) = self.locate(&key);
        let ghost before = self.entries();
        let ghost e = (key@, value);
        let mut entries: Vec<(K, V)> = Vec::new();
        std::mem::swap(&mut entries, &mut self.entries);
        if found {
            entries.set(i, (key, value));
        } else {
            entries.insert(i, (key, value));
        }
        proof {
            if found {
                assert(Self::model(entries@) =~= before.update(i as int, e));
                lemma_update::<K, V>(before, i as int, e);
                lemma_lookup::<K, V>(before, i as int);
                lemma_keys_differ::<K, V>(before, i as int, place_of(before, key@));
            } else {
                assert(Self::model(entries@) =~= before.insert(i as int, e));
                lemma_insert::<K, V>(before, i as int, e);
            }
            lemma_domain_size::<K, V>(before);
            assert forall|weigh: spec_fn(K::V, V) -> nat| #[trigger]
                map_total(as_map(before).insert(key@, value), weigh) + (if as_map(
                    before,
                ).contains_key(key@) {
                    weigh(key@, as_map(before)[key@])
                } else {
                    0
                }) == map_total(as_map(before), weigh) + weigh(key@, value) by {
                lemma_map_total_insert(as_map(before), key@, value, weigh);
            }
        }
        self.entries = entries;
    }

    /// Takes the pair with this key out and returns its value, if there is
    /// one.
    pub fn remove(&mut self, key: &K) -> (r: Option<V>)
        ensures
            final(self)@ == old(self)@.remove(key@),
            r == old(self)@.get(key@),
            forall|weigh: spec_fn(K::V, V) -> nat| #[trigger]
                map_total(final(self)@, weigh) + (if old(self)@.contains_key(key@) {
                    weigh(key@, old(self)@[key@])
                } else {
                    0
                }) == map_total(old(self)@, weigh),
            final(self).entries().len() + (if old(self)@.contains_key(key@) {
                1int
            } else {
                0int
            }) == old(self).entries().len(),
    {
        proof {
            use_type_invariant(&*self);
        }
        let (i, found) = self.locate(key);
        let ghost before = self.entries();
        if found {
            let mut entries: Vec<(K, V)> = Vec::new();
            std::mem::swap(&mut entries, &mut self.entries);
            let gone = entries.remove(i);
            proof {
                assert(Self::model(entries@) =~= before.remove(i as int));
                lemma_remove::<K, V>(before, i as int);
                lemma_lookup::<K, V>(before, i as int);
                lemma_domain_size::<K, V>(before);
                assert forall|weigh: spec_fn(K::V, V) -> nat| #[trigger]
                    map_total(as_map(before).remove(key@), weigh) + weigh(
                        key@,
                        as_map(before)[key@],
                    ) == map_total(as_map(before), weigh) by {
                    lemma_map_total_remove(as_map(before), key@, weigh);
                }
            }
            self.entries = entries;
            Some(gone.1)
        } else {
            proof {
                assert(self@ =~= self@.remove(key@));
            }
            None
        }
    }

    /// Takes every pair out.
    pub fn clear(&mut self)
        ensures
            final(self)@ == Map::<K::V, V>::empty(),
            final(self).entries() == Seq::<(K::V, V)>::empty(),
    {
        let entries: Vec<(K, V)> = Vec::new();
        proof {
            assert(Self::model(entries@) =~= Seq::<(K::V, V)>::empty());
        }
        self.entries = entries;
        proof {
            assert(self@ =~= Map::<K::V, V>::empty());
        }
    }

    /// The key at the given place in the order.
    pub fn key_at(&self, i: usize) -> (r: &K)
        requires
            i < self.entries().len(),
        ensures
            r@ == self.entries()[i as int].0,
            self@.contains_key(r@),
            self@[r@] == self.entries()[i as int].1,
    {
        proof {
            use_type_invariant(self);
            lemma_lookup::<K, V>(self.entries(), i as int);
        }
        &self.entries[i].0
    }

    /// The value at the given place in the order of the keys.
    pub fn value_at(&self, i: usize) -> (r: &V)
        requires
            i < self.entries().len(),
        ensures
            *r == self.entries()[i as int].1,
    {
        &self.entries[i].1
    }
}

} // verus!
