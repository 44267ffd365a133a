//! Small verified collections keyed by values with decidable equality:
//! the sets, maps, vote tallies and per-round logs that the protocol
//! nodes keep.

use vstd::prelude::*;
use crate::net::NodeId;

verus! {

/// A value whose equality can be decided in executable code, in
/// agreement with equality in specifications.
pub trait Key: Sized {
    /// Whether `self` and `other` are the same value.
    fn same(&self, other: &Self) -> (r: bool)
        ensures
            r == (*self == *other),
    ;
}

impl Key for u32 {
    fn same(&self, other: &Self) -> (r: bool) {
        *self == *other
    }
}

impl Key for u64 {
    fn same(&self, other: &Self) -> (r: bool) {
        *self == *other
    }
}

impl Key for bool {
    fn same(&self, other: &Self) -> (r: bool) {
        *self == *other
    }
}

impl Key for NodeId {
    fn same(&self, other: &Self) -> (r: bool) {
        self.0 == other.0
    }
}

impl<A: Key, B: Key> Key for (A, B) {
    fn same(&self, other: &Self) -> (r: bool) {
        self.0.same(&other.0) && self.1.same(&other.1)
    }
}

impl<A: Key, B: Key, C: Key> Key for (A, B, C) {
    fn same(&self, other: &Self) -> (r: bool) {
        self.0.same(&other.0) && self.1.same(&other.1) && self.2.same(&other.2)
    }
}

/// The index at which `k` occurs in `s`, if it does.
pub open spec fn seq_index_of<K>(s: Seq<K>, k: K) -> int {
    choose|i: int| 0 <= i < s.len() && s[i] == k
}

/// The position of `k` in `s`, or `s.len()` when absent.
fn find<K: Key>(s: &Vec<K>, k: &K) -> (r: usize)
    ensures
        r <= s@.len(),
        r < s@.len() ==> s@[r as int] == *k,
        r == s@.len() ==> !s@.contains(*k),
{
    let mut i: usize = 0;
    while i < s.len()
        invariant
            i <= s@.len(),
            forall|j: int| 0 <= j < i ==> s@[j] != *k,
        decreases s@.len() - i,
    {
        if s[i].same(k) {
            return i;
        }
        i = i + 1;
    }
    i
}

/// A finite set, kept as a duplicate-free sequence in insertion order.
#[derive(Debug)]
pub struct KeySet<K> {
    elems: Vec<K>,
}

impl<K> KeySet<K> {
    #[verifier::type_invariant]
    spec fn wf(&self) -> bool {
        self.elems@.no_duplicates()
    }

    /// The members, in insertion order.
    pub closed spec fn elems(&self) -> Seq<K> {
        self.elems@
    }

    /// The set of members.
    pub open spec fn view(&self) -> Set<K> {
        self.elems().to_set()
    }

    proof fn lemma_elems(&self)
        requires
            self.wf(),
        ensures
            self.elems().no_duplicates(),
            self.elems().len() == self@.len(),
            self@.finite(),
    {
        self.elems@.unique_seq_to_set();
    }
}

impl<K: Key> KeySet<K> {
    /// The empty set.
    pub fn new() -> (s: Self)
        ensures
            s@ == Set::<K>::empty(),
            s.elems().len() == 0,
    {
        let s = KeySet { elems: Vec::new() };
        assert(s.elems@.to_set() =~= Set::<K>::empty());
        s
    }

    /// Whether `k` is a member.
    pub fn contains(&self, k: &K) -> (r: bool)
        ensures
            r == self@.contains(*k),
    {
        find(&self.elems, k) < self.elems.len()
    }

    /// The number of members.
    pub fn len(&self) -> (r: usize)
        ensures
            r == self@.len(),
            self@.finite(),
    {
        proof { use_type_invariant(self); self.lemma_elems(); }
        self.elems.len()
    }

    /// Whether the set is empty.
    pub fn is_empty(&self) -> (r: bool)
        ensures
            r == (self@.len() == 0),
    {
        proof { use_type_invariant(self); self.lemma_elems(); }
        self.elems.len() == 0
    }

    /// Add `k`; returns whether it was new.
    pub fn insert(&mut self, k: K) -> (r: bool)
        ensures
            r == !old(self)@.contains(k),
            final(self)@ == old(self)@.insert(k),
            r ==> final(self).elems() == old(self).elems().push(k),
            !r ==> final(self).elems() == old(self).elems(),
    {
        proof { use_type_invariant(&*self); }
        if find(&self.elems, &k) < self.elems.len() {
            assert(old(self)@.insert(k) =~= old(self)@);
            false
        } else {
            let mut v = Vec::new();
            std::mem::swap(&mut v, &mut self.elems);
            let ghost o = v@;
            v.push(k);
            assert forall|x: K| v@.contains(x) <==> o.contains(x) || x == k by {
                if o.contains(x) {
                    let j = choose|j: int| 0 <= j < o.len() && o[j] == x;
                    assert(v@[j] == x);
                }
                if x == k {
                    assert(v@[o.len() as int] == k);
                }
                if v@.contains(x) {
                    let j = choose|j: int| 0 <= j < v@.len() && v@[j] == x;
                    if j < o.len() {
                        assert(o[j] == x);
                    }
                }
            }
            assert(v@.no_duplicates()) by {
                assert forall|a: int, b: int| 0 <= a < v@.len() && 0 <= b < v@.len() && a != b implies v@[a] != v@[b] by {
                    if a < o.len() && b < o.len() {
                        assert(o[a] == v@[a] && o[b] == v@[b]);
                    } else if a < o.len() {
                        assert(o.contains(v@[a]));
                    } else if b < o.len() {
                        assert(o.contains(v@[b]));
                    }
                }
            }
            assert(v@.to_set() =~= old(self)@.insert(k));
            self.elems = v;
            true
        }
    }

    /// Remove every member.
    pub fn clear(&mut self)
        ensures
            final(self)@ == Set::<K>::empty(),
            final(self).elems().len() == 0,
    {
        self.elems = Vec::new();
        assert(self.elems@.to_set() =~= Set::<K>::empty());
    }

}

impl<K: Key + Copy> KeySet<K> {
    /// The member at position `i` of the insertion order.
    pub fn get(&self, i: usize) -> (r: K)
        requires
            i < self.elems().len(),
        ensures
            r == self.elems()[i as int],
    {
        self.elems[i]
    }
}

/// A finite map, kept as a key-distinct sequence of entries in
/// insertion order of the keys.
#[derive(Debug)]
pub struct KeyMap<K, V> {
    entries: Vec<(K, V)>,
}

/// The keys of `s`, in order.
pub open spec fn keys_of<K, V>(s: Seq<(K, V)>) -> Seq<K> {
    s.map_values(|e: (K, V)| e.0)
}

/// The entries after storing `v` for `k`: the entry for `k` is replaced
/// in place if there is one, appended otherwise.
pub open spec fn insert_entry<K, V>(s: Seq<(K, V)>, k: K, v: V) -> Seq<(K, V)> {
    if keys_of(s).contains(k) {
        s.update(seq_index_of(keys_of(s), k), (k, v))
    } else {
        s.push((k, v))
    }
}

/// The map that a key-distinct entry sequence denotes.
pub open spec fn map_of<K, V>(s: Seq<(K, V)>) -> Map<K, V> {
    Map::new(
        |k: K| keys_of(s).contains(k),
        |k: K| s[seq_index_of(keys_of(s), k)].1,
    )
}

impl<K, V> KeyMap<K, V> {
    #[verifier::type_invariant]
    spec fn wf(&self) -> bool {
        keys_of(self.entries@).no_duplicates()
    }

    /// The entries, in insertion order of their keys.
    pub closed spec fn entries(&self) -> Seq<(K, V)> {
        self.entries@
    }

    /// The map.
    pub open spec fn view(&self) -> Map<K, V> {
        map_of(self.entries())
    }

    /// Facts about the entries: the keys are distinct and the map is
    /// what they denote.
    proof fn lemma_entries(&self)
        requires
            self.wf(),
        ensures
            keys_of(self.entries()).no_duplicates(),
            forall|i: int|
                0 <= i < self.entries().len() ==> self@.contains_key(#[trigger] self.entries()[i].0)
                    && self@[self.entries()[i].0] == self.entries()[i].1,
            self@.dom().finite(),
            self@.dom().len() == self.entries().len(),
    {
        let s = self.entries@;
        let ks = keys_of(s);
        assert forall|i: int| 0 <= i < s.len() implies self@.contains_key(#[trigger] s[i].0) && self@[s[i].0]
            == s[i].1 by {
            assert(ks[i] == s[i].0);
            let j = seq_index_of(ks, s[i].0);
            assert(ks[j] == s[i].0);
        }
        assert(self@.dom() =~= ks.to_set());
        ks.unique_seq_to_set();
    }
}

impl<K: Key, V> KeyMap<K, V> {
    /// The empty map.
    pub fn new() -> (m: Self)
        ensures
            m@ == Map::<K, V>::empty(),
            m.entries().len() == 0,
    {
        let m = KeyMap { entries: Vec::new() };
        assert(map_of(m.entries@) =~= Map::<K, V>::empty());
        m
    }

    fn find_key(&self, k: &K) -> (r: usize)
        ensures
            r <= self.entries@.len(),
            r < self.entries@.len() ==> self.entries@[r as int].0 == *k,
            r == self.entries@.len() ==> !self@.contains_key(*k),
    {
        let mut i: usize = 0;
        while i < self.entries.len()
            invariant
                i <= self.entries@.len(),
                forall|j: int| 0 <= j < i ==> self.entries@[j].0 != *k,
            decreases self.entries@.len() - i,
        {
            if self.entries[i].0.same(k) {
                return i;
            }
            i = i + 1;
        }
        assert(!keys_of(self.entries@).contains(*k));
        i
    }

    /// Whether `k` has an entry.
    pub fn contains_key(&self, k: &K) -> (r: bool)
        ensures
            r == self@.contains_key(*k),
    {
        proof { use_type_invariant(self); self.lemma_entries(); }
        let i = self.find_key(k);
        i < self.entries.len()
    }

    /// The number of entries.
    pub fn len(&self) -> (r: usize)
        ensures
            r == self@.dom().len(),
            r == self.entries().len(),
    {
        proof { use_type_invariant(self); self.lemma_entries(); }
        self.entries.len()
    }

    /// The value stored for `k`, if any.
    pub fn get(&self, k: &K) -> (r: Option<&V>)
        ensures
            match r {
                Some(v) => self@.contains_key(*k) && self@[*k] == *v,
                None => !self@.contains_key(*k),
            },
    {
        proof { use_type_invariant(self); self.lemma_entries(); }
        let i = self.find_key(k);
        if i < self.entries.len() {
            Some(&self.entries[i].1)
        } else {
            None
        }
    }

    /// Store `v` for `k`, replacing any earlier value: an existing key
    /// keeps its place in the entry order, a new key goes last.
    pub fn insert(&mut self, k: K, v: V)
        ensures
            final(self)@ == old(self)@.insert(k, v),
            final(self).entries() == insert_entry(old(self).entries(), k, v),
    {
        proof { use_type_invariant(&*self); self.lemma_entries(); }
        let i = self.find_key(&k);
        let ghost old_s = self.entries@;
        let mut es = Vec::new();
        std::mem::swap(&mut es, &mut self.entries);
        if i < es.len() {
            es.set(i, (k, v));
            proof {
                assert(keys_of(old_s)[i as int] == k);
                assert(seq_index_of(keys_of(old_s), k) == i);
                assert(keys_of(es@) =~= keys_of(old_s));
                assert(map_of(es@) =~= map_of(old_s).insert(k, v)) by {
                    assert forall|key: K| #[trigger] map_of(es@).contains_key(key) implies map_of(es@)[key] == map_of(old_s).insert(k, v)[key] by {
                        let ks = keys_of(old_s);
                        let j = seq_index_of(ks, key);
                        assert(ks.contains(key));
                        if key == k {
                            assert(ks[i as int] == k);
                            assert(j == i);
                        } else {
                            assert(j != i);
                        }
                    }
                }
            }
        } else {
            es.push((k, v));
            proof {
                let ks = keys_of(old_s);
                let ks2 = keys_of(es@);
                assert(ks2 =~= ks.push(k));
                assert(!ks.contains(k));
                assert forall|key: K| ks2.contains(key) <==> (ks.contains(key) || key == k) by {
                    if ks.contains(key) {
                        let j0 = choose|j0: int| 0 <= j0 < ks.len() && ks[j0] == key;
                        assert(ks2[j0] == key);
                    }
                    if key == k {
                        assert(ks2[ks.len() as int] == k);
                    }
                    if ks2.contains(key) {
                        let j = choose|j: int| 0 <= j < ks2.len() && ks2[j] == key;
                        if j < ks.len() {
                            assert(ks[j] == key);
                        }
                    }
                }
                assert(ks2.no_duplicates()) by {
                    assert forall|a: int, b: int| 0 <= a < ks2.len() && 0 <= b < ks2.len() && a != b implies ks2[a] != ks2[b] by {
                        if a < ks.len() && b < ks.len() {
                            assert(ks[a] == ks2[a] && ks[b] == ks2[b]);
                        } else if a < ks.len() {
                            assert(ks.contains(ks2[a]));
                        } else if b < ks.len() {
                            assert(ks.contains(ks2[b]));
                        }
                    }
                }
                assert(map_of(es@) =~= map_of(old_s).insert(k, v)) by {
                    assert forall|key: K| #[trigger] map_of(es@).contains_key(key) implies map_of(es@)[key] == map_of(old_s).insert(k, v)[key] by {
                        let ks2 = keys_of(es@);
                        let j = seq_index_of(ks2, key);
                        assert(ks2.contains(key));
                        if key == k {
                            assert(ks2[old_s.len() as int] == k);
                            assert(j == old_s.len());
                        } else {
                            assert(ks.contains(key));
                            let j0 = seq_index_of(ks, key);
                            assert(ks2[j0] == key);
                            assert(j == j0);
                        }
                    }
                }
            }
        }
        self.entries = es;
    }
}

impl<K: Key + Copy, V: Copy> KeyMap<K, V> {
    /// A copy of the entries, in order.
    pub fn entry_list(&self) -> (r: Vec<(K, V)>)
        ensures
            r@ == self.entries(),
    {
        copy_vec(&self.entries)
    }
}

impl<K: Key, V: Copy> KeyMap<K, V> {
    /// The stored values, in insertion order of their keys.
    pub fn values(&self) -> (r: Vec<V>)
        ensures
            r@ == self.entries().map_values(|e: (K, V)| e.1),
    {
        let mut r: Vec<V> = Vec::new();
        let mut i: usize = 0;
        while i < self.entries.len()
            invariant
                i <= self.entries@.len(),
                r@ == self.entries@.take(i as int).map_values(|e: (K, V)| e.1),
            decreases self.entries@.len() - i,
        {
            r.push(self.entries[i].1);
            assert(self.entries@.take(i + 1) =~= self.entries@.take(i as int).push(self.entries@[i as int]));
            i = i + 1;
        }
        assert(self.entries@.take(i as int) =~= self.entries@);
        r
    }
}

/// A copy of `v`.
pub fn copy_vec<T: Copy>(v: &Vec<T>) -> (r: Vec<T>)
    ensures
        r@ == v@,
{
    let mut r: Vec<T> = Vec::new();
    let mut i: usize = 0;
    while i < v.len()
        invariant
            i <= v@.len(),
            r@ == v@.take(i as int),
        decreases v@.len() - i,
    {
        r.push(v[i]);
        assert(v@.take(i + 1) =~= v@.take(i as int).push(v@[i as int]));
        i = i + 1;
    }
    assert(v@.take(i as int) =~= v@);
    r
}

/// Who has voted for what: for each key, the set of distinct voters.
#[derive(Debug)]
pub struct Tally<K> {
    votes: KeyMap<K, Vec<NodeId>>,
}

impl<K> Tally<K> {
    #[verifier::type_invariant]
    spec fn wf(&self) -> bool {
        forall|k: K| #[trigger] self.votes@.contains_key(k) ==> self.votes@[k]@.no_duplicates()
    }

    /// The distinct voters for `k`.
    pub closed spec fn voters(&self, k: K) -> Set<NodeId> {
        if self.votes@.contains_key(k) {
            self.votes@[k]@.to_set()
        } else {
            Set::empty()
        }
    }
}

impl<K: Key> Tally<K> {
    /// No votes yet.
    pub fn new() -> (t: Self)
        ensures
            forall|k: K| #[trigger] t.voters(k) == Set::<NodeId>::empty(),
    {
        Tally { votes: KeyMap::new() }
    }

    /// Record `voter`'s vote for `key`; returns how many distinct voters
    /// `key` now has.
    pub fn add(&mut self, key: K, voter: NodeId) -> (count: usize)
        ensures
            final(self).voters(key) == old(self).voters(key).insert(voter),
            forall|k: K| k != key ==> #[trigger] final(self).voters(k) == old(self).voters(k),
            count == final(self).voters(key).len(),
            final(self).voters(key).finite(),
    {
        proof { use_type_invariant(&*self); }
        let mut m = KeyMap::new();
        std::mem::swap(&mut m, &mut self.votes);
        let mut vs: Vec<NodeId> = match m.get(&key) {
            Some(v) => copy_vec(v),
            None => Vec::new(),
        };
        let ghost o = vs@;
        assert(o.to_set() == old(self).voters(key)) by {
            if !old(self).votes@.contains_key(key) {
                assert(o.to_set() =~= Set::<NodeId>::empty());
            }
        }
        assert(o.no_duplicates());
        if find(&vs, &voter) == vs.len() {
            vs.push(voter);
            proof {
                assert forall|x: NodeId| vs@.contains(x) <==> o.contains(x) || x == voter by {
                    if o.contains(x) {
                        let j = choose|j: int| 0 <= j < o.len() && o[j] == x;
                        assert(vs@[j] == x);
                    }
                    if x == voter {
                        assert(vs@[o.len() as int] == voter);
                    }
                    if vs@.contains(x) {
                        let j = choose|j: int| 0 <= j < vs@.len() && vs@[j] == x;
                        if j < o.len() {
                            assert(o[j] == x);
                        }
                    }
                }
                assert(vs@.no_duplicates()) by {
                    assert forall|a: int, b: int| 0 <= a < vs@.len() && 0 <= b < vs@.len() && a != b implies vs@[a] != vs@[b] by {
                        if a < o.len() && b < o.len() {
                            assert(o[a] == vs@[a] && o[b] == vs@[b]);
                        } else if a < o.len() {
                            assert(o.contains(vs@[a]));
                        } else if b < o.len() {
                            assert(o.contains(vs@[b]));
                        }
                    }
                }
                assert(vs@.to_set() =~= o.to_set().insert(voter));
            }
        } else {
            assert(o.to_set().insert(voter) =~= o.to_set());
        }
        let count = vs.len();
        proof { vs@.unique_seq_to_set(); }
        let ghost nv = vs@;
        m.insert(key, vs);
        self.votes = m;
        assert(self.votes@[key]@ == nv);
        count
    }

    /// How many distinct voters `key` has.
    pub fn count(&self, key: &K) -> (r: usize)
        ensures
            r == self.voters(*key).len(),
            self.voters(*key).finite(),
    {
        proof { use_type_invariant(self); }
        match self.votes.get(key) {
            Some(v) => {
                proof { v@.unique_seq_to_set(); }
                v.len()
            },
            None => {
                assert(self.voters(*key) =~= Set::<NodeId>::empty());
                0
            },
        }
    }
}

/// Whether the nodes of `s` are in strictly increasing order of number.
pub open spec fn ascending(s: Seq<NodeId>) -> bool {
    forall|i: int, j: int| 0 <= i < j < s.len() ==> s[i].0 < s[j].0
}

/// The nodes of `v`, which occur once each, in increasing order.
fn sort_nodes(v: &Vec<NodeId>) -> (r: Vec<NodeId>)
    requires
        v@.no_duplicates(),
    ensures
        ascending(r@),
        r@.to_set() == v@.to_set(),
{
    let mut r: Vec<NodeId> = Vec::new();
    let mut i: usize = 0;
    assert(r@.to_set() =~= v@.take(0).to_set());
    while i < v.len()
        invariant
            i <= v@.len(),
            v@.no_duplicates(),
            ascending(r@),
            r@.to_set() == v@.take(i as int).to_set(),
        decreases v@.len() - i,
    {
        let x = v[i];
        let mut p: usize = 0;
        while p < r.len() && r[p].0 < x.0
            invariant
                p <= r@.len(),
                forall|k: int| 0 <= k < p ==> (#[trigger] r@[k]).0 < x.0,
            decreases r@.len() - p,
        {
            p = p + 1;
        }
        let ghost old_r = r@;
        assert(!old_r.contains(x)) by {
            if old_r.contains(x) {
                assert(old_r.to_set().contains(x));
                assert(v@.take(i as int).contains(x));
                let k = choose|k: int| 0 <= k < i && v@.take(i as int)[k] == x;
                assert(v@[k] == v@[i as int]);
            }
        }
        if p < r.len() {
            assert(r@[p as int].0 != x.0) by {
                if r@[p as int].0 == x.0 {
                    assert(r@[p as int] == x);
                    assert(old_r.contains(x));
                }
            }
        }
        r.insert(p, x);
        assert(ascending(r@)) by {
            assert forall|a: int, b: int| 0 <= a < b < r@.len() implies r@[a].0 < r@[b].0 by {
                if b < p {
                    assert(r@[a] == old_r[a] && r@[b] == old_r[b]);
                } else if b == p {
                    assert(r@[a] == old_r[a]);
                } else if a < p {
                    assert(r@[a] == old_r[a] && r@[b] == old_r[b - 1]);
                    assert(old_r[p as int].0 > x.0);
                    if b - 1 > p {
                        assert(old_r[p as int].0 < old_r[b - 1].0);
                    }
                } else if a == p {
                    assert(r@[b] == old_r[b - 1]);
                    assert(old_r[p as int].0 > x.0);
                    if b - 1 > p {
                        assert(old_r[p as int].0 < old_r[b - 1].0);
                    }
                } else {
                    assert(r@[a] == old_r[a - 1] && r@[b] == old_r[b - 1]);
                }
            }
        }
        assert(r@.to_set() =~= v@.take(i + 1).to_set()) by {
            assert(v@.take(i + 1) =~= v@.take(i as int).push(x));
            v@.take(i as int).lemma_push_to_set_commute(x);
            assert forall|y: NodeId| r@.contains(y) <==> old_r.contains(y) || y == x by {
                if r@.contains(y) {
                    let k = choose|k: int| 0 <= k < r@.len() && r@[k] == y;
                    if k < p {
                        assert(old_r[k] == y);
                    } else if k > p {
                        assert(old_r[k - 1] == y);
                    }
                }
                if old_r.contains(y) {
                    let k = choose|k: int| 0 <= k < old_r.len() && old_r[k] == y;
                    if k < p {
                        assert(r@[k] == y);
                    } else {
                        assert(r@[k + 1] == y);
                    }
                }
                if y == x {
                    assert(r@[p as int] == x);
                }
            }
            assert forall|y: NodeId| r@.to_set().contains(y) <==> old_r.to_set().insert(x).contains(y) by {}
        }
        i = i + 1;
    }
    assert(v@.take(v@.len() as int) =~= v@);
    r
}

impl<K: Key> Tally<K> {
    /// The distinct voters for `key`, as a set listed in increasing
    /// order of node number.
    pub fn voter_set(&self, key: &K) -> (s: KeySet<NodeId>)
        ensures
            s@ == self.voters(*key),
            ascending(s.elems()),
    {
        proof { use_type_invariant(self); }
        let mut s = KeySet::new();
        match self.votes.get(key) {
            Some(v) => {
                let sorted = sort_nodes(v);
                let mut i: usize = 0;
                while i < sorted.len()
                    invariant
                        i <= sorted@.len(),
                        ascending(sorted@),
                        s.elems() == sorted@.take(i as int),
                        s@ == sorted@.take(i as int).to_set(),
                    decreases sorted@.len() - i,
                {
                    let x = sorted[i];
                    assert(!s@.contains(x)) by {
                        if s.elems().to_set().contains(x) {
                            assert(s.elems().contains(x));
                            let k = choose|k: int| 0 <= k < i && s.elems()[k] == x;
                            assert(sorted@[k] == x);
                        }
                    }
                    s.insert(x);
                    assert(sorted@.take(i + 1) =~= sorted@.take(i as int).push(x));
                    proof { sorted@.take(i as int).lemma_push_to_set_commute(x); }
                    i = i + 1;
                }
                assert(sorted@.take(sorted@.len() as int) =~= sorted@);
            },
            None => {
                assert(s@ =~= self.voters(*key));
            },
        }
        s
    }
}

/// Values received per round, in arrival order.
#[derive(Debug)]
pub struct RoundLog<V> {
    rounds: KeyMap<u32, Vec<V>>,
}

impl<V> RoundLog<V> {
    /// The values received for round `r`, in arrival order.
    pub closed spec fn values(&self, r: u32) -> Seq<V> {
        if self.rounds@.contains_key(r) {
            self.rounds@[r]@
        } else {
            Seq::empty()
        }
    }
}

impl<V: Copy> RoundLog<V> {
    /// Nothing received yet.
    pub fn new() -> (l: Self)
        ensures
            forall|r: u32| #[trigger] l.values(r) == Seq::<V>::empty(),
    {
        RoundLog { rounds: KeyMap::new() }
    }

    /// Record `v` for round `r`.
    pub fn push(&mut self, r: u32, v: V)
        ensures
            final(self).values(r) == old(self).values(r).push(v),
            forall|q: u32| q != r ==> #[trigger] final(self).values(q) == old(self).values(q),
    {
        let mut vs: Vec<V> = match self.rounds.get(&r) {
            Some(x) => copy_vec(x),
            None => Vec::new(),
        };
        vs.push(v);
        self.rounds.insert(r, vs);
    }

    /// The values received for round `r`.
    pub fn get(&self, r: u32) -> (out: Vec<V>)
        ensures
            out@ == self.values(r),
    {
        match self.rounds.get(&r) {
            Some(x) => copy_vec(x),
            None => Vec::new(),
        }
    }
}

} // verus!
