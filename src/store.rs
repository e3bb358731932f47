//! The in-memory store: a map from text keys to values, with strict
//! insertion (an existing key is never overwritten) and atomic renaming.
use vstd::prelude::*;
use crate::error::StoreError;
use crate::model::Record;

verus! {

/// Whether `entries` lists exactly the pairs of `m`, each key once.
pub open spec fn lists<V>(entries: Seq<(String, V)>, m: Map<Seq<char>, V>) -> bool {
    &&& forall|i: int, j: int|
        0 <= i < j < entries.len() ==> #[trigger] entries[i].0@ != #[trigger] entries[j].0@
    &&& forall|i: int|
        0 <= i < entries.len() ==> m.contains_key(#[trigger] entries[i].0@) && m[entries[i].0@]
            == entries[i].1
    &&& forall|k: Seq<char>|
        #[trigger] m.contains_key(k) ==> exists|i: int| 0 <= i < entries.len() && entries[i].0@ == k
}

/// A mutation of a store's content, described by value.
pub enum Mutation<V> {
    Insert(Seq<char>, V),
    Remove(Seq<char>),
    Rename(Seq<char>, Seq<char>),
}

/// The content after `op` is applied to `m`, as the store's methods state
/// it; a refused mutation changes nothing.
pub open spec fn apply<V>(m: Map<Seq<char>, V>, op: Mutation<V>) -> Map<Seq<char>, V> {
    match op {
        Mutation::Insert(k, v) => if m.contains_key(k) {
            m
        } else {
            m.insert(k, v)
        },
        Mutation::Remove(k) => m.remove(k),
        Mutation::Rename(from, to) => if m.contains_key(from) && !m.contains_key(to) {
            m.remove(from).insert(to, m[from])
        } else {
            m
        },
    }
}

/// The content after each of `ops` is applied in turn to `m`.
pub open spec fn apply_all<V>(m: Map<Seq<char>, V>, ops: Seq<Mutation<V>>) -> Map<
    Seq<char>,
    V,
>
    decreases ops.len(),
{
    if ops.len() == 0 {
        m
    } else {
        apply(apply_all(m, ops.drop_last()), ops.last())
    }
}

/// Whether `op` inserts, removes or renames from or to the key `k`.
pub open spec fn touches<V>(op: Mutation<V>, k: Seq<char>) -> bool {
    match op {
        Mutation::Insert(k2, _) => k2 == k,
        Mutation::Remove(k2) => k2 == k,
        Mutation::Rename(from, to) => from == k || to == k,
    }
}

/// Once `k` has been inserted with `v` into a store that lacked it, reading
/// `k` gives `v` for as long as no later mutation touches `k`.
pub proof fn law_read_after_insert<V>(
    m: Map<Seq<char>, V>,
    k: Seq<char>,
    v: V,
    later: Seq<Mutation<V>>,
)
    requires
        !m.contains_key(k),
        forall|i: int| 0 <= i < later.len() ==> !touches(#[trigger] later[i], k),
    ensures
        apply_all(apply(m, Mutation::Insert(k, v)), later).contains_key(k),
        apply_all(apply(m, Mutation::Insert(k, v)), later)[k] == v,
    decreases later.len(),
{
    if later.len() > 0 {
        let earlier = later.drop_last();
        assert forall|i: int| 0 <= i < earlier.len() implies !touches(#[trigger] earlier[i], k) by {
            assert(earlier[i] == later[i]);
        }
        law_read_after_insert(m, k, v, earlier);
        assert(!touches(later[later.len() - 1], k));
    }
}

/// Writers that each insert a key of their own lose nothing: however their
/// inserts are ordered one after another (as the store's lock orders them),
/// the content afterwards holds every one of their keys with its value.
pub proof fn law_no_lost_insert<V>(m: Map<Seq<char>, V>, inserts: Seq<(Seq<char>, V)>)
    requires
        forall|i: int| 0 <= i < inserts.len() ==> !m.contains_key(#[trigger] inserts[i].0),
        forall|i: int, j: int|
            0 <= i < j < inserts.len() ==> #[trigger] inserts[i].0 != #[trigger] inserts[j].0,
    ensures
        forall|i: int|
            0 <= i < inserts.len() ==> apply_all(
                m,
                inserts.map_values(|p: (Seq<char>, V)| Mutation::Insert(p.0, p.1)),
            ).contains_key(#[trigger] inserts[i].0) && apply_all(
                m,
                inserts.map_values(|p: (Seq<char>, V)| Mutation::Insert(p.0, p.1)),
            )[inserts[i].0] == inserts[i].1,
    decreases inserts.len(),
{
    let ops = inserts.map_values(|p: (Seq<char>, V)| Mutation::Insert(p.0, p.1));
    if inserts.len() > 0 {
        let earlier = inserts.drop_last();
        let earlier_ops = earlier.map_values(|p: (Seq<char>, V)| Mutation::Insert(p.0, p.1));
        assert(ops.drop_last() =~= earlier_ops);
        assert forall|i: int| 0 <= i < earlier.len() implies !m.contains_key(
            #[trigger] earlier[i].0,
        ) by {
            assert(earlier[i] == inserts[i]);
        }
        assert forall|i: int, j: int| 0 <= i < j < earlier.len() implies #[trigger] earlier[i].0
            != #[trigger] earlier[j].0 by {
            assert(earlier[i] == inserts[i]);
            assert(earlier[j] == inserts[j]);
        }
        law_no_lost_insert(m, earlier);
        let before = apply_all(m, earlier_ops);
        let n = inserts.len() - 1;
        let k = inserts[n].0;
        assert(!before.contains_key(k)) by {
            lemma_inserts_only_add(m, earlier, k);
            assert forall|i: int| 0 <= i < earlier.len() implies earlier[i].0 != k by {
                assert(earlier[i] == inserts[i]);
            }
        }
        assert forall|i: int| 0 <= i < inserts.len() implies apply_all(m, ops).contains_key(
            #[trigger] inserts[i].0,
        ) && apply_all(m, ops)[inserts[i].0] == inserts[i].1 by {
            if i < n {
                assert(earlier[i] == inserts[i]);
                assert(inserts[i].0 != k);
            }
        }
    }
}

/// A key that none of `inserts` names is present after them only if it was
/// present before.
proof fn lemma_inserts_only_add<V>(m: Map<Seq<char>, V>, inserts: Seq<(Seq<char>, V)>, k: Seq<char>)
    requires
        !m.contains_key(k),
        forall|i: int| 0 <= i < inserts.len() ==> (#[trigger] inserts[i]).0 != k,
    ensures
        !apply_all(m, inserts.map_values(|p: (Seq<char>, V)| Mutation::Insert(p.0, p.1)))
            .contains_key(k),
    decreases inserts.len(),
{
    if inserts.len() > 0 {
        let earlier = inserts.drop_last();
        assert(inserts.map_values(|p: (Seq<char>, V)| Mutation::Insert(p.0, p.1)).drop_last()
            =~= earlier.map_values(|p: (Seq<char>, V)| Mutation::Insert(p.0, p.1)));
        assert forall|i: int| 0 <= i < earlier.len() implies (#[trigger] earlier[i]).0 != k by {
            assert(earlier[i] == inserts[i]);
        }
        lemma_inserts_only_add(m, earlier, k);
    }
}

/// A map from keys to values.
pub struct Store<V> {
    entries: Vec<(String, V)>,
    content: Ghost<Map<Seq<char>, V>>,
}

impl<V> View for Store<V> {
    type V = Map<Seq<char>, V>;

    closed spec fn view(&self) -> Map<Seq<char>, V> {
        self.content@
    }
}

impl<V> Store<V> {
    /// The store's internal consistency: its entries list its content.
    pub closed spec fn wf(&self) -> bool {
        lists(self.entries@, self.content@)
    }

    /// An empty store.
    pub fn new() -> (r: Store<V>)
        ensures
            r.wf(),
            r@ == Map::<Seq<char>, V>::empty(),
    {
        Store { entries: Vec::new(), content: Ghost(Map::empty()) }
    }

    /// The position of `key` among the entries, if it is present.
    fn find(&self, key: &str) -> (r: Option<usize>)
        requires
            self.wf(),
        ensures
            match r {
                Some(i) => i < self.entries@.len() && self.entries@[i as int].0@ == key@,
                None => !self@.contains_key(key@),
            },
    {
        let k = key.to_owned();
        let mut i: usize = 0;
        while i < self.entries.len()
            invariant
                i <= self.entries@.len(),
                k@ == key@,
                forall|j: int| 0 <= j < i ==> self.entries@[j].0@ != key@,
            decreases self.entries@.len() - i,
        {
            if self.entries[i].0 == k {
                return Some(i);
            }
            i += 1;
        }
        proof {
            if self@.contains_key(key@) {
                let j = choose|j: int|
                    0 <= j < self.entries@.len() && self.entries@[j].0@ == key@;
            }
        }
        None
    }

    /// Adds `key` with `value`; fails with `KeyAlreadyExists`, changing
    /// nothing, when the key is present.
    pub fn insert(&mut self, key: String, value: V) -> (r: Result<(), StoreError>)
        requires
            old(self).wf(),
        ensures
            final(self).wf(),
            old(self)@.contains_key(key@) ==> (r matches Err(StoreError::KeyAlreadyExists)
                && final(self)@ == old(self)@),
            !old(self)@.contains_key(key@) ==> r is Ok && final(self)@ == old(self)@.insert(
                key@,
                value,
            ),
            final(self)@ == apply(old(self)@, Mutation::Insert(key@, value)),
    {
        if self.find(key.as_str()).is_some() {
            return Err(StoreError::KeyAlreadyExists);
        }
        let ghost k = key@;
        let ghost v = value;
        let ghost before = self.entries@;
        self.entries.push((key, value));
        self.content = Ghost(self.content@.insert(k, v));
        proof {
            let n = before.len() as int;
            assert(self.entries@[n].0@ == k);
            assert forall|key2: Seq<char>| #[trigger]
                self.content@.contains_key(key2) implies exists|i: int|
                0 <= i < self.entries@.len() && self.entries@[i].0@ == key2 by {
                if key2 != k {
                    let i = choose|i: int| 0 <= i < before.len() && before[i].0@ == key2;
                    assert(self.entries@[i] == before[i]);
                }
            }
        }
        Ok(())
    }

    /// The value under `key`, if present.
    pub fn get(&self, key: &str) -> (r: Option<&V>)
        requires
            self.wf(),
        ensures
            match r {
                Some(v) => self@.contains_key(key@) && *v == self@[key@],
                None => !self@.contains_key(key@),
            },
    {
        match self.find(key) {
            Some(i) => Some(&self.entries[i].1),
            None => None,
        }
    }

    /// Takes the value under `key` out of the store; fails with
    /// `KeyNotFound`, changing nothing, when the key is absent.
    pub fn remove(&mut self, key: &str) -> (r: Result<V, StoreError>)
        requires
            old(self).wf(),
        ensures
            final(self).wf(),
            old(self)@.contains_key(key@) ==> (r matches Ok(v) && v == old(self)@[key@]
                && final(self)@ == old(self)@.remove(key@)),
            !old(self)@.contains_key(key@) ==> (r matches Err(StoreError::KeyNotFound)
                && final(self)@ == old(self)@),
            final(self)@ == apply(old(self)@, Mutation::Remove(key@)),
    {
        match self.find(key) {
            None => {
                assert(self@.remove(key@) =~= self@);
                Err(StoreError::KeyNotFound)
            },
            Some(i) => {
                let ghost before = self.entries@;
                let (_, record) = self.entries.remove(i);
                self.content = Ghost(self.content@.remove(key@));
                proof {
                    assert forall|j: int| 0 <= j < self.entries@.len() implies #[trigger]
                        self.entries@[j] == before[if j < i {
                            j
                        } else {
                            j + 1
                        }] by {}
                    assert forall|key2: Seq<char>| #[trigger]
                        self.content@.contains_key(key2) implies exists|j: int|
                        0 <= j < self.entries@.len() && self.entries@[j].0@ == key2 by {
                        let j = choose|j: int| 0 <= j < before.len() && before[j].0@ == key2;
                        assert(j != i);
                        if j < i {
                            assert(self.entries@[j] == before[j]);
                        } else {
                            assert(self.entries@[j - 1] == before[j]);
                        }
                    }
                    assert forall|a: int, b: int|
                        0 <= a < b < self.entries@.len() implies #[trigger] self.entries@[a].0@
                        != #[trigger] self.entries@[b].0@ by {
                        let a0 = if a < i {
                            a
                        } else {
                            a + 1
                        };
                        let b0 = if b < i {
                            b
                        } else {
                            b + 1
                        };
                        assert(self.entries@[a] == before[a0]);
                        assert(self.entries@[b] == before[b0]);
                    }
                    assert forall|j: int| 0 <= j < self.entries@.len() implies self.content@.contains_key(
                        #[trigger] self.entries@[j].0@,
                    ) && self.content@[self.entries@[j].0@] == self.entries@[j].1 by {
                        let j0 = if j < i {
                            j
                        } else {
                            j + 1
                        };
                        assert(self.entries@[j] == before[j0]);
                        assert(before[j0].0@ != before[i as int].0@);
                    }
                }
                Ok(record)
            },
        }
    }

    /// Whether `key` is present.
    pub fn contains(&self, key: &str) -> (r: bool)
        requires
            self.wf(),
        ensures
            r == self@.contains_key(key@),
    {
        self.find(key).is_some()
    }

    /// Every key with its value, each key once, in no particular order.
    pub fn iter(&self) -> (r: &[(String, V)])
        requires
            self.wf(),
        ensures
            lists(r@, self@),
    {
        self.entries.as_slice()
    }

    /// Moves the value under `from` to `to` in one step; fails with
    /// `KeyNotFound` when `from` is absent, else with `KeyAlreadyExists` when
    /// `to` is present, and then changes nothing.
    pub fn rename_key(&mut self, from: &str, to: String) -> (r: Result<(), StoreError>)
        requires
            old(self).wf(),
        ensures
            final(self).wf(),
            !old(self)@.contains_key(from@) ==> (r matches Err(StoreError::KeyNotFound)
                && final(self)@ == old(self)@),
            old(self)@.contains_key(from@) && old(self)@.contains_key(to@) ==> (r matches Err(
                StoreError::KeyAlreadyExists,
            ) && final(self)@ == old(self)@),
            old(self)@.contains_key(from@) && !old(self)@.contains_key(to@) ==> r is Ok
                && final(self)@ == old(self)@.remove(from@).insert(to@, old(self)@[from@]),
            final(self)@ == apply(old(self)@, Mutation::Rename(from@, to@)),
    {
        if !self.contains(from) {
            return Err(StoreError::KeyNotFound);
        }
        if self.contains(to.as_str()) {
            return Err(StoreError::KeyAlreadyExists);
        }
        let value = match self.remove(from) {
            Ok(value) => value,
            Err(e) => return Err(e),
        };
        self.insert(to, value)
    }
}

impl<V> Default for Store<V> {
    fn default() -> (r: Store<V>)
        ensures
            r.wf(),
            r@ == Map::<Seq<char>, V>::empty(),
    {
        Store::new()
    }
}

impl Store<Record> {
    /// The payload of the record under `key`, if present.
    pub fn payload(&self, key: &str) -> (r: Option<&[u8]>)
        requires
            self.wf(),
        ensures
            match r {
                Some(p) => self@.contains_key(key@) && p@ == self@[key@].payload@,
                None => !self@.contains_key(key@),
            },
    {
        match self.get(key) {
            Some(rec) => Some(rec.payload.as_slice()),
            None => None,
        }
    }

}

} // verus!
