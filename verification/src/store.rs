//! The store: a mapping from key to value, keys unique, owned exclusively by
//! the service task.
//!
//! The store is kept as a vector of key-value entries with pairwise distinct
//! keys and is viewed as the map those entries describe. No other component
//! reads or writes it; every mutation goes through [`Store::set`].

use vstd::prelude::*;

verus! {

/// The map described by a sequence of key-value entries; a later entry for a
/// key overrides an earlier one.
pub open spec fn map_of(es: Seq<(String, String)>) -> Map<Seq<char>, Seq<char>>
    decreases es.len(),
{
    if es.len() == 0 {
        Map::empty()
    } else {
        map_of(es.drop_last()).insert(es.last().0@, es.last().1@)
    }
}

/// No two entries share a key.
pub open spec fn unique_keys(es: Seq<(String, String)>) -> bool {
    forall|i: int, j: int| 0 <= i < j < es.len() ==> es[i].0@ != es[j].0@
}

proof fn lemma_map_of_contains(es: Seq<(String, String)>, k: Seq<char>)
    ensures
        map_of(es).contains_key(k) <==> (exists|i: int| 0 <= i < es.len() && es[i].0@ == k),
    decreases es.len(),
{
    if es.len() > 0 {
        lemma_map_of_contains(es.drop_last(), k);
        if es.last().0@ == k {
            assert(es[es.len() - 1].0@ == k);
        } else {
            if exists|i: int| 0 <= i < es.len() && es[i].0@ == k {
                let i = choose|i: int| 0 <= i < es.len() && es[i].0@ == k;
                assert(es.drop_last()[i].0@ == k);
            }
        }
    }
}

proof fn lemma_map_of_at(es: Seq<(String, String)>, i: int)
    requires
        unique_keys(es),
        0 <= i < es.len(),
    ensures
        map_of(es).contains_key(es[i].0@),
        map_of(es)[es[i].0@] == es[i].1@,
    decreases es.len(),
{
    if i < es.len() - 1 {
        lemma_map_of_at(es.drop_last(), i);
        assert(es.drop_last()[i] == es[i]);
    }
}

proof fn lemma_map_of_update(es: Seq<(String, String)>, i: int, kv: (String, String))
    requires
        unique_keys(es),
        0 <= i < es.len(),
        es[i].0@ == kv.0@,
    ensures
        map_of(es.update(i, kv)) == map_of(es).insert(kv.0@, kv.1@),
    decreases es.len(),
{
    if i == es.len() - 1 {
        assert(es.update(i, kv).drop_last() =~= es.drop_last());
        assert(map_of(es.update(i, kv)) =~= map_of(es).insert(kv.0@, kv.1@));
    } else {
        assert(es.update(i, kv).drop_last() =~= es.drop_last().update(i, kv));
        lemma_map_of_update(es.drop_last(), i, kv);
        assert(es[i].0@ != es.last().0@);
        assert(map_of(es.update(i, kv)) =~= map_of(es).insert(kv.0@, kv.1@));
    }
}

proof fn lemma_map_of_congruent(a: Seq<(String, String)>, b: Seq<(String, String)>)
    requires
        a.len() == b.len(),
        forall|i: int| 0 <= i < a.len() ==> a[i].0@ == b[i].0@ && a[i].1@ == b[i].1@,
    ensures
        map_of(a) == map_of(b),
    decreases a.len(),
{
    if a.len() > 0 {
        lemma_map_of_congruent(a.drop_last(), b.drop_last());
        assert(map_of(a) =~= map_of(b));
    }
}

/// The key-value store. Created empty; mutated only by processing commands.
pub struct Store {
    entries: Vec<(String, String)>,
}

impl View for Store {
    type V = Map<Seq<char>, Seq<char>>;

    closed spec fn view(&self) -> Map<Seq<char>, Seq<char>> {
        map_of(self.entries@)
    }
}

impl Store {
    /// The store's entries hold pairwise distinct keys.
    pub closed spec fn wf(&self) -> bool {
        unique_keys(self.entries@)
    }

    /// An empty store.
    pub fn new() -> (s: Store)
        ensures
            s.wf(),
            s@ == Map::<Seq<char>, Seq<char>>::empty(),
    {
        let s = Store { entries: Vec::new() };
        proof {
            assert(s@ =~= Map::<Seq<char>, Seq<char>>::empty());
        }
        s
    }

    /// The index of the entry holding `key`, if the store has one.
    fn find(&self, key: &String) -> (r: Option<usize>)
        ensures
            match r {
                Some(i) => i < self.entries@.len() && self.entries@[i as int].0@ == key@,
                None => forall|i: int|
                    0 <= i < self.entries@.len() ==> self.entries@[i].0@ != key@,
            },
    {
        let mut i: usize = 0;
        while i < self.entries.len()
            invariant
                i <= self.entries@.len(),
                forall|j: int| 0 <= j < i ==> self.entries@[j].0@ != key@,
            decreases self.entries@.len() - i,
        {
            if self.entries[i].0 == *key {
                return Some(i);
            }
            i = i + 1;
        }
        None
    }

    /// Looks `key` up; `None` exactly when the store holds no value for it.
    pub fn get(&self, key: &String) -> (r: Option<String>)
        requires
            self.wf(),
        ensures
            match r {
                Some(v) => self@.contains_key(key@) && v@ == self@[key@],
                None => !self@.contains_key(key@),
            },
    {
        match self.find(key) {
            Some(i) => {
                proof {
                    lemma_map_of_at(self.entries@, i as int);
                }
                Some(self.entries[i].1.clone())
            },
            None => {
                proof {
                    lemma_map_of_contains(self.entries@, key@);
                }
                None
            },
        }
    }

    /// Inserts `key -> value`, overwriting any earlier value for `key`.
    pub fn set(&mut self, key: String, value: String)
        requires
            old(self).wf(),
        ensures
            final(self).wf(),
            final(self)@ == old(self)@.insert(key@, value@),
    {
        let ghost es = self.entries@;
        match self.find(&key) {
            Some(i) => {
                proof {
                    lemma_map_of_update(es, i as int, (key, value));
                }
                let slot = &mut self.entries[i];
                *slot = (key, value);
                proof {
                    assert forall|p: int, q: int|
                        0 <= p < q < self.entries@.len() implies self.entries@[p].0@
                        != self.entries@[q].0@ by {
                        assert(es[p].0@ != es[q].0@);
                    }
                }
            },
            None => {
                self.entries.push((key, value));
                proof {
                    assert(self.entries@.drop_last() =~= es);
                    assert(forall|p: int|
                        0 <= p < es.len() ==> self.entries@[p] == es[p]);
                }
            },
        }
    }

    /// A copy of the store's entries, for handing to the persistence
    /// collaborator.
    pub fn snapshot(&self) -> (r: Vec<(String, String)>)
        requires
            self.wf(),
        ensures
            map_of(r@) == self@,
            unique_keys(r@),
    {
        let mut r: Vec<(String, String)> = Vec::new();
        let mut i: usize = 0;
        while i < self.entries.len()
            invariant
                i <= self.entries@.len(),
                r@.len() == i,
                forall|j: int|
                    0 <= j < i ==> r@[j].0@ == self.entries@[j].0@ && r@[j].1@
                        == self.entries@[j].1@,
            decreases self.entries@.len() - i,
        {
            let k = self.entries[i].0.clone();
            let v = self.entries[i].1.clone();
            r.push((k, v));
            i = i + 1;
        }
        proof {
            lemma_map_of_congruent(r@, self.entries@);
        }
        r
    }
}

} // verus!
