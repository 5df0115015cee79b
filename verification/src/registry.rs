//! A name-keyed registry of entries, the store behind both the tool and the
//! prompt surface. Registration inserts or overwrites; nothing is ever
//! deleted. A registry can be marked poisoned by the embedding when a panic
//! interrupts a critical section that was using it; from then on every
//! operation fails with the poisoning error and nothing recovers it.

use vstd::prelude::*;

use crate::error::McpError;

verus! {

/// The mapping an association list denotes: later entries overwrite earlier
/// ones (irrelevant under key uniqueness).
pub open spec fn assoc_map<E>(s: Seq<(Seq<char>, E)>) -> Map<Seq<char>, E>
    decreases s.len(),
{
    if s.len() == 0 {
        Map::empty()
    } else {
        assoc_map(s.drop_last()).insert(s.last().0, s.last().1)
    }
}

/// Key uniqueness of an association list.
pub open spec fn keys_unique<E>(s: Seq<(Seq<char>, E)>) -> bool {
    forall|i: int, j: int| 0 <= i < j < s.len() ==> (#[trigger] s[i]).0 != (#[trigger] s[j]).0
}

/// An entry of the association list carries the key the map knows it under.
pub proof fn lemma_assoc_map_index<E>(s: Seq<(Seq<char>, E)>, i: int)
    requires
        keys_unique(s),
        0 <= i < s.len(),
    ensures
        assoc_map(s).contains_key(s[i].0),
        assoc_map(s)[s[i].0] == s[i].1,
    decreases s.len(),
{
    if i == s.len() - 1 {
    } else {
        assert(s.drop_last()[i] == s[i]);
        lemma_assoc_map_index(s.drop_last(), i);
        assert(s[s.len() - 1].0 != s[i].0);
    }
}

/// A key no entry carries is not in the map.
pub proof fn lemma_assoc_map_absent<E>(s: Seq<(Seq<char>, E)>, k: Seq<char>)
    requires
        forall|i: int| 0 <= i < s.len() ==> (#[trigger] s[i]).0 != k,
    ensures
        !assoc_map(s).contains_key(k),
    decreases s.len(),
{
    if s.len() > 0 {
        assert forall|i: int| 0 <= i < s.drop_last().len() implies (#[trigger] s.drop_last()[
            i
        ]).0 != k by {
            assert(s.drop_last()[i] == s[i]);
        }
        lemma_assoc_map_absent(s.drop_last(), k);
    }
}

/// Overwriting the entry that carries a key inserts under that key.
pub proof fn lemma_assoc_map_update<E>(s: Seq<(Seq<char>, E)>, i: int, e: E)
    requires
        keys_unique(s),
        0 <= i < s.len(),
    ensures
        assoc_map(s.update(i, (s[i].0, e))) == assoc_map(s).insert(s[i].0, e),
    decreases s.len(),
{
    let t = s.update(i, (s[i].0, e));
    if i == s.len() - 1 {
        assert(t.drop_last() =~= s.drop_last());
        assert(assoc_map(t) =~= assoc_map(s).insert(s[i].0, e));
    } else {
        assert(t.drop_last() =~= s.drop_last().update(i, (s[i].0, e)));
        assert(s.drop_last()[i] == s[i]);
        lemma_assoc_map_update(s.drop_last(), i, e);
        assert(s[s.len() - 1].0 != s[i].0);
        assert(t.last() == s.last());
        assert(assoc_map(t) =~= assoc_map(s).insert(s[i].0, e));
    }
}

/// Under key uniqueness the map is exactly as large as the list.
pub proof fn lemma_assoc_map_len<E>(s: Seq<(Seq<char>, E)>)
    requires
        keys_unique(s),
    ensures
        assoc_map(s).dom().finite(),
        assoc_map(s).dom().len() == s.len(),
    decreases s.len(),
{
    if s.len() > 0 {
        lemma_assoc_map_len(s.drop_last());
        assert forall|i: int| 0 <= i < s.drop_last().len() implies (#[trigger] s.drop_last()[
            i
        ]).0 != s.last().0 by {
            assert(s.drop_last()[i] == s[i]);
        }
        lemma_assoc_map_absent(s.drop_last(), s.last().0);
    }
}

/// A key the map carries is carried by some entry of the list: the
/// converse of `lemma_assoc_map_index`.
pub proof fn lemma_assoc_map_contains<E>(s: Seq<(Seq<char>, E)>, k: Seq<char>)
    requires
        assoc_map(s).contains_key(k),
    ensures
        exists|i: int| 0 <= i < s.len() && #[trigger] s[i] == (k, assoc_map(s)[k]),
    decreases s.len(),
{
    if s.len() > 0 {
        if s.last().0 == k {
            assert(s[s.len() - 1] == (k, assoc_map(s)[k]));
        } else {
            lemma_assoc_map_contains(s.drop_last(), k);
            let i = choose|i: int|
                0 <= i < s.drop_last().len() && #[trigger] s.drop_last()[i] == (
                    k,
                    assoc_map(s.drop_last())[k],
                );
            assert(s[i] == (k, assoc_map(s)[k]));
        }
    }
}

/// A name-keyed store of entries. `E` is whatever one registration carries:
/// a descriptor together with its handler.
pub struct Registry<E> {
    entries: Vec<(String, E)>,
    poisoned: bool,
}

impl<E> Registry<E> {
    /// The association list this registry holds.
    pub closed spec fn seq_view(self) -> Seq<(Seq<char>, E)> {
        Seq::new(
            self.entries@.len(),
            |i: int|
                if 0 <= i < self.entries@.len() {
                    (self.entries@[i].0@, self.entries@[i].1)
                } else {
                    (Seq::empty(), self.entries@[i].1)
                },
        )
    }

    /// Well-formedness: no two entries share a name.
    pub closed spec fn wf(self) -> bool {
        keys_unique(self.seq_view())
    }

    /// Whether the embedding has marked this registry poisoned.
    pub closed spec fn is_poisoned(self) -> bool {
        self.poisoned
    }

    pub fn new() -> (r: Registry<E>)
        ensures
            r.wf(),
            !r.is_poisoned(),
            r@ == Map::<Seq<char>, E>::empty(),
    {
        let r = Registry { entries: Vec::new(), poisoned: false };
        proof {
            assert(r.seq_view() =~= Seq::<(Seq<char>, E)>::empty());
        }
        r
    }

    /// How many names are registered.
    pub fn len(&self) -> (n: usize)
        requires
            self.wf(),
        ensures
            n == self@.dom().len(),
            n == self.seq_view().len(),
    {
        proof {
            lemma_assoc_map_len(self.seq_view());
        }
        self.entries.len()
    }

    /// Whether the registry is poisoned, as executable code can test it.
    pub fn is_poisoned_check(&self) -> (r: bool)
        ensures
            r == self.is_poisoned(),
    {
        self.poisoned
    }

    /// Marks the registry poisoned: a panic interrupted a critical section
    /// that was mutating or reading it, so nothing it now returns can be
    /// trusted. This is never undone.
    pub fn mark_poisoned(&mut self)
        ensures
            final(self).is_poisoned(),
            final(self).seq_view() == old(self).seq_view(),
            final(self)@ == old(self)@,
            final(self).wf() == old(self).wf(),
    {
        self.poisoned = true;
    }

    /// Index of the entry carrying `name`, if any.
    fn find(&self, name: &String) -> (r: Option<usize>)
        requires
            self.wf(),
        ensures
            match r {
                Some(i) => i < self.seq_view().len() && self.seq_view()[i as int].0 == name@,
                None => forall|i: int|
                    0 <= i < self.seq_view().len() ==> (#[trigger] self.seq_view()[i]).0 != name@,
            },
    {
        let mut i: usize = 0;
        while i < self.entries.len()
            invariant
                i <= self.entries@.len(),
                forall|k: int| 0 <= k < i ==> (#[trigger] self.seq_view()[k]).0 != name@,
            decreases self.entries@.len() - i,
        {
            if self.entries[i].0 == *name {
                return Some(i);
            }
            i = i + 1;
        }
        None
    }

    /// Inserts `entry` under `name`, overwriting whatever the name carried.
    pub fn register(&mut self, name: String, entry: E) -> (r: Result<(), McpError>)
        requires
            old(self).wf(),
        ensures
            final(self).wf(),
            final(self).is_poisoned() == old(self).is_poisoned(),
            old(self).is_poisoned() ==> r is Err && r->Err_0 is LockPoisoned
                && r->Err_0->LockPoisoned_0@ == "registry"@ && final(self)@ == old(self)@
                && final(self).seq_view() == old(self).seq_view(),
            !old(self).is_poisoned() ==> r is Ok && final(self)@ == old(self)@.insert(
                name@,
                entry,
            ),
    {
        if self.poisoned {
            return Err(McpError::LockPoisoned(String::from_str("registry")));
        }
        let ghost s = self.seq_view();
        match self.find(&name) {
            Some(i) => {
                proof {
                    lemma_assoc_map_update(s, i as int, entry);
                }
                self.entries.set(i, (name, entry));
                proof {
                    assert(self.seq_view() =~= s.update(i as int, (s[i as int].0, entry)));
                    assert forall|a: int, b: int|
                        0 <= a < b < self.seq_view().len() implies (#[trigger] self.seq_view()[
                        a
                    ]).0 != (#[trigger] self.seq_view()[b]).0 by {
                        assert(s[a].0 == self.seq_view()[a].0);
                        assert(s[b].0 == self.seq_view()[b].0);
                    }
                }
                Ok(())
            },
            None => {
                proof {
                    lemma_assoc_map_absent(s, name@);
                    assert(assoc_map(s).insert(name@, entry) == assoc_map(s).insert(name@, entry));
                }
                self.entries.push((name, entry));
                proof {
                    assert(self.seq_view() =~= s.push((s[s.len() as int - 1].0, entry)).update(
                        s.len() as int,
                        self.seq_view().last(),
                    ));
                    assert(self.seq_view() =~= s.push(self.seq_view().last()));
                    assert(self.seq_view().drop_last() =~= s);
                    assert forall|a: int, b: int|
                        0 <= a < b < self.seq_view().len() implies (#[trigger] self.seq_view()[
                        a
                    ]).0 != (#[trigger] self.seq_view()[b]).0 by {
                        if b < s.len() {
                            assert(s[a].0 == self.seq_view()[a].0);
                            assert(s[b].0 == self.seq_view()[b].0);
                        } else {
                            assert(s[a].0 == self.seq_view()[a].0);
                        }
                    }
                }
                Ok(())
            },
        }
    }

    /// Looks `name` up: the entry it carries, `Ok(None)` where nothing does.
    pub fn get(&self, name: &String) -> (r: Result<Option<&E>, McpError>)
        requires
            self.wf(),
        ensures
            self.is_poisoned() ==> r is Err && r->Err_0 is LockPoisoned
                && r->Err_0->LockPoisoned_0@ == "registry"@,
            !self.is_poisoned() ==> match r {
                Ok(Some(e)) => self@.contains_key(name@) && *e == self@[name@],
                Ok(None) => !self@.contains_key(name@),
                Err(_) => false,
            },
    {
        if self.poisoned {
            return Err(McpError::LockPoisoned(String::from_str("registry")));
        }
        match self.find(name) {
            Some(i) => {
                proof {
                    lemma_assoc_map_index(self.seq_view(), i as int);
                }
                Ok(Some(&self.entries[i].1))
            },
            None => {
                proof {
                    lemma_assoc_map_absent(self.seq_view(), name@);
                }
                Ok(None)
            },
        }
    }

    /// Bridge between the two abstract views: a well-formed registry's
    /// listing order is key-unique and denotes exactly its map.
    pub proof fn lemma_wf_unique(self)
        requires
            self.wf(),
        ensures
            keys_unique(self.seq_view()),
            self@ == assoc_map(self.seq_view()),
    {
    }

    /// The law behind register-then-list: whatever the registry held
    /// before, an entry its map carries under a name stands at exactly one
    /// position of the listing order, and it is that map entry.
    pub proof fn lemma_listed_once(self, name: Seq<char>)
        requires
            self.wf(),
            self@.contains_key(name),
        ensures
            exists|i: int|
                0 <= i < self.seq_view().len() && #[trigger] self.seq_view()[i] == (
                    name,
                    self@[name],
                ),
            forall|i: int, j: int|
                0 <= i < self.seq_view().len() && 0 <= j < self.seq_view().len() && (
                #[trigger] self.seq_view()[i]).0 == name && (#[trigger] self.seq_view()[j]).0
                    == name ==> i == j,
    {
        lemma_assoc_map_contains(self.seq_view(), name);
    }

    /// The entry at a position, for building listing snapshots.
    pub fn entry_at(&self, i: usize) -> (r: &(String, E))
        requires
            self.wf(),
            i < self.seq_view().len(),
        ensures
            (r.0@, r.1) == self.seq_view()[i as int],
            self@.contains_key(r.0@),
            self@[r.0@] == r.1,
    {
        proof {
            lemma_assoc_map_index(self.seq_view(), i as int);
        }
        &self.entries[i]
    }
}

impl<E> View for Registry<E> {
    type V = Map<Seq<char>, E>;

    closed spec fn view(&self) -> Map<Seq<char>, E> {
        assoc_map(self.seq_view())
    }
}

/// Overwriting a registration leaves one entry under the name: inserting
/// twice under the same name is the same as inserting the second entry once.
pub proof fn lemma_register_overwrites<E>(m: Map<Seq<char>, E>, name: Seq<char>, e1: E, e2: E)
    ensures
        m.insert(name, e1).insert(name, e2) == m.insert(name, e2),
        m.insert(name, e1).insert(name, e2).dom().len() == m.insert(name, e2).dom().len(),
{
    assert(m.insert(name, e1).insert(name, e2) =~= m.insert(name, e2));
}

} // verus!
