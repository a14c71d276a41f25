//! What is kept for each texture of an interface, under the texture's name.

use vstd::prelude::*;

verus! {

/// Names a texture: one of the interface's own, or one of the user's.
#[derive(Clone, Copy, Debug, PartialEq, Eq, Structural)]
pub enum TextureId {
    Managed(u64),
    User(u64),
}

/// A value for each of some textures.
#[derive(Clone, Debug)]
pub struct TextureTable<V> {
    entries: Vec<(TextureId, V)>,
}

impl<V> TextureTable<V> {
    /// No name occurs twice.
    pub closed spec fn wf(self) -> bool {
        forall|i: int, j: int|
            0 <= i < j < self.entries@.len() ==> (#[trigger] self.entries@[i]).0 != (
            #[trigger] self.entries@[j]).0
    }

    spec fn has(self, id: TextureId) -> bool {
        exists|i: int| 0 <= i < self.entries@.len() && (#[trigger] self.entries@[i]).0 == id
    }

    spec fn index_of(self, id: TextureId) -> int {
        choose|i: int| 0 <= i < self.entries@.len() && (#[trigger] self.entries@[i]).0 == id
    }

    /// What the names lead to.
    pub closed spec fn view(self) -> Map<TextureId, V> {
        Map::new(
            |id: TextureId| self.has(id),
            |id: TextureId| self.entries@[self.index_of(id)].1,
        )
    }

    proof fn lemma_index(self, id: TextureId, i: int)
        requires
            self.wf(),
            0 <= i < self.entries@.len(),
            self.entries@[i].0 == id,
        ensures
            self@.dom().contains(id),
            self.index_of(id) == i,
            self@[id] == self.entries@[i].1,
    {
        let k = self.index_of(id);
        assert(0 <= k < self.entries@.len() && self.entries@[k].0 == id);
        if k < i {
            assert(self.entries@[k].0 != self.entries@[i].0);
        } else if i < k {
            assert(self.entries@[i].0 != self.entries@[k].0);
        }
    }

    /// A table without entries.
    pub fn new() -> (table: TextureTable<V>)
        ensures
            table.wf(),
            table@ == Map::<TextureId, V>::empty(),
    {
        let table = TextureTable { entries: Vec::new() };
        assert(table@ =~= Map::<TextureId, V>::empty());
        table
    }

    fn find(&self, id: TextureId) -> (found: Option<usize>)
        requires
            self.wf(),
        ensures
            match found {
                Some(i) => i < self.entries@.len() && self.entries@[i as int].0 == id
                    && self@.dom().contains(id) && self@[id] == self.entries@[i as int].1,
                None => !self@.dom().contains(id) && !self.has(id),
            },
    {
        let mut i: usize = 0;
        while i < self.entries.len()
            invariant
                self.wf(),
                i <= self.entries.len(),
                forall|k: int| 0 <= k < i ==> (#[trigger] self.entries@[k]).0 != id,
            decreases self.entries.len() - i,
        {
            if self.entries[i].0 == id {
                proof {
                    self.lemma_index(id, i as int);
                }
                return Some(i);
            }
            i += 1;
        }
        None
    }

    /// What a name leads to, if anything.
    pub fn get(&self, id: TextureId) -> (value: Option<&V>)
        requires
            self.wf(),
        ensures
            match value {
                Some(found) => self@.dom().contains(id) && *found == self@[id],
                None => !self@.dom().contains(id),
            },
    {
        match self.find(id) {
            Some(i) => Some(&self.entries[i].1),
            None => None,
        }
    }

    proof fn lemma_replaced(self, before: TextureTable<V>, id: TextureId, value: V, i: int)
        requires
            self.wf(),
            before.wf(),
            0 <= i < self.entries@.len(),
            self.entries@[i] == (id, value),
            before.entries@.len() <= self.entries@.len() <= before.entries@.len() + 1,
            before.entries@.len() == i ==> self.entries@.len() == i + 1 && !before.has(id),
            before.entries@.len() != i ==> self.entries@.len() == before.entries@.len()
                && before.entries@[i].0 == id,
            forall|k: int|
                0 <= k < before.entries@.len() && k != i ==> #[trigger] self.entries@[k]
                    == before.entries@[k],
        ensures
            self@ == before@.insert(id, value),
    {
        self.lemma_index(id, i);
        assert forall|k: TextureId| k != id implies (#[trigger] self@.dom().contains(k)
            == before@.dom().contains(k)) && (self@.dom().contains(k) ==> self@[k] == before@[k]) by {
            if before.has(k) {
                let n = before.index_of(k);
                assert(before.entries@[n].0 == k);
                assert(self.entries@[n] == before.entries@[n]);
                self.lemma_index(k, n);
            }
            if self.has(k) {
                let n = self.index_of(k);
                assert(self.entries@[n].0 == k);
                assert(n != i);
                assert(self.entries@[n] == before.entries@[n]);
                before.lemma_index(k, n);
            }
        }
        assert(self@ =~= before@.insert(id, value));
    }

    /// Put a value under a name, in place of an earlier one.
    pub fn insert(&mut self, id: TextureId, value: V)
        requires
            old(self).wf(),
        ensures
            final(self).wf(),
            final(self)@ == old(self)@.insert(id, value),
    {
        let ghost before = *self;
        match self.find(id) {
            Some(i) => {
                self.entries.set(i, (id, value));
                proof {
                    assert(self.wf());
                    self.lemma_replaced(before, id, value, i as int);
                }
            },
            None => {
                let ghost last = self.entries@.len() as int;
                self.entries.push((id, value));
                proof {
                    assert forall|i: int, j: int| 0 <= i < j < self.entries@.len() implies (
                    #[trigger] self.entries@[i]).0 != (#[trigger] self.entries@[j]).0 by {
                        if j == last {
                            assert(before.entries@[i].0 != id);
                        }
                    }
                    assert(self.wf());
                    self.lemma_replaced(before, id, value, last);
                }
            },
        }
    }

    /// Give up what a name leads to. Returns whether there was anything.
    pub fn remove(&mut self, id: TextureId) -> (removed: bool)
        requires
            old(self).wf(),
        ensures
            final(self).wf(),
            final(self)@ == old(self)@.remove(id),
            removed == old(self)@.dom().contains(id),
    {
        let ghost before = *self;
        match self.find(id) {
            None => {
                assert(self@ =~= before@.remove(id));
                false
            },
            Some(i) => {
                self.entries.remove(i);
                proof {
                    assert forall|a: int|
                        0 <= a < self.entries@.len() implies #[trigger] self.entries@[a]
                        == before.entries@[if a < i {
                        a
                    } else {
                        a + 1
                    }] by {}
                    assert(self.wf());
                    if self.has(id) {
                        let n = self.index_of(id);
                        let m = if n < i {
                            n
                        } else {
                            n + 1
                        };
                        assert(before.entries@[m].0 == id);
                        before.lemma_index(id, m);
                        before.lemma_index(id, i as int);
                    }
                    assert forall|k: TextureId| k != id implies (#[trigger] self@.dom().contains(k)
                        == before@.dom().contains(k)) && (self@.dom().contains(k) ==> self@[k]
                        == before@[k]) by {
                        if before.has(k) {
                            let n = before.index_of(k);
                            let m = if n < i {
                                n
                            } else {
                                n - 1
                            };
                            assert(before.entries@[n].0 == k);
                            assert(self.entries@[m].0 == k);
                            self.lemma_index(k, m);
                        }
                        if self.has(k) {
                            let n = self.index_of(k);
                            let m = if n < i {
                                n
                            } else {
                                n + 1
                            };
                            assert(before.entries@[m].0 == k);
                            before.lemma_index(k, m);
                        }
                    }
                    assert(self@ =~= before@.remove(id));
                }
                true
            },
        }
    }
}

} // verus!
