//! Per-token lookaside tables populated during analysis: the namespace table
//! (filled by an earlier pass) and the MSB table (filled by the MSB/LSB
//! resolver). Both are one keyed table: a vector of unique-keyed entries with
//! a map view, a repeated insert overwriting.

use vstd::prelude::*;
use std::rc::Rc;
use crate::tree::Expression;

verus! {

/// A map from token ids to values, kept as a vector with unique keys.
pub struct KeyedTable<V> {
    entries: Vec<(u64, V)>,
}

impl<V> KeyedTable<V> {
    pub closed spec fn view(&self) -> Map<u64, V> {
        Map::new(
            |id: u64| exists|i: int| 0 <= i < self.entries@.len() && self.entries@[i].0 == id,
            |id: u64|
                self.entries@[choose|i: int|
                    0 <= i < self.entries@.len() && self.entries@[i].0 == id].1,
        )
    }

    pub closed spec fn wf(&self) -> bool {
        forall|i: int, j: int|
            0 <= i < j < self.entries@.len() ==> self.entries@[i].0 != self.entries@[j].0
    }

    pub fn new() -> (t: KeyedTable<V>)
        ensures
            t.wf(),
            t@ == Map::<u64, V>::empty(),
    {
        let t = KeyedTable { entries: Vec::new() };
        assert(t@ =~= Map::<u64, V>::empty());
        t
    }

    /// Store `v` under `id`; a repeated id overwrites.
    pub fn insert(&mut self, id: u64, v: V)
        requires
            old(self).wf(),
        ensures
            final(self).wf(),
            final(self)@ == old(self)@.insert(id, v),
    {
        let n = self.entries.len();
        let mut i: usize = 0;
        while i < n
            invariant
                n == self.entries@.len(),
                i <= n,
                self.wf(),
                self.entries@ == old(self).entries@,
                forall|j: int| 0 <= j < i ==> self.entries@[j].0 != id,
            decreases n - i,
        {
            if self.entries[i].0 == id {
                self.entries[i] = (id, v);
                proof {
                    assert forall|x: u64| #[trigger] final(self)@.dom().contains(x) implies old(self)@.insert(id, v).dom().contains(x) by {
                        let w = choose|w: int|
                            0 <= w < self.entries@.len() && self.entries@[w].0 == x;
                        if x != id {
                            assert(old(self).entries@[w].0 == x);
                        }
                    }
                    assert forall|x: u64| old(self)@.insert(id, v).dom().contains(x) implies #[trigger] final(self)@.dom().contains(x) by {
                        if x == id {
                            assert(self.entries@[i as int].0 == x);
                        } else {
                            let w = choose|w: int|
                                0 <= w < old(self).entries@.len() && old(self).entries@[w].0 == x;
                            assert(self.entries@[w].0 == x);
                        }
                    }
                    assert forall|x: u64| #[trigger] final(self)@.dom().contains(x) implies final(self)@[x] == old(self)@.insert(id, v)[x] by {
                        let w = choose|w: int|
                            0 <= w < self.entries@.len() && self.entries@[w].0 == x;
                        if x == id {
                            assert(w == i) by {
                                if w != i {
                                    assert(old(self).entries@[w].0 == x);
                                }
                            }
                        } else {
                            assert(old(self).entries@[w].0 == x);
                            assert(old(self)@.dom().contains(x));
                            let w2 = choose|w2: int|
                                0 <= w2 < old(self).entries@.len() && old(self).entries@[w2].0 == x;
                            assert(w2 == w) by {
                                if w2 != w {
                                    assert(old(self).entries@[w2].0 == old(self).entries@[w].0);
                                }
                            }
                        }
                    }
                    assert(final(self)@ =~= old(self)@.insert(id, v));
                }
                return;
            }
            i += 1;
        }
        self.entries.push((id, v));
        proof {
            assert forall|x: u64| #[trigger] final(self)@.dom().contains(x) implies old(self)@.insert(id, v).dom().contains(x) by {
                let w = choose|w: int| 0 <= w < self.entries@.len() && self.entries@[w].0 == x;
                if w < self.entries@.len() - 1 {
                    assert(old(self).entries@[w].0 == x);
                }
            }
            assert forall|x: u64| old(self)@.insert(id, v).dom().contains(x) implies #[trigger] final(self)@.dom().contains(x) by {
                if x == id {
                    assert(self.entries@[self.entries@.len() - 1].0 == x);
                } else {
                    let w = choose|w: int|
                        0 <= w < old(self).entries@.len() && old(self).entries@[w].0 == x;
                    assert(self.entries@[w].0 == x);
                }
            }
            assert forall|x: u64| #[trigger] final(self)@.dom().contains(x) implies final(self)@[x]
                == old(self)@.insert(id, v)[x] by {
                let w = choose|w: int| 0 <= w < self.entries@.len() && self.entries@[w].0 == x;
                if x == id {
                    assert(w == self.entries@.len() - 1) by {
                        if w < self.entries@.len() - 1 {
                            assert(old(self).entries@[w].0 == id);
                        }
                    }
                } else {
                    assert(w < self.entries@.len() - 1);
                    assert(old(self)@.dom().contains(x));
                    let w2 = choose|w2: int|
                        0 <= w2 < old(self).entries@.len() && old(self).entries@[w2].0 == x;
                    assert(w2 == w) by {
                        if w2 != w {
                            assert(old(self).entries@[w2].0 == old(self).entries@[w].0);
                        }
                    }
                }
            }
            assert(final(self)@ =~= old(self)@.insert(id, v));
        }
    }

    /// The value recorded for `id`.
    pub fn get(&self, id: u64) -> (r: Option<&V>)
        requires
            self.wf(),
        ensures
            match r {
                Option::Some(v) => self@.dom().contains(id) && *v == self@[id],
                Option::None => !self@.dom().contains(id),
            },
    {
        let n = self.entries.len();
        let mut i: usize = 0;
        while i < n
            invariant
                self.wf(),
                n == self.entries@.len(),
                i <= n,
                forall|j: int| 0 <= j < i ==> self.entries@[j].0 != id,
            decreases n - i,
        {
            if self.entries[i].0 == id {
                proof {
                    assert(self@.dom().contains(id));
                    let w = choose|w: int|
                        0 <= w < self.entries@.len() && self.entries@[w].0 == id;
                    assert(w == i) by {
                        if w < i {
                            assert(self.entries@[w].0 != id);
                        } else if i < w {
                            assert(self.entries@[i as int].0 != self.entries@[w].0);
                        }
                    }
                }
                return Some(&self.entries[i].1);
            }
            i += 1;
        }
        None
    }
}

/// `token id -> namespace`: the scope chain at each identifier token.
pub struct NamespaceTable {
    inner: KeyedTable<Vec<usize>>,
}

impl NamespaceTable {
    /// The recorded namespaces, as id sequences.
    pub closed spec fn view(&self) -> Map<u64, Seq<usize>> {
        Map::new(
            |id: u64| self.inner@.dom().contains(id),
            |id: u64| self.inner@[id]@,
        )
    }

    pub closed spec fn wf(&self) -> bool {
        self.inner.wf()
    }

    pub fn new() -> (t: NamespaceTable)
        ensures
            t.wf(),
            t@ == Map::<u64, Seq<usize>>::empty(),
    {
        let t = NamespaceTable { inner: KeyedTable::new() };
        assert(t@ =~= Map::<u64, Seq<usize>>::empty());
        t
    }

    /// Record the namespace of token `id`; a repeated id overwrites.
    pub fn insert(&mut self, id: u64, ns: Vec<usize>)
        requires
            old(self).wf(),
        ensures
            final(self).wf(),
            final(self)@ == old(self)@.insert(id, ns@),
    {
        self.inner.insert(id, ns);
        proof {
            assert(final(self)@ =~= old(self)@.insert(id, ns@));
        }
    }

    /// The namespace recorded for token `id`.
    pub fn get(&self, id: u64) -> (r: Option<&Vec<usize>>)
        requires
            self.wf(),
        ensures
            match r {
                Option::Some(ns) => self@.dom().contains(id) && ns@ == self@[id],
                Option::None => !self@.dom().contains(id),
            },
    {
        self.inner.get(id)
    }
}

/// `token id -> expression`: for each `msb` keyword resolved during analysis,
/// the upper-bound expression of the selected dimension. A repeated insert
/// for the same token overwrites.
pub struct MsbTable {
    inner: KeyedTable<Rc<Expression>>,
}

impl MsbTable {
    pub closed spec fn view(&self) -> Map<u64, Rc<Expression>> {
        self.inner@
    }

    pub closed spec fn wf(&self) -> bool {
        self.inner.wf()
    }

    pub fn new() -> (t: MsbTable)
        ensures
            t.wf(),
            t@ == Map::<u64, Rc<Expression>>::empty(),
    {
        MsbTable { inner: KeyedTable::new() }
    }

    pub fn insert(&mut self, id: u64, e: Rc<Expression>)
        requires
            old(self).wf(),
        ensures
            final(self).wf(),
            final(self)@ == old(self)@.insert(id, e),
    {
        self.inner.insert(id, e);
    }

    pub fn get(&self, id: u64) -> (r: Option<&Rc<Expression>>)
        requires
            self.wf(),
        ensures
            match r {
                Option::Some(e) => self@.dom().contains(id) && *e == self@[id],
                Option::None => !self@.dom().contains(id),
            },
    {
        self.inner.get(id)
    }
}

} // verus!
