//! String interner: a bijection between spellings and stable integer ids.
//!
//! An id is the index of the spelling in the table, so ids are dense and
//! assigned in insertion order. The table never holds the same spelling twice.

use vstd::prelude::*;

verus! {

/// The spelling a table of interned names renders for `id`: the stored
/// spelling, or the placeholder for an id the table never assigned.
pub open spec fn spec_name_of(names: Seq<Seq<char>>, id: usize) -> Seq<char> {
    if id < names.len() {
        names[id as int]
    } else {
        "<unknown StrId>"@
    }
}

pub struct StrTable {
    names: Vec<String>,
}

impl StrTable {
    /// The sequence of interned spellings, in id order.
    pub closed spec fn view(&self) -> Seq<Seq<char>> {
        self.names@.map(|_i: int, s: String| s@)
    }

    /// No spelling appears under two ids.
    pub open spec fn wf(&self) -> bool {
        forall|i: int, j: int|
            0 <= i < j < self@.len() ==> self@[i] != self@[j]
    }

    pub open spec fn contains_str(&self, s: Seq<char>) -> bool {
        exists|i: int| 0 <= i < self@.len() && self@[i] == s
    }

    pub fn new() -> (t: StrTable)
        ensures
            t.wf(),
            t@.len() == 0,
    {
        let t = StrTable { names: Vec::new() };
        assert(t@ =~= Seq::<Seq<char>>::empty());
        t
    }

    pub fn len(&self) -> (n: usize)
        ensures
            n == self@.len(),
    {
        self.names.len()
    }

    /// Returns the id of `s`, adding it to the table if it is new.
    pub fn intern(&mut self, s: String) -> (id: usize)
        requires
            old(self).wf(),
        ensures
            final(self).wf(),
            id < final(self)@.len(),
            final(self)@[id as int] == s@,
            old(self)@.len() <= final(self)@.len(),
            forall|i: int| 0 <= i < old(self)@.len() ==> final(self)@[i] == old(self)@[i],
            old(self).contains_str(s@) ==> final(self)@ == old(self)@,
            !old(self).contains_str(s@) ==> final(self)@ == old(self)@.push(s@),
    {
        let n = self.names.len();
        let mut i: usize = 0;
        while i < n
            invariant
                n == self@.len(),
                i <= n,
                self@ == old(self)@,
                self.wf(),
                forall|j: int| 0 <= j < i ==> self@[j] != s@,
            decreases n - i,
        {
            if self.names[i] == s {
                assert(self@[i as int] == s@);
                return i;
            }
            i += 1;
        }
        assert(!self.contains_str(s@));
        self.names.push(s);
        assert(self@ =~= old(self)@.push(s@));
        assert forall|a: int, b: int| 0 <= a < b < self@.len() implies self@[a] != self@[b] by {
            if b < self@.len() - 1 {
                assert(self@[a] == old(self)@[a] && self@[b] == old(self)@[b]);
            }
        }
        n
    }

    /// The spelling interned under `id`, if `id` was ever handed out.
    pub fn get(&self, id: usize) -> (r: Option<&String>)
        ensures
            match r {
                Option::Some(s) => id < self@.len() && s@ == self@[id as int],
                Option::None => id >= self@.len(),
            },
    {
        if id < self.names.len() {
            Some(&self.names[id])
        } else {
            None
        }
    }

    /// The spelling interned under `id`, or a placeholder for an id this
    /// table never assigned.
    pub fn get_or_unknown(&self, id: usize) -> (r: String)
        ensures
            r@ == spec_name_of(self@, id),
    {
        if id < self.names.len() {
            self.names[id].clone()
        } else {
            let r: String = "<unknown StrId>".to_owned();
            r
        }
    }
}

} // verus!
