//! The source formatter's aligner: measures tokens verbatim, adds the
//! clock-domain column, and produces the padding map the formatter inserts
//! before each source token.

use vstd::prelude::*;
use crate::align::{lookup, sat64, LocMap, Location};
use crate::engine::{or_zero64, some_kind_records, sum_kinds_capped, NUM_KINDS};
use crate::symbol::SymbolTable;
use crate::tables::NamespaceTable;
use crate::tree::Veryl;
use crate::walker::Walk;

verus! {

pub struct Aligner {
    /// Padding to insert immediately before each source location; absent
    /// locations receive none.
    pub additions: LocMap<u64>,
    pub walk: Walk,
}

impl Aligner {
    pub open spec fn wf(&self) -> bool {
        &&& self.additions.wf()
        &&& self.walk.wf()
        &&& self.walk.all_off()
    }

    pub fn new() -> (r: Aligner)
        ensures
            r.wf(),
            r.additions@.len() == 0,
    {
        Aligner { additions: LocMap::new(), walk: Walk::new(false, Vec::new()) }
    }

    /// Walk the tree, then merge every kind's paddings and the direct
    /// insertions into the public map, summing contributions per location.
    pub fn align(&mut self, st: &SymbolTable, nt: &NamespaceTable, input: &Veryl)
        requires
            old(self).wf(),
            st.wf(),
            nt.wf(),
        ensures
            final(self).wf(),
            forall|loc: Location|
                #![trigger lookup(final(self).additions@, loc)]
                or_zero64(lookup(final(self).additions@, loc)) == sat64(
                    sum_kinds_capped(
                        or_zero64(lookup(old(self).additions@, loc)),
                        final(self).walk.set@,
                        NUM_KINDS as int,
                        loc,
                    ),
                    or_zero64(lookup(final(self).walk.inserts@, loc)),
                ),
            forall|loc: Location|
                #![trigger lookup(final(self).additions@, loc)]
                lookup(final(self).additions@, loc) is Some <==> (lookup(
                    old(self).additions@,
                    loc,
                ) is Some || some_kind_records(final(self).walk.set@, NUM_KINDS as int, loc)
                    || lookup(final(self).walk.inserts@, loc) is Some),
            forall|k: int|
                0 <= k < NUM_KINDS ==> (#[trigger] final(self).walk.set@[k]).rest == Seq::<(
                    Location,
                    u32,
                )>::empty(),
            final(self).walk.set.ops() == old(self).walk.set.ops() + crate::walker::ops_veryl(
                crate::walker::env_of(old(self).walk, st@, nt@),
                *input,
            ),
    {
        self.walk.run(st, nt, input);
        self.walk.set.merge_into(&mut self.additions);
        crate::engine::merge_inserts(&mut self.additions, &self.walk.inserts);
    }

    /// The padding recorded for one location.
    pub fn addition_of(&self, loc: &Location) -> (r: Option<u64>)
        requires
            self.wf(),
        ensures
            r == lookup(self.additions@, *loc),
    {
        self.additions.get(loc)
    }
}

} // verus!
