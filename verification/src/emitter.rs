//! The transpiling emitter's aligner: measures tokens at their rendered
//! target-language width - keyword substitutions, identifier prefixes and
//! suffixes, suppressed implicit parameter types - and produces the padding
//! map the emitter inserts before each output token.

use vstd::prelude::*;
use crate::align::{lookup, LocMap, Location};
use crate::engine::{or_zero64, some_kind_records, sum_kinds_capped, NUM_KINDS};
use crate::align::sat64;
use crate::symbol::SymbolTable;
use crate::tables::NamespaceTable;
use crate::tree::Veryl;
use crate::walker::{BuiltinType, Metadata, Walk};

verus! {

pub struct Aligner {
    /// Padding to insert immediately before each rendered location; absent
    /// locations receive none.
    pub additions: LocMap<u64>,
    pub walk: Walk,
}

impl Aligner {
    pub open spec fn wf(&self) -> bool {
        &&& self.additions.wf()
        &&& self.walk.wf()
        &&& self.walk.all_off()
    }

    pub fn new() -> (r: Aligner)
        ensures
            r.wf(),
            r.additions@.len() == 0,
    {
        Aligner { additions: LocMap::new(), walk: Walk::new(true, Vec::new()) }
    }

    /// Take the build options the walk consults.
    pub fn set_metadata(&mut self, metadata: &Metadata)
        requires
            old(self).wf(),
        ensures
            final(self).wf(),
            final(self).additions == old(self).additions,
            final(self).walk.implicit@ == metadata.build.implicit_parameter_types@,
    {
        let n = metadata.build.implicit_parameter_types.len();
        let mut v: Vec<BuiltinType> = Vec::new();
        let mut i: usize = 0;
        while i < n
            invariant
                n == metadata.build.implicit_parameter_types@.len(),
                i <= n,
                v@.len() == i,
                forall|j: int|
                    0 <= j < i ==> v@[j] == metadata.build.implicit_parameter_types@[j],
            decreases n - i,
        {
            v.push(metadata.build.implicit_parameter_types[i]);
            i += 1;
        }
        proof {
            assert(v@ =~= metadata.build.implicit_parameter_types@);
        }
        self.walk.implicit = v;
    }

    /// Walk the tree, then merge every kind's paddings and the direct
    /// insertions into the public map, summing contributions per location.
    pub fn align(&mut self, st: &SymbolTable, nt: &NamespaceTable, input: &Veryl)
        requires
            old(self).wf(),
            st.wf(),
            nt.wf(),
        ensures
            final(self).wf(),
            forall|loc: Location|
                #![trigger lookup(final(self).additions@, loc)]
                or_zero64(lookup(final(self).additions@, loc)) == sat64(
                    sum_kinds_capped(
                        or_zero64(lookup(old(self).additions@, loc)),
                        final(self).walk.set@,
                        NUM_KINDS as int,
                        loc,
                    ),
                    or_zero64(lookup(final(self).walk.inserts@, loc)),
                ),
            forall|loc: Location|
                #![trigger lookup(final(self).additions@, loc)]
                lookup(final(self).additions@, loc) is Some <==> (lookup(
                    old(self).additions@,
                    loc,
                ) is Some || some_kind_records(final(self).walk.set@, NUM_KINDS as int, loc)
                    || lookup(final(self).walk.inserts@, loc) is Some),
            forall|k: int|
                0 <= k < NUM_KINDS ==> (#[trigger] final(self).walk.set@[k]).rest == Seq::<(
                    Location,
                    u32,
                )>::empty(),
            final(self).walk.set.ops() == old(self).walk.set.ops() + crate::walker::ops_veryl(
                crate::walker::env_of(old(self).walk, st@, nt@),
                *input,
            ),
    {
        self.walk.run(st, nt, input);
        self.walk.set.merge_into(&mut self.additions);
        crate::engine::merge_inserts(&mut self.additions, &self.walk.inserts);
    }

    /// The padding recorded for one location.
    pub fn addition_of(&self, loc: &Location) -> (r: Option<u64>)
        requires
            self.wf(),
        ensures
            r == lookup(self.additions@, *loc),
    {
        self.additions.get(loc)
    }
}

} // verus!
