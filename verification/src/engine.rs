//! The alignment engine shared by the emitter and the formatter: one
//! accumulator per alignment kind, walked over the tree, and the merge of all
//! per-kind paddings into one map. A location may receive padding from
//! several kinds; the final padding is their sum.

use vstd::prelude::*;
use crate::align::{
    adds_get, align_wf, finish_group_post, finish_item_post, lookup, sat64, spec_space,
    spec_token, unique_keys, Align, AlignView, LocMap, Location,
};
use crate::token::Token;

verus! {

pub const KIND_IDENTIFIER: usize = 0;

pub const KIND_TYPE: usize = 1;

pub const KIND_EXPRESSION: usize = 2;

pub const KIND_WIDTH: usize = 3;

pub const KIND_ARRAY: usize = 4;

pub const KIND_ASSIGNMENT: usize = 5;

pub const KIND_PARAMETER: usize = 6;

pub const KIND_DIRECTION: usize = 7;

pub const KIND_CLOCK_DOMAIN: usize = 8;

pub const NUM_KINDS: usize = 9;

/// The per-kind accumulators of one engine.
/// One cell operation of the engine, as a walk records it: which kind a cell
/// opens or closes for, what every open cell measures, and where placeholders
/// anchor. A walk's contract states its whole operation stream.
pub ghost enum MeasureOp {
    /// `start_item` of one kind.
    Start(usize),
    /// `finish_item` of one kind.
    Finish(usize),
    /// A rendered token: every open cell measures the width, anchored at the
    /// location.
    Tok(u32, Location),
    /// Rendered spaces: every open cell grows by the count.
    Gap(u32),
    /// A zero-width placeholder for one kind, anchored at a fixed location.
    DummyAt(usize, Location),
    /// A zero-width placeholder for one kind, anchored at another kind's most
    /// recent anchor (skipped when that kind has none yet).
    DummyFrom(usize, usize),
    /// A synthetic copy measured by one kind's cell, keyed `duplicated`.
    Dup(usize, u32, Location),
    /// `start_item`/`finish_item` of one kind, only when no cell of that kind
    /// is already open at the `GuardStart`.
    GuardStart(usize),
    GuardFinish(usize),
    /// A direct padding insertion, outside any kind.
    Pad(Location, u64),
    /// `finish_group` of every kind.
    GroupAll,
}

pub struct AlignSet {
    aligns: Vec<Align>,
    trace: Ghost<Seq<MeasureOp>>,
}

impl AlignSet {
    pub closed spec fn view(&self) -> Seq<AlignView> {
        self.aligns@.map(|_i: int, a: Align| a@)
    }

    /// Every cell operation performed so far, in order.
    pub closed spec fn ops(&self) -> Seq<MeasureOp> {
        self.trace@
    }

    pub open spec fn wf(&self) -> bool {
        &&& self@.len() == NUM_KINDS
        &&& forall|k: int| 0 <= k < self@.len() ==> align_wf(#[trigger] self@[k])
    }

    /// Which accumulators are measuring a cell.
    pub open spec fn enables(&self) -> Seq<bool> {
        self@.map(|_i: int, a: AlignView| a.enable)
    }

    /// No accumulator has an open cell.
    pub open spec fn all_off(&self) -> bool {
        forall|k: int| 0 <= k < self.enables().len() ==> !self.enables()[k]
    }

    pub fn new() -> (r: AlignSet)
        ensures
            r.wf(),
            r.all_off(),
            r.ops() == Seq::<MeasureOp>::empty(),
    {
        let mut aligns: Vec<Align> = Vec::new();
        let mut i: usize = 0;
        while i < NUM_KINDS
            invariant
                i <= NUM_KINDS,
                aligns@.len() == i,
                forall|k: int|
                    0 <= k < i ==> (#[trigger] aligns@[k])@.enable == false && align_wf(
                        aligns@[k]@,
                    ),
            decreases NUM_KINDS - i,
        {
            let a = Align::new();
            aligns.push(a);
            i += 1;
        }
        let r = AlignSet { aligns, trace: Ghost(Seq::empty()) };
        proof {
            assert forall|k: int| 0 <= k < r.enables().len() implies !r.enables()[k] by {
                assert(r@[k] == r.aligns@[k]@);
            }
        }
        r
    }

    /// Begin a cell of kind `k`; no cell of that kind may be open.
    pub fn start_item(&mut self, k: usize)
        requires
            old(self).wf(),
            k < NUM_KINDS,
            !old(self).enables()[k as int],
        ensures
            final(self).wf(),
            final(self).enables() == old(self).enables().update(k as int, true),
            forall|j: int|
                0 <= j < NUM_KINDS && j != k ==> final(self)@[j] == old(self)@[j],
            final(self)@[k as int] == (AlignView { enable: true, width: 0u32, ..old(self)@[k as int] }),
            final(self).ops() == old(self).ops().push(MeasureOp::Start(k)),
    {
        proof {
            assert(old(self)@[k as int] == old(self).aligns@[k as int]@);
        }
        let a = &mut self.aligns[k];
        a.start_item();
        self.trace = Ghost(self.trace@.push(MeasureOp::Start(k)));
        proof {
            assert(self@ =~= old(self)@.update(k as int, self.aligns@[k as int]@));
            assert(final(self).enables() =~= old(self).enables().update(k as int, true));
        }
    }

    /// Close the open cell of kind `k`.
    pub fn finish_item(&mut self, k: usize)
        requires
            old(self).wf(),
            k < NUM_KINDS,
            old(self).enables()[k as int],
        ensures
            final(self).wf(),
            final(self).enables() == old(self).enables().update(k as int, false),
            forall|j: int|
                0 <= j < NUM_KINDS && j != k ==> final(self)@[j] == old(self)@[j],
            finish_item_post(old(self)@[k as int], final(self)@[k as int]),
            final(self).ops() == old(self).ops().push(MeasureOp::Finish(k)),
    {
        proof {
            assert(old(self)@[k as int] == old(self).aligns@[k as int]@);
        }
        let a = &mut self.aligns[k];
        a.finish_item();
        self.trace = Ghost(self.trace@.push(MeasureOp::Finish(k)));
        proof {
            assert(self@ =~= old(self)@.update(k as int, self.aligns@[k as int]@));
            assert(final(self).enables() =~= old(self).enables().update(k as int, false));
        }
    }

    /// Feed a rendered token of `length` characters at `loc` to every
    /// accumulator; only open cells measure it.
    pub fn rendered_all(&mut self, length: u32, loc: Location)
        requires
            old(self).wf(),
        ensures
            final(self).wf(),
            final(self).enables() == old(self).enables(),
            forall|k: int|
                0 <= k < NUM_KINDS ==> final(self)@[k] == spec_token(
                    old(self)@[k],
                    length,
                    loc,
                ),
            final(self).ops() == old(self).ops().push(MeasureOp::Tok(length, loc)),
    {
        self.trace = Ghost(self.trace@.push(MeasureOp::Tok(length, loc)));
        let mut i: usize = 0;
        while i < NUM_KINDS
            invariant
                self@.len() == NUM_KINDS,
                i <= NUM_KINDS,
                self.wf(),
                self.ops() == old(self).ops().push(MeasureOp::Tok(length, loc)),
                self.enables() =~= old(self).enables(),
                forall|k: int| 0 <= k < i ==> self@[k] == spec_token(old(self)@[k], length, loc),
                forall|k: int| i <= k < NUM_KINDS ==> self@[k] == old(self)@[k],
            decreases NUM_KINDS - i,
        {
            proof {
                assert(self@[i as int] == self.aligns@[i as int]@);
            }
            let ghost pre = self.enables();
            let ghost vpre = self@;
            let a = &mut self.aligns[i];
            a.rendered(length, loc);
            proof {
                assert(self@ =~= vpre.update(i as int, self.aligns@[i as int]@));
                assert(self.enables() =~= pre);
            }
            i += 1;
        }
        proof {
            assert(final(self).enables() =~= old(self).enables());
        }
    }

    /// Feed a source token to every accumulator.
    pub fn token_all(&mut self, t: Token)
        requires
            old(self).wf(),
        ensures
            final(self).wf(),
            final(self).enables() == old(self).enables(),
            forall|k: int|
                0 <= k < NUM_KINDS ==> final(self)@[k] == spec_token(
                    old(self)@[k],
                    t.length,
                    (Location {
                        line: t.line,
                        column: t.column,
                        length: t.length,
                        duplicated: Option::None::<usize>,
                    }),
                ),
            final(self).ops() == old(self).ops().push(
                MeasureOp::Tok(
                    t.length,
                    (Location {
                        line: t.line,
                        column: t.column,
                        length: t.length,
                        duplicated: Option::None::<usize>,
                    }),
                ),
            ),
    {
        let loc = Location::of_token(t);
        self.rendered_all(t.length, loc);
    }

    /// Feed `n` rendered spaces to every accumulator.
    pub fn space_all(&mut self, n: u32)
        requires
            old(self).wf(),
        ensures
            final(self).wf(),
            final(self).enables() == old(self).enables(),
            forall|k: int| 0 <= k < NUM_KINDS ==> final(self)@[k] == spec_space(old(self)@[k], n),
            final(self).ops() == old(self).ops().push(MeasureOp::Gap(n)),
    {
        self.trace = Ghost(self.trace@.push(MeasureOp::Gap(n)));
        let mut i: usize = 0;
        while i < NUM_KINDS
            invariant
                self@.len() == NUM_KINDS,
                i <= NUM_KINDS,
                self.wf(),
                self.ops() == old(self).ops().push(MeasureOp::Gap(n)),
                self.enables() =~= old(self).enables(),
                forall|k: int| 0 <= k < i ==> self@[k] == spec_space(old(self)@[k], n),
                forall|k: int| i <= k < NUM_KINDS ==> self@[k] == old(self)@[k],
            decreases NUM_KINDS - i,
        {
            proof {
                assert(self@[i as int] == self.aligns@[i as int]@);
            }
            let ghost pre = self.enables();
            let ghost vpre = self@;
            let a = &mut self.aligns[i];
            a.space(n);
            proof {
                assert(self@ =~= vpre.update(i as int, self.aligns@[i as int]@));
                assert(self.enables() =~= pre);
            }
            i += 1;
        }
        proof {
            assert(final(self).enables() =~= old(self).enables());
        }
    }

    /// Anchor the open cell of kind `k` at `loc` without adding width.
    pub fn dummy_at(&mut self, k: usize, loc: Location)
        requires
            old(self).wf(),
            k < NUM_KINDS,
        ensures
            final(self).wf(),
            final(self).enables() == old(self).enables(),
            final(self)@[k as int] == spec_token(old(self)@[k as int], 0, loc),
            forall|j: int|
                0 <= j < NUM_KINDS && j != k ==> final(self)@[j] == old(self)@[j],
            final(self).ops() == old(self).ops().push(MeasureOp::DummyAt(k, loc)),
    {
        proof {
            assert(old(self)@[k as int] == old(self).aligns@[k as int]@);
        }
        let a = &mut self.aligns[k];
        a.dummy_location(loc);
        self.trace = Ghost(self.trace@.push(MeasureOp::DummyAt(k, loc)));
        proof {
            assert(self@ =~= old(self)@.update(k as int, self.aligns@[k as int]@));
            assert(final(self).enables() =~= old(self).enables());
        }
    }

    /// Anchor the open cell of kind `k` at a token, without width.
    pub fn dummy_token_at(&mut self, k: usize, t: Token)
        requires
            old(self).wf(),
            k < NUM_KINDS,
        ensures
            final(self).wf(),
            final(self).enables() == old(self).enables(),
            final(self)@[k as int] == spec_token(
                old(self)@[k as int],
                0,
                (Location {
                    line: t.line,
                    column: t.column,
                    length: t.length,
                    duplicated: Option::None::<usize>,
                }),
            ),
            forall|j: int|
                0 <= j < NUM_KINDS && j != k ==> final(self)@[j] == old(self)@[j],
            final(self).ops() == old(self).ops().push(
                MeasureOp::DummyAt(
                    k,
                    (Location {
                        line: t.line,
                        column: t.column,
                        length: t.length,
                        duplicated: Option::None::<usize>,
                    }),
                ),
            ),
    {
        self.dummy_at(k, Location::of_token(t));
    }

    /// Feed the `i`-th synthetic copy of a token to the cell of kind `k`.
    pub fn duplicated_at(&mut self, k: usize, t: Token, i: usize)
        requires
            old(self).wf(),
            k < NUM_KINDS,
        ensures
            final(self).wf(),
            final(self).enables() == old(self).enables(),
            final(self)@[k as int] == spec_token(
                old(self)@[k as int],
                t.length,
                (Location {
                    line: t.line,
                    column: t.column,
                    length: t.length,
                    duplicated: Option::Some(i),
                }),
            ),
            forall|j: int|
                0 <= j < NUM_KINDS && j != k ==> final(self)@[j] == old(self)@[j],
            final(self).ops() == old(self).ops().push(
                MeasureOp::Dup(
                    k,
                    t.length,
                    (Location {
                        line: t.line,
                        column: t.column,
                        length: t.length,
                        duplicated: Option::Some(i),
                    }),
                ),
            ),
    {
        proof {
            assert(old(self)@[k as int] == old(self).aligns@[k as int]@);
        }
        let a = &mut self.aligns[k];
        a.duplicated_token(t, i);
        self.trace = Ghost(
            self.trace@.push(
                MeasureOp::Dup(
                    k,
                    t.length,
                    Location {
                        line: t.line,
                        column: t.column,
                        length: t.length,
                        duplicated: Option::Some(i),
                    },
                ),
            ),
        );
        proof {
            assert(self@ =~= old(self)@.update(k as int, self.aligns@[k as int]@));
            assert(final(self).enables() =~= old(self).enables());
        }
    }

    /// A zero-width placeholder for kind `k`, anchored at the most recent
    /// anchor of kind `src`; with no such anchor yet, nothing is measured.
    pub fn dummy_from(&mut self, k: usize, src: usize)
        requires
            old(self).wf(),
            k < NUM_KINDS,
            src < NUM_KINDS,
        ensures
            final(self).wf(),
            final(self).enables() == old(self).enables(),
            match old(self)@[src as int].last_location {
                Option::Some(l) => final(self)@[k as int] == spec_token(
                    old(self)@[k as int],
                    0,
                    l,
                ) && forall|j: int|
                    0 <= j < NUM_KINDS && j != k ==> final(self)@[j] == old(self)@[j],
                Option::None => final(self)@ == old(self)@,
            },
            final(self).ops() == old(self).ops().push(MeasureOp::DummyFrom(k, src)),
    {
        let anchor = self.last_loc_of(src);
        match anchor {
            Option::Some(l) => {
                proof {
                    assert(old(self)@[k as int] == old(self).aligns@[k as int]@);
                }
                let a = &mut self.aligns[k];
                a.dummy_location(l);
                proof {
                    assert(self@ =~= old(self)@.update(k as int, self.aligns@[k as int]@));
                    assert(self.enables() =~= old(self).enables());
                }
            },
            Option::None => {},
        }
        self.trace = Ghost(self.trace@.push(MeasureOp::DummyFrom(k, src)));
    }

    /// Begin a cell of kind `k` only when no cell of that kind is open:
    /// returns whether this call opened one, so the matching `guard_finish`
    /// closes exactly what it opened.
    pub fn guard_start(&mut self, k: usize) -> (armed: bool)
        requires
            old(self).wf(),
            k < NUM_KINDS,
        ensures
            final(self).wf(),
            armed == !old(self).enables()[k as int],
            armed ==> final(self).enables() == old(self).enables().update(k as int, true)
                && final(self)@[k as int] == (AlignView {
                enable: true,
                width: 0u32,
                ..old(self)@[k as int]
            }) && forall|j: int|
                0 <= j < NUM_KINDS && j != k ==> final(self)@[j] == old(self)@[j],
            !armed ==> final(self)@ == old(self)@,
            final(self).ops() == old(self).ops().push(MeasureOp::GuardStart(k)),
    {
        let armed = !self.enabled(k);
        if armed {
            proof {
                assert(old(self)@[k as int] == old(self).aligns@[k as int]@);
            }
            let a = &mut self.aligns[k];
            a.start_item();
            proof {
                assert(self@ =~= old(self)@.update(k as int, self.aligns@[k as int]@));
                assert(self.enables() =~= old(self).enables().update(k as int, true));
            }
        }
        self.trace = Ghost(self.trace@.push(MeasureOp::GuardStart(k)));
        armed
    }

    /// Close the cell the matching `guard_start` opened, if it opened one.
    pub fn guard_finish(&mut self, k: usize, armed: bool)
        requires
            old(self).wf(),
            k < NUM_KINDS,
            armed ==> old(self).enables()[k as int],
        ensures
            final(self).wf(),
            armed ==> final(self).enables() == old(self).enables().update(k as int, false)
                && finish_item_post(old(self)@[k as int], final(self)@[k as int]) && forall|j: int|
                0 <= j < NUM_KINDS && j != k ==> final(self)@[j] == old(self)@[j],
            !armed ==> final(self)@ == old(self)@,
            final(self).ops() == old(self).ops().push(MeasureOp::GuardFinish(k)),
    {
        if armed {
            proof {
                assert(old(self)@[k as int] == old(self).aligns@[k as int]@);
            }
            let a = &mut self.aligns[k];
            a.finish_item();
            proof {
                assert(self@ =~= old(self)@.update(k as int, self.aligns@[k as int]@));
                assert(self.enables() =~= old(self).enables().update(k as int, false));
            }
        }
        self.trace = Ghost(self.trace@.push(MeasureOp::GuardFinish(k)));
    }

    /// Record a direct padding insertion in the operation stream; the
    /// accumulators are untouched.
    pub fn note_pad(&mut self, loc: Location, n: u64)
        requires
            old(self).wf(),
        ensures
            final(self).wf(),
            final(self)@ == old(self)@,
            final(self).enables() == old(self).enables(),
            final(self).ops() == old(self).ops().push(MeasureOp::Pad(loc, n)),
    {
        self.trace = Ghost(self.trace@.push(MeasureOp::Pad(loc, n)));
    }

    /// The anchor of the most recent cell of kind `k`.
    pub fn last_loc_of(&self, k: usize) -> (r: Option<Location>)
        requires
            self.wf(),
            k < NUM_KINDS,
        ensures
            r == self@[k as int].last_location,
    {
        proof {
            assert(self@[k as int] == self.aligns@[k as int]@);
        }
        self.aligns[k].last_loc()
    }

    /// Whether kind `k` is measuring a cell.
    pub fn enabled(&self, k: usize) -> (r: bool)
        requires
            self.wf(),
            k < NUM_KINDS,
        ensures
            r == self.enables()[k as int],
    {
        proof {
            assert(self@[k as int] == self.aligns@[k as int]@);
        }
        self.aligns[k].is_enabled()
    }

    /// Close the current group of every kind.
    pub fn finish_group_all(&mut self)
        requires
            old(self).wf(),
        ensures
            final(self).wf(),
            final(self).enables() == old(self).enables(),
            forall|k: int|
                0 <= k < NUM_KINDS ==> finish_group_post(old(self)@[k], #[trigger] final(self)@[k]),
            final(self).ops() == old(self).ops().push(MeasureOp::GroupAll),
    {
        self.trace = Ghost(self.trace@.push(MeasureOp::GroupAll));
        let mut i: usize = 0;
        while i < NUM_KINDS
            invariant
                self@.len() == NUM_KINDS,
                i <= NUM_KINDS,
                self.wf(),
                self.ops() == old(self).ops().push(MeasureOp::GroupAll),
                self.enables() =~= old(self).enables(),
                forall|k: int| 0 <= k < i ==> finish_group_post(old(self)@[k], #[trigger] self@[k]),
                forall|k: int| i <= k < NUM_KINDS ==> self@[k] == old(self)@[k],
            decreases NUM_KINDS - i,
        {
            proof {
                assert(self@[i as int] == self.aligns@[i as int]@);
            }
            let ghost pre = self.enables();
            let ghost vpre = self@;
            let a = &mut self.aligns[i];
            a.finish_group();
            proof {
                assert(self@ =~= vpre.update(i as int, self.aligns@[i as int]@));
                assert(self.enables() =~= pre);
            }
            i += 1;
        }
        proof {
            assert(final(self).enables() =~= old(self).enables());
        }
    }

    /// The padding kind `k` recorded for `loc`.
    pub fn addition_of(&self, k: usize, loc: &Location) -> (r: Option<u32>)
        requires
            self.wf(),
            k < NUM_KINDS,
        ensures
            r == adds_get(self@[k as int], *loc),
    {
        proof {
            assert(self@[k as int] == self.aligns@[k as int]@);
        }
        self.aligns[k].get_addition(loc)
    }

    /// Merge every kind's paddings into `total`, summing contributions at
    /// identical locations. A location becomes a key exactly when it was one
    /// already or some kind recorded padding for it.
    pub fn merge_into(&self, total: &mut LocMap<u64>)
        requires
            self.wf(),
            old(total).wf(),
        ensures
            final(total).wf(),
            forall|loc: Location|
                #![trigger lookup(final(total)@, loc)]
                or_zero64(lookup(final(total)@, loc)) == sum_kinds_capped(
                    or_zero64(lookup(old(total)@, loc)),
                    self@,
                    self@.len() as int,
                    loc,
                ),
            forall|loc: Location|
                #![trigger lookup(final(total)@, loc)]
                lookup(final(total)@, loc) is Some <==> (lookup(old(total)@, loc) is Some
                    || some_kind_records(self@, self@.len() as int, loc)),
    {
        let mut k: usize = 0;
        while k < NUM_KINDS
            invariant
                self.wf(),
                total.wf(),
                k <= NUM_KINDS,
                forall|loc: Location|
                    #![trigger lookup(total@, loc)]
                    or_zero64(lookup(total@, loc)) == sum_kinds_capped(
                        or_zero64(lookup(old(total)@, loc)),
                        self@,
                        k as int,
                        loc,
                    ),
                forall|loc: Location|
                    #![trigger lookup(total@, loc)]
                    lookup(total@, loc) is Some <==> (lookup(old(total)@, loc) is Some
                        || some_kind_records(self@, k as int, loc)),
            decreases NUM_KINDS - k,
        {
            proof {
                assert(self.aligns@[k as int]@ == self@[k as int]);
            }
            merge_one(total, &self.aligns[k]);
            k += 1;
        }
    }
}

/// A padding value, absent meaning zero.
pub open spec fn or_zero32(v: Option<u32>) -> u64 {
    match v {
        Option::Some(x) => x as u64,
        Option::None => 0,
    }
}

pub open spec fn or_zero64(v: Option<u64>) -> u64 {
    match v {
        Option::Some(x) => x,
        Option::None => 0,
    }
}

/// Whether one of the first `k` kinds recorded padding for `loc`.
pub open spec fn some_kind_records(aligns: Seq<AlignView>, k: int, loc: Location) -> bool
    decreases k,
{
    if k <= 0 {
        false
    } else {
        some_kind_records(aligns, k - 1, loc) || adds_get(aligns[k - 1], loc) is Some
    }
}

/// The total padding at `loc` after merging the first `k` kinds onto a base
/// value, each addition saturating.
pub open spec fn sum_kinds_capped(base: u64, aligns: Seq<AlignView>, k: int, loc: Location) -> u64
    decreases k,
{
    if k <= 0 {
        base
    } else {
        sat64(
            sum_kinds_capped(base, aligns, k - 1, loc),
            or_zero32(adds_get(aligns[k - 1], loc)),
        )
    }
}

/// Add one kind's paddings into the running total.
fn merge_one(total: &mut LocMap<u64>, a: &Align)
    requires
        old(total).wf(),
        a.wf(),
    ensures
        final(total).wf(),
        forall|loc: Location|
            #![trigger lookup(final(total)@, loc)]
            or_zero64(lookup(final(total)@, loc)) == sat64(
                or_zero64(lookup(old(total)@, loc)),
                or_zero32(adds_get(a@, loc)),
            ),
        forall|loc: Location|
            #![trigger lookup(final(total)@, loc)]
            lookup(final(total)@, loc) is Some <==> (lookup(old(total)@, loc) is Some || adds_get(
                a@,
                loc,
            ) is Some),
{
    let n = a.additions_len();
    let mut i: usize = 0;
    while i < n
        invariant
            a.wf(),
            total.wf(),
            n == a@.additions.len(),
            i <= n,
            forall|loc: Location|
                #![trigger lookup(total@, loc)]
                or_zero64(lookup(total@, loc)) == sat64(
                    or_zero64(lookup(old(total)@, loc)),
                    or_zero32(lookup_prefix(a@.additions, i as int, loc)),
                ),
            forall|loc: Location|
                #![trigger lookup(total@, loc)]
                lookup(total@, loc) is Some <==> (lookup(old(total)@, loc) is Some || lookup_prefix(
                    a@.additions,
                    i as int,
                    loc,
                ) is Some),
        decreases n - i,
    {
        let e = a.addition_at(i);
        let base = match total.get(&e.0) {
            Option::Some(v) => v,
            Option::None => 0,
        };
        let v2 = crate::align::add_sat64(base, e.1 as u64);
        total.set_value(e.0, v2);
        proof {
            lemma_lookup_prefix_step(a@.additions, i as int);
            assert forall|loc: Location|
                #![trigger lookup(total@, loc)]
                or_zero64(lookup(total@, loc)) == sat64(
                    or_zero64(lookup(old(total)@, loc)),
                    or_zero32(lookup_prefix(a@.additions, i + 1, loc)),
                ) && (lookup(total@, loc) is Some <==> (lookup(old(total)@, loc) is Some
                || lookup_prefix(a@.additions, i + 1, loc) is Some)) by {
                if loc == e.0 {
                    assert(lookup_prefix(a@.additions, i as int, loc) is None) by {
                        lemma_lookup_prefix_unique(a@.additions, i as int, loc);
                    }
                    assert(lookup_prefix(a@.additions, i + 1, loc) == Option::Some(e.1));
                } else {
                    assert(lookup_prefix(a@.additions, i + 1, loc) == lookup_prefix(
                        a@.additions,
                        i as int,
                        loc,
                    ));
                }
            }
        }
        i += 1;
    }
    proof {
        assert forall|loc: Location|
            #![trigger lookup(final(total)@, loc)]
            or_zero64(lookup(final(total)@, loc)) == sat64(
                or_zero64(lookup(old(total)@, loc)),
                or_zero32(adds_get(a@, loc)),
            ) && (lookup(final(total)@, loc) is Some <==> (lookup(old(total)@, loc) is Some
            || adds_get(a@, loc) is Some)) by {
            lemma_lookup_prefix_full(a@.additions, loc);
        }
    }
}

/// Lookup among the first `i` entries only.
pub open spec fn lookup_prefix<V>(s: Seq<(Location, V)>, i: int, loc: Location) -> Option<V>
    decreases i,
{
    if i <= 0 || i > s.len() {
        Option::None
    } else if s[i - 1].0 == loc {
        Option::Some(s[i - 1].1)
    } else {
        lookup_prefix(s, i - 1, loc)
    }
}

proof fn lemma_lookup_prefix_step<V>(s: Seq<(Location, V)>, i: int)
    requires
        0 <= i < s.len(),
    ensures
        lookup_prefix(s, i + 1, s[i].0) == Option::Some(s[i].1),
        forall|loc: Location|
            loc != s[i].0 ==> lookup_prefix(s, i + 1, loc) == lookup_prefix(s, i, loc),
{
}

proof fn lemma_lookup_prefix_unique<V>(s: Seq<(Location, V)>, i: int, loc: Location)
    requires
        unique_keys(s),
        0 <= i < s.len(),
        s[i].0 == loc,
    ensures
        lookup_prefix(s, i, loc) is None,
    decreases i,
{
    if i > 0 {
        assert(s[i - 1].0 != loc);
        lemma_lookup_prefix_unique_inner(s, i - 1, i, loc);
    }
}

proof fn lemma_lookup_prefix_unique_inner<V>(s: Seq<(Location, V)>, j: int, i: int, loc: Location)
    requires
        unique_keys(s),
        0 <= j < i < s.len(),
        s[i].0 == loc,
    ensures
        lookup_prefix(s, j + 1, loc) is None,
    decreases j,
{
    assert(s[j].0 != loc);
    if j > 0 {
        lemma_lookup_prefix_unique_inner(s, j - 1, i, loc);
    } else {
        assert(lookup_prefix(s, 0, loc) is None);
    }
}

/// The full-prefix lookup agrees with the front-first lookup when keys are
/// unique.
proof fn lemma_lookup_prefix_full<V>(s: Seq<(Location, V)>, loc: Location)
    requires
        unique_keys(s),
    ensures
        lookup_prefix(s, s.len() as int, loc) == lookup(s, loc),
    decreases s.len(),
{
    if s.len() > 0 {
        let n = s.len() as int;
        if s[n - 1].0 == loc {
            lemma_lookup_prefix_unique(s, n - 1, loc);
            lemma_lookup_last_unique(s, loc);
        } else {
            let t = s.drop_last();
            assert(unique_keys(t)) by {
                assert forall|a: int, b: int| 0 <= a < b < t.len() implies (#[trigger] t[a]).0 != (
                #[trigger] t[b]).0 by {
                    assert(t[a] == s[a] && t[b] == s[b]);
                }
            }
            lemma_lookup_prefix_full(t, loc);
            assert(lookup_prefix(s, n - 1, loc) == lookup_prefix(t, n - 1, loc)) by {
                lemma_lookup_prefix_shrink(s, n - 1, loc);
            }
            assert(lookup(s, loc) == lookup(t, loc)) by {
                lemma_lookup_drop_last(s, loc);
            }
        }
    }
}

/// With unique keys, a key at the last slot is found there by `lookup`.
proof fn lemma_lookup_last_unique<V>(s: Seq<(Location, V)>, loc: Location)
    requires
        unique_keys(s),
        s.len() > 0,
        s.last().0 == loc,
    ensures
        lookup(s, loc) == Option::Some(s.last().1),
    decreases s.len(),
{
    if s.len() == 1 {
    } else {
        assert(s[0].0 != loc);
        let t = s.drop_first();
        assert(unique_keys(t)) by {
            assert forall|a: int, b: int| 0 <= a < b < t.len() implies (#[trigger] t[a]).0 != (
            #[trigger] t[b]).0 by {
                assert(t[a] == s[a + 1] && t[b] == s[b + 1]);
            }
        }
        assert(t.last() == s.last());
        lemma_lookup_last_unique(t, loc);
    }
}

/// Prefix lookups ignore entries past the prefix.
proof fn lemma_lookup_prefix_shrink<V>(s: Seq<(Location, V)>, i: int, loc: Location)
    requires
        0 <= i < s.len(),
    ensures
        lookup_prefix(s, i, loc) == lookup_prefix(s.drop_last(), i, loc),
    decreases i,
{
    if i > 0 {
        assert(s.drop_last()[i - 1] == s[i - 1]);
        lemma_lookup_prefix_shrink(s, i - 1, loc);
    }
}

/// A key absent from the last slot is looked up in the rest.
proof fn lemma_lookup_drop_last<V>(s: Seq<(Location, V)>, loc: Location)
    requires
        s.len() > 0,
        s.last().0 != loc,
    ensures
        lookup(s, loc) == lookup(s.drop_last(), loc),
    decreases s.len(),
{
    if s.len() == 1 {
    } else {
        let t = s.drop_last();
        assert(t.len() == s.len() - 1);
        assert(t[0] == s[0]);
        if s[0].0 == loc {
            assert(lookup(s, loc) == Option::Some(s[0].1));
            assert(lookup(t, loc) == Option::Some(t[0].1));
        } else {
            assert(t.drop_first() =~= s.drop_first().drop_last());
            assert(s.drop_first().last() == s.last());
            lemma_lookup_drop_last(s.drop_first(), loc);
            assert(lookup(s, loc) == lookup(s.drop_first(), loc));
            assert(lookup(t, loc) == lookup(t.drop_first(), loc));
        }
    }
}

/// Add directly inserted paddings into the running total.
pub fn merge_inserts(total: &mut LocMap<u64>, src: &LocMap<u64>)
    requires
        old(total).wf(),
        src.wf(),
    ensures
        final(total).wf(),
        forall|loc: Location|
            #![trigger lookup(final(total)@, loc)]
            or_zero64(lookup(final(total)@, loc)) == sat64(
                or_zero64(lookup(old(total)@, loc)),
                or_zero64(lookup(src@, loc)),
            ),
        forall|loc: Location|
            #![trigger lookup(final(total)@, loc)]
            lookup(final(total)@, loc) is Some <==> (lookup(old(total)@, loc) is Some || lookup(
                src@,
                loc,
            ) is Some),
{
    let n = src.len();
    let mut i: usize = 0;
    while i < n
        invariant
            src.wf(),
            total.wf(),
            n == src@.len(),
            i <= n,
            forall|loc: Location|
                #![trigger lookup(total@, loc)]
                or_zero64(lookup(total@, loc)) == sat64(
                    or_zero64(lookup(old(total)@, loc)),
                    or_zero64(lookup_prefix(src@, i as int, loc)),
                ),
            forall|loc: Location|
                #![trigger lookup(total@, loc)]
                lookup(total@, loc) is Some <==> (lookup(old(total)@, loc) is Some || lookup_prefix(
                    src@,
                    i as int,
                    loc,
                ) is Some),
        decreases n - i,
    {
        let e = src.entry_at(i);
        let base = match total.get(&e.0) {
            Option::Some(v) => v,
            Option::None => 0,
        };
        let v2 = crate::align::add_sat64(base, e.1);
        total.set_value(e.0, v2);
        proof {
            lemma_lookup_prefix_step(src@, i as int);
            assert forall|loc: Location|
                #![trigger lookup(total@, loc)]
                or_zero64(lookup(total@, loc)) == sat64(
                    or_zero64(lookup(old(total)@, loc)),
                    or_zero64(lookup_prefix(src@, i + 1, loc)),
                ) && (lookup(total@, loc) is Some <==> (lookup(old(total)@, loc) is Some
                || lookup_prefix(src@, i + 1, loc) is Some)) by {
                if loc == e.0 {
                    assert(lookup_prefix(src@, i as int, loc) is None) by {
                        lemma_lookup_prefix_unique(src@, i as int, loc);
                    }
                    assert(lookup_prefix(src@, i + 1, loc) == Option::Some(e.1));
                } else {
                    assert(lookup_prefix(src@, i + 1, loc) == lookup_prefix(
                        src@,
                        i as int,
                        loc,
                    ));
                }
            }
        }
        i += 1;
    }
    proof {
        assert forall|loc: Location|
            #![trigger lookup(final(total)@, loc)]
            or_zero64(lookup(final(total)@, loc)) == sat64(
                or_zero64(lookup(old(total)@, loc)),
                or_zero64(lookup(src@, loc)),
            ) && (lookup(final(total)@, loc) is Some <==> (lookup(old(total)@, loc) is Some
            || lookup(src@, loc) is Some)) by {
            lemma_lookup_prefix_full(src@, loc);
        }
    }
}

/// The exact per-kind sum at `loc`.
pub open spec fn sum_adds(aligns: Seq<AlignView>, k: int, loc: Location) -> int
    decreases k,
{
    if k <= 0 {
        0
    } else {
        sum_adds(aligns, k - 1, loc) + or_zero32(adds_get(aligns[k - 1], loc))
    }
}

/// The merged padding at a location is the sum of every kind's padding
/// there, on top of the base value, whenever that sum fits the counter.
pub proof fn lemma_padding_sum(base: u64, aligns: Seq<AlignView>, k: int, loc: Location)
    requires
        0 <= k,
        base + sum_adds(aligns, k, loc) <= u64::MAX,
    ensures
        sum_kinds_capped(base, aligns, k, loc) == base + sum_adds(aligns, k, loc),
    decreases k,
{
    if k > 0 {
        lemma_sum_adds_nonneg(aligns, k - 1, loc);
        lemma_padding_sum(base, aligns, k - 1, loc);
    }
}

proof fn lemma_sum_adds_nonneg(aligns: Seq<AlignView>, k: int, loc: Location)
    ensures
        sum_adds(aligns, k, loc) >= 0,
    decreases k,
{
    if k > 0 {
        lemma_sum_adds_nonneg(aligns, k - 1, loc);
    }
}

} // verus!
