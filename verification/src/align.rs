//! The alignment accumulator: one per alignment kind. Between `start_item`
//! and `finish_item` it measures the characters of one column cell; finished
//! cells of consecutive lines form a group, and `finish_group` turns each
//! group into per-location padding so the cells' ends line up. Widths
//! saturate at the type's maximum, so the engine never fails.

use vstd::prelude::*;
use crate::token::Token;

verus! {

/// A position in the rendered output. Two locations sharing a position but
/// differing in `duplicated` stand for distinct synthetic copies of one
/// source token.
#[derive(Clone, Copy, Debug)]
pub struct Location {
    pub line: u32,
    pub column: u32,
    pub length: u32,
    pub duplicated: Option<usize>,
}

impl Location {
    /// The location of a source token.
    pub fn of_token(t: Token) -> (r: Location)
        ensures
            r == (Location { line: t.line, column: t.column, length: t.length, duplicated: Option::None::<usize> }),
    {
        Location { line: t.line, column: t.column, length: t.length, duplicated: None }
    }
}

/// Exact equality test on locations.
pub fn loc_eq(a: &Location, b: &Location) -> (r: bool)
    ensures
        r == (*a == *b),
{
    let dup_eq = match (a.duplicated, b.duplicated) {
        (Option::Some(x), Option::Some(y)) => x == y,
        (Option::None, Option::None) => true,
        _ => false,
    };
    a.line == b.line && a.column == b.column && a.length == b.length && dup_eq
}

/// `a + b`, stopping at the top of `u32`.
pub open spec fn sat32(a: u32, b: u32) -> u32 {
    if a + b > u32::MAX {
        u32::MAX
    } else {
        (a + b) as u32
    }
}

pub fn add_sat32(a: u32, b: u32) -> (r: u32)
    ensures
        r == sat32(a, b),
{
    if a > u32::MAX - b {
        u32::MAX
    } else {
        a + b
    }
}

/// `a + b`, stopping at the top of `u64`.
pub open spec fn sat64(a: u64, b: u64) -> u64 {
    if a + b > u64::MAX {
        u64::MAX
    } else {
        (a + b) as u64
    }
}

pub fn add_sat64(a: u64, b: u64) -> (r: u64)
    ensures
        r == sat64(a, b),
{
    if a > u64::MAX - b {
        u64::MAX
    } else {
        a + b
    }
}

/// First value stored under `loc`, scanning from the front; unique keys make
/// it the only one.
pub open spec fn lookup<V>(s: Seq<(Location, V)>, loc: Location) -> Option<V>
    decreases s.len(),
{
    if s.len() == 0 {
        Option::None
    } else if s[0].0 == loc {
        Option::Some(s[0].1)
    } else {
        lookup(s.drop_first(), loc)
    }
}

pub open spec fn unique_keys<V>(s: Seq<(Location, V)>) -> bool {
    forall|i: int, j: int| 0 <= i < j < s.len() ==> (#[trigger] s[i]).0 != (#[trigger] s[j]).0
}

proof fn lemma_lookup_props<V>(s: Seq<(Location, V)>, loc: Location)
    ensures
        match lookup(s, loc) {
            Option::Some(v) => exists|i: int| 0 <= i < s.len() && s[i] == (loc, v),
            Option::None => forall|i: int| 0 <= i < s.len() ==> (#[trigger] s[i]).0 != loc,
        },
    decreases s.len(),
{
    if s.len() > 0 {
        lemma_lookup_props(s.drop_first(), loc);
        if s[0].0 != loc {
            match lookup(s.drop_first(), loc) {
                Option::Some(v) => {
                    let i = choose|i: int|
                        0 <= i < s.drop_first().len() && s.drop_first()[i] == (loc, v);
                    assert(s[i + 1] == (loc, v));
                },
                Option::None => {
                    assert forall|i: int| 0 <= i < s.len() implies (#[trigger] s[i]).0 != loc by {
                        if i > 0 {
                            assert(s.drop_first()[i - 1] == s[i]);
                        }
                    }
                },
            }
        }
    }
}

proof fn lemma_lookup_at<V>(s: Seq<(Location, V)>, i: int)
    requires
        0 <= i < s.len(),
        forall|j: int| 0 <= j < i ==> (#[trigger] s[j]).0 != s[i].0,
    ensures
        lookup(s, s[i].0) == Option::Some(s[i].1),
    decreases s.len(),
{
    if i > 0 {
        assert forall|j: int| 0 <= j < i - 1 implies (#[trigger] s.drop_first()[j]).0
            != s.drop_first()[i - 1].0 by {
            assert(s.drop_first()[j] == s[j + 1]);
        }
        lemma_lookup_at(s.drop_first(), i - 1);
    }
}

/// A small map from locations to values, kept as a vector with unique keys.
pub struct LocMap<V> {
    entries: Vec<(Location, V)>,
}

impl<V: Copy> LocMap<V> {
    /// The stored pairs, insertion order kept.
    pub closed spec fn view(&self) -> Seq<(Location, V)> {
        self.entries@
    }

    pub open spec fn wf(&self) -> bool {
        unique_keys(self@)
    }

    /// The value stored under `loc`.
    pub open spec fn spec_get(&self, loc: Location) -> Option<V> {
        lookup(self@, loc)
    }

    pub fn new() -> (r: LocMap<V>)
        ensures
            r.wf(),
            r@.len() == 0,
    {
        LocMap { entries: Vec::new() }
    }

    pub fn len(&self) -> (n: usize)
        ensures
            n == self@.len(),
    {
        self.entries.len()
    }

    pub fn entry_at(&self, i: usize) -> (e: (Location, V))
        requires
            i < self@.len(),
        ensures
            e == self@[i as int],
    {
        self.entries[i]
    }

    pub fn get(&self, loc: &Location) -> (r: Option<V>)
        requires
            self.wf(),
        ensures
            r == self.spec_get(*loc),
    {
        proof {
            lemma_lookup_props(self@, *loc);
        }
        let n = self.entries.len();
        let mut i: usize = 0;
        while i < n
            invariant
                self.wf(),
                n == self@.len(),
                i <= n,
                forall|j: int| 0 <= j < i ==> (#[trigger] self@[j]).0 != *loc,
            decreases n - i,
        {
            if loc_eq(&self.entries[i].0, loc) {
                proof {
                    lemma_lookup_at(self@, i as int);
                }
                return Some(self.entries[i].1);
            }
            i += 1;
        }
        proof {
            lemma_lookup_props(self@, *loc);
            if self.spec_get(*loc) is Some {
                let w = choose|w: int|
                    0 <= w < self@.len() && self@[w] == (*loc, self.spec_get(*loc)->Some_0);
            }
        }
        None
    }

    /// Forget every entry.
    pub fn clear(&mut self)
        ensures
            final(self).wf(),
            final(self)@.len() == 0,
    {
        self.entries.clear();
    }

    /// Store `v` under `loc`, overwriting an earlier value.
    pub fn set_value(&mut self, loc: Location, v: V)
        requires
            old(self).wf(),
        ensures
            final(self).wf(),
            final(self).spec_get(loc) == Option::Some(v),
            forall|l2: Location|
                #![trigger lookup(final(self)@, l2)]
                l2 != loc ==> lookup(final(self)@, l2) == lookup(old(self)@, l2),
    {
        let ghost pre = self@;
        let n = self.entries.len();
        let mut i: usize = 0;
        while i < n
            invariant
                self.wf(),
                self@ == pre,
                pre == old(self)@,
                n == self@.len(),
                i <= n,
                forall|j: int| 0 <= j < i ==> (#[trigger] self@[j]).0 != loc,
            decreases n - i,
        {
            if loc_eq(&self.entries[i].0, &loc) {
                self.entries[i] = (loc, v);
                proof {
                    assert forall|a: int, b: int|
                        0 <= a < b < self@.len() implies (#[trigger] self@[a]).0 != (
                    #[trigger] self@[b]).0 by {
                        if a != i && b != i {
                            assert(self@[a] == pre[a] && self@[b] == pre[b]);
                        } else if a == i {
                            assert(pre[a].0 == loc && self@[b] == pre[b]);
                        } else {
                            assert(pre[b].0 == loc && self@[a] == pre[a]);
                        }
                    }
                    lemma_lookup_at(self@, i as int);
                    assert forall|l2: Location| l2 != loc implies lookup(self@, l2) == lookup(
                        pre,
                        l2,
                    ) by {
                        assert(self@ == pre.update(i as int, (loc, v)));
                        assert forall|w: int|
                            0 <= w < self@.len() && (#[trigger] self@[w]).0 == l2 implies w
                            < pre.len() && self@[w] == pre[w] by {
                            if w == i {
                                assert(self@[w].0 == loc);
                            }
                        }
                        assert forall|w: int|
                            0 <= w < pre.len() && (#[trigger] pre[w]).0 == l2 implies self@[w]
                            == pre[w] by {
                            if w == i {
                                assert(pre[w].0 == loc);
                            }
                        }
                        lemma_lookup_unaffected(pre, self@, l2);
                    }
                    assert(forall|l2: Location|
                        l2 != loc ==> lookup(self@, l2) == lookup(old(self)@, l2));
                }
                return;
            }
            i += 1;
        }
        self.entries.push((loc, v));
        proof {
            assert forall|a: int, b: int|
                0 <= a < b < self@.len() implies (#[trigger] self@[a]).0 != (
            #[trigger] self@[b]).0 by {
                if b < self@.len() - 1 {
                    assert(self@[a] == pre[a] && self@[b] == pre[b]);
                } else {
                    assert(self@[a] == pre[a]);
                }
            }
            lemma_lookup_at(self@, self@.len() - 1);
            assert forall|l2: Location| l2 != loc implies lookup(self@, l2) == lookup(pre, l2) by {
                lemma_lookup_unaffected(pre, self@, l2);
            }
        }
    }
}

/// Two entry lists that agree at every index holding `l2` (one may replace
/// other keys' values or append new keys elsewhere) look the same to `l2`.
proof fn lemma_lookup_unaffected<V>(pre: Seq<(Location, V)>, post: Seq<(Location, V)>, l2: Location)
    requires
        pre.len() <= post.len(),
        forall|i: int|
            0 <= i < post.len() && (#[trigger] post[i]).0 == l2 ==> i < pre.len() && post[i]
                == pre[i],
        forall|i: int|
            0 <= i < pre.len() && (#[trigger] pre[i]).0 == l2 ==> post[i] == pre[i],
    ensures
        lookup(post, l2) == lookup(pre, l2),
{
    lemma_lookup_props(pre, l2);
    lemma_lookup_props(post, l2);
    match lookup(pre, l2) {
        Option::Some(v) => {
            let i = choose|i: int| 0 <= i < pre.len() && pre[i] == (l2, v);
            lemma_lookup_first_match(pre, l2);
            lemma_lookup_first_match(post, l2);
        },
        Option::None => {
            match lookup(post, l2) {
                Option::Some(v2) => {
                    let i = choose|i: int| 0 <= i < post.len() && post[i] == (l2, v2);
                    assert(pre[i].0 == l2);
                    assert(false);
                },
                Option::None => {},
            }
        },
    }
}

/// With `loc` present, `lookup` returns the value at the lowest index that
/// holds `loc`.
proof fn lemma_lookup_first_match<V>(s: Seq<(Location, V)>, loc: Location)
    ensures
        match lookup(s, loc) {
            Option::Some(v) => exists|i: int|
                0 <= i < s.len() && s[i] == (loc, v) && forall|j: int|
                    0 <= j < i ==> (#[trigger] s[j]).0 != loc,
            Option::None => forall|i: int| 0 <= i < s.len() ==> (#[trigger] s[i]).0 != loc,
        },
    decreases s.len(),
{
    if s.len() > 0 {
        lemma_lookup_first_match(s.drop_first(), loc);
        if s[0].0 != loc {
            match lookup(s.drop_first(), loc) {
                Option::Some(v) => {
                    let i = choose|i: int|
                        0 <= i < s.drop_first().len() && s.drop_first()[i] == (loc, v) && forall|
                            j: int,
                        | 0 <= j < i ==> (#[trigger] s.drop_first()[j]).0 != loc;
                    assert(s[i + 1] == (loc, v));
                    assert forall|j: int| 0 <= j < i + 1 implies (#[trigger] s[j]).0 != loc by {
                        if j > 0 {
                            assert(s.drop_first()[j - 1] == s[j]);
                        }
                    }
                },
                Option::None => {
                    assert forall|i: int| 0 <= i < s.len() implies (#[trigger] s[i]).0 != loc by {
                        if i > 0 {
                            assert(s.drop_first()[i - 1] == s[i]);
                        }
                    }
                },
            }
        }
    }
}

/// `max(a, b)` on widths.
pub open spec fn max32(a: u32, b: u32) -> u32 {
    if a > b {
        a
    } else {
        b
    }
}

/// `a - b`, stopping at zero.
pub open spec fn sub32(a: u32, b: u32) -> u32 {
    if b <= a {
        (a - b) as u32
    } else {
        0
    }
}

/// The padding the group gives to `loc`: `max_width` minus the width of the
/// group's last cell anchored at `loc`, if there is one.
pub open spec fn group_pad(rest: Seq<(Location, u32)>, max: u32, loc: Location) -> Option<u32>
    decreases rest.len(),
{
    if rest.len() == 0 {
        Option::None
    } else if rest.last().0 == loc {
        Option::Some(sub32(max, rest.last().1))
    } else {
        group_pad(rest.drop_last(), max, loc)
    }
}

/// Every cell of a finished group is padded to the group's widest cell: for
/// the last cell anchored at a location, padding plus cell width equals
/// `max_width`.
pub proof fn lemma_group_padding(rest: Seq<(Location, u32)>, max: u32, i: int)
    requires
        0 <= i < rest.len(),
        rest[i].1 <= max,
        forall|j: int| i < j < rest.len() ==> (#[trigger] rest[j]).0 != rest[i].0,
    ensures
        group_pad(rest, max, rest[i].0) is Some,
        group_pad(rest, max, rest[i].0)->Some_0 + rest[i].1 == max,
    decreases rest.len(),
{
    if i == rest.len() - 1 {
        assert(rest.last() == rest[i]);
    } else {
        assert(rest.last().0 != rest[i].0);
        let shorter = rest.drop_last();
        assert forall|j: int| i < j < shorter.len() implies (#[trigger] shorter[j]).0
            != shorter[i].0 by {
            assert(shorter[j] == rest[j]);
        }
        assert(rest.drop_last()[i] == rest[i]);
        lemma_group_padding(rest.drop_last(), max, i);
    }
}

pub ghost struct AlignView {
    pub enable: bool,
    pub index: usize,
    pub max_width: u32,
    pub width: u32,
    pub line: u32,
    pub rest: Seq<(Location, u32)>,
    pub additions: Seq<(Location, u32)>,
    pub last_location: Option<Location>,
}

/// The padding recorded for `loc` so far.
pub open spec fn adds_get(v: AlignView, loc: Location) -> Option<u32> {
    lookup(v.additions, loc)
}

/// Whether the next cell at line `l` starts a new group: strictly more than
/// one line past the previous cell.
pub open spec fn group_break(prev: u32, l: u32) -> bool {
    l > prev && l - prev > 1
}

/// Exactly what closing a cell does to the accumulator: the blank-line rule,
/// the running maximum, the buffered cell and the untouched paddings.
pub open spec fn finish_item_post(pre: AlignView, post: AlignView) -> bool {
    &&& post.enable == false
    &&& post.last_location == pre.last_location
    &&& match pre.last_location {
        Option::None => post == (AlignView { enable: false, ..pre }),
        Option::Some(loc) => {
            &&& post.width == 0
            &&& post.line == loc.line
            &&& post.index == (if pre.index < usize::MAX {
                (pre.index + 1) as usize
            } else {
                pre.index
            })
            &&& if group_break(pre.line, loc.line) {
                &&& post.rest == seq![(loc, pre.width)]
                &&& post.max_width == pre.width
                &&& forall|l: Location|
                    #![trigger adds_get(post, l)]
                    adds_get(post, l) == (match group_pad(pre.rest, pre.max_width, l) {
                        Option::Some(p) => Option::Some(p),
                        Option::None => adds_get(pre, l),
                    })
            } else {
                &&& post.rest == pre.rest.push((loc, pre.width))
                &&& post.max_width == max32(pre.max_width, pre.width)
                &&& post.additions == pre.additions
            }
        },
    }
}

/// Exactly what closing a group does: every buffered cell becomes padding at
/// its anchor, the buffer and the maximum reset, the rest of the state stays.
pub open spec fn finish_group_post(pre: AlignView, post: AlignView) -> bool {
    &&& post.rest == Seq::<(Location, u32)>::empty()
    &&& post.max_width == 0
    &&& post.enable == pre.enable
    &&& post.index == pre.index
    &&& post.width == pre.width
    &&& post.line == pre.line
    &&& post.last_location == pre.last_location
    &&& forall|l: Location|
        #![trigger adds_get(post, l)]
        adds_get(post, l) == (match group_pad(pre.rest, pre.max_width, l) {
            Option::Some(p) => Option::Some(p),
            Option::None => adds_get(pre, l),
        })
}

/// One alignment accumulator: measures the cells of one alignment kind and
/// turns each group of cells into padding.
pub struct Align {

    enable: bool,
    index: usize,
    max_width: u32,
    width: u32,
    line: u32,
    rest: Vec<(Location, u32)>,
    additions: LocMap<u32>,
    last_location: Option<Location>,
}

impl View for Align {
    type V = AlignView;

    closed spec fn view(&self) -> AlignView {
        AlignView {
            enable: self.enable,
            index: self.index,
            max_width: self.max_width,
            width: self.width,
            line: self.line,
            rest: self.rest@,
            additions: self.additions@,
            last_location: self.last_location,
        }
    }
}

/// Every buffered cell fits the group's running maximum, and no location
/// holds two paddings.
pub open spec fn align_wf(v: AlignView) -> bool {
    &&& unique_keys(v.additions)
    &&& forall|i: int| 0 <= i < v.rest.len() ==> (#[trigger] v.rest[i]).1 <= v.max_width
}

impl Align {
    pub open spec fn wf(&self) -> bool {
        align_wf(self@)
    }

    pub fn new() -> (r: Align)
        ensures
            r.wf(),
            r@.enable == false,
            r@.index == 0,
            r@.max_width == 0,
            r@.width == 0,
            r@.line == 0,
            r@.rest == Seq::<(Location, u32)>::empty(),
            r@.additions == Seq::<(Location, u32)>::empty(),
            r@.last_location == Option::<Location>::None,
    {
        let r = Align {
            enable: false,
            index: 0,
            max_width: 0,
            width: 0,
            line: 0,
            rest: Vec::new(),
            additions: LocMap::new(),
            last_location: None,
        };
        proof {
            assert(r@.rest =~= Seq::<(Location, u32)>::empty());
            assert(r@.additions =~= Seq::<(Location, u32)>::empty());
        }
        r
    }

    pub fn last_loc(&self) -> (r: Option<Location>)
        ensures
            r == self@.last_location,
    {
        self.last_location
    }

    pub fn is_enabled(&self) -> (r: bool)
        ensures
            r == self@.enable,
    {
        self.enable
    }

    pub fn additions_len(&self) -> (n: usize)
        ensures
            n == self@.additions.len(),
    {
        self.additions.len()
    }

    pub fn addition_at(&self, i: usize) -> (e: (Location, u32))
        requires
            i < self@.additions.len(),
        ensures
            e == self@.additions[i as int],
    {
        self.additions.entry_at(i)
    }

    pub fn get_addition(&self, loc: &Location) -> (r: Option<u32>)
        requires
            self.wf(),
        ensures
            r == adds_get(self@, *loc),
    {
        self.additions.get(loc)
    }

    /// Begin measuring one cell. No cell may already be open: every
    /// `finish_item` is strictly dominated by its own `start_item`.
    pub fn start_item(&mut self)
        requires
            old(self).wf(),
            !old(self)@.enable,
        ensures
            final(self).wf(),
            final(self)@ == (AlignView { enable: true, width: 0u32, ..old(self)@ }),
    {
        self.enable = true;
        self.width = 0;
    }

    /// Count `x.length` output characters for the open cell and anchor the
    /// cell at the token's location.
    pub fn token(&mut self, x: Token)
        requires
            old(self).wf(),
        ensures
            final(self).wf(),
            final(self)@ == spec_token(old(self)@, x.length, (Location {
                line: x.line,
                column: x.column,
                length: x.length,
                duplicated: Option::None::<usize>,
            })),
    {
        let loc = Location::of_token(x);
        self.rendered(x.length, loc);
    }

    /// As `token`, for a token whose rendered spelling has another length or
    /// position.
    pub fn rendered(&mut self, length: u32, loc: Location)
        requires
            old(self).wf(),
        ensures
            final(self).wf(),
            final(self)@ == spec_token(old(self)@, length, loc),
    {
        if self.enable {
            self.width = add_sat32(self.width, length);
            self.last_location = Some(loc);
        }
    }

    /// As `token`, but the cell is anchored at the `i`-th synthetic copy of
    /// the token, which receives its own padding.
    pub fn duplicated_token(&mut self, x: Token, i: usize)
        requires
            old(self).wf(),
        ensures
            final(self).wf(),
            final(self)@ == spec_token(old(self)@, x.length, (Location {
                line: x.line,
                column: x.column,
                length: x.length,
                duplicated: Option::Some(i),
            })),
    {
        let mut loc = Location::of_token(x);
        loc.duplicated = Some(i);
        self.rendered(x.length, loc);
    }

    /// A zero-width placeholder anchored at `loc`: the column still exists
    /// where the syntax is absent.
    pub fn dummy_location(&mut self, loc: Location)
        requires
            old(self).wf(),
        ensures
            final(self).wf(),
            final(self)@ == spec_token(old(self)@, 0, loc),
    {
        self.rendered(0, loc);
    }

    /// A zero-width placeholder anchored at a token.
    pub fn dummy_token(&mut self, x: Token)
        requires
            old(self).wf(),
        ensures
            final(self).wf(),
            final(self)@ == spec_token(old(self)@, 0, (Location {
                line: x.line,
                column: x.column,
                length: x.length,
                duplicated: Option::None::<usize>,
            })),
    {
        let loc = Location::of_token(x);
        self.rendered(0, loc);
    }

    /// Count `x` rendered spaces for the open cell.
    pub fn space(&mut self, x: u32)
        requires
            old(self).wf(),
        ensures
            final(self).wf(),
            final(self)@ == spec_space(old(self)@, x),
    {
        if self.enable {
            self.width = add_sat32(self.width, x);
        }
    }

    /// Close the open cell: a blank line since the previous cell finishes the
    /// group first; the cell then joins the (possibly fresh) group.
    pub fn finish_item(&mut self)
        requires
            old(self).wf(),
            old(self)@.enable,
        ensures
            final(self).wf(),
            finish_item_post(old(self)@, final(self)@),
    {
        self.enable = false;
        let last = self.last_location;
        match last {
            Option::None => {
                proof {
                    assert(self@ == (AlignView { enable: false, ..old(self)@ }));
                }
            },
            Option::Some(loc) => {
                if loc.line > self.line && loc.line - self.line > 1 {
                    self.finish_group();
                }
                let ghost mid = self@;
                if self.width > self.max_width {
                    self.max_width = self.width;
                }
                self.line = loc.line;
                self.rest.push((loc, self.width));
                self.width = 0;
                if self.index < usize::MAX {
                    self.index = self.index + 1;
                }
                proof {
                    let ov = old(self)@;
                    assert(self@.enable == false);
                    assert(self@.width == 0);
                    assert(self@.line == loc.line);
                    if group_break(ov.line, loc.line) {
                        assert(self@.rest =~= seq![(loc, ov.width)]);
                        assert(self@.max_width == ov.width);
                        assert forall|l: Location|
                            #![trigger adds_get(self@, l)]
                            adds_get(self@, l) == (match group_pad(ov.rest, ov.max_width, l) {
                                Option::Some(p) => Option::Some(p),
                                Option::None => adds_get(ov, l),
                            }) by {
                            assert(self@.additions == mid.additions);
                            assert(adds_get(mid, l) == (match group_pad(ov.rest, ov.max_width, l) {
                                Option::Some(p) => Option::Some(p),
                                Option::None => adds_get(ov, l),
                            }));
                        }
                    } else {
                        assert(self@.rest == ov.rest.push((loc, ov.width)));
                        assert(self@.max_width == max32(ov.max_width, ov.width));
                        assert(self@.additions == ov.additions);
                    }
                }
            },
        }
    }

    /// Turn the buffered group into padding: each cell receives the group's
    /// maximum width minus its own, recorded at the cell's anchor location.
    pub fn finish_group(&mut self)
        requires
            old(self).wf(),
        ensures
            final(self).wf(),
            finish_group_post(old(self)@, final(self)@),
    {
        let n = self.rest.len();
        let mut i: usize = 0;
        while i < n
            invariant
                n == self.rest@.len(),
                i <= n,
                self.rest@ == old(self)@.rest,
                self.max_width == old(self)@.max_width,
                self.enable == old(self)@.enable,
                self.index == old(self)@.index,
                self.width == old(self)@.width,
                self.line == old(self)@.line,
                self.last_location == old(self)@.last_location,
                unique_keys(self.additions@),
                forall|j: int|
                    0 <= j < self.rest@.len() ==> (#[trigger] self.rest@[j]).1 <= self.max_width,
                forall|l: Location|
                    #![trigger lookup(self.additions@, l)]
                    lookup(self.additions@, l) == (match group_pad(
                        old(self)@.rest.take(i as int),
                        old(self)@.max_width,
                        l,
                    ) {
                        Option::Some(p) => Option::Some(p),
                        Option::None => adds_get(old(self)@, l),
                    }),
            decreases n - i,
        {
            let e = self.rest[i];
            let pad = self.max_width - e.1;
            let ghost addspre = self.additions@;
            self.additions.set_value(e.0, pad);
            proof {
                let ghost t1 = old(self)@.rest.take(i + 1);
                assert(t1.drop_last() =~= old(self)@.rest.take(i as int));
                assert(t1.last() == old(self)@.rest[i as int]);
                assert forall|l: Location|
                    #![trigger lookup(self.additions@, l)]
                    lookup(self.additions@, l) == (match group_pad(
                        t1,
                        old(self)@.max_width,
                        l,
                    ) {
                        Option::Some(p) => Option::Some(p),
                        Option::None => adds_get(old(self)@, l),
                    }) by {
                    if l == e.0 {
                        assert(lookup(self.additions@, l) == Option::Some(pad));
                        assert(sub32(old(self)@.max_width, e.1) == pad);
                    } else {
                        assert(lookup(self.additions@, l) == lookup(addspre, l));
                    }
                }
            }
            i += 1;
        }
        proof {
            assert(old(self)@.rest.take(n as int) =~= old(self)@.rest);
        }
        self.rest.clear();
        self.max_width = 0;
        proof {
            assert(self@.rest =~= Seq::<(Location, u32)>::empty());
        }
    }
}

/// The accumulator after one token of `length` characters anchored at `loc`:
/// a closed accumulator ignores it.
pub open spec fn spec_token(a: AlignView, length: u32, loc: Location) -> AlignView {
    if a.enable {
        AlignView { width: sat32(a.width, length), last_location: Option::Some(loc), ..a }
    } else {
        a
    }
}

/// The accumulator after `x` spaces: a closed accumulator ignores them.
pub open spec fn spec_space(a: AlignView, x: u32) -> AlignView {
    if a.enable {
        AlignView { width: sat32(a.width, x), ..a }
    } else {
        a
    }
}

} // verus!
