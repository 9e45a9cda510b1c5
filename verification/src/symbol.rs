//! Symbol records and the symbol table: scoped paths under namespaces mapped
//! to typed symbol records, with scope-chain resolution.

use vstd::prelude::*;
use std::rc::Rc;
use crate::token::Token;
use crate::tree::{Expression, FixedKind, VariableKind};

verus! {

/// A scoped name paired with the namespace it is looked up from.
pub struct SymbolPathNamespace {
    pub path: Vec<usize>,
    pub namespace: Vec<usize>,
}

/// What a declared type is made of. Dimensions are shared expression trees.
pub enum TypeKind {
    Variable(VariableKind),
    Fixed(FixedKind),
    UserDefined(Vec<usize>),
}

/// A declared type: its kind, outer array dimensions (outermost first) and
/// packed bit-width dimensions (outermost first).
pub struct Type {
    pub kind: TypeKind,
    pub array: Vec<Rc<Expression>>,
    pub width: Vec<Rc<Expression>>,
}

pub ghost enum TypeKindView {
    Variable(VariableKind),
    Fixed(FixedKind),
    UserDefined(Seq<usize>),
}

pub ghost struct TypeView {
    pub kind: TypeKindView,
    pub array: Seq<Rc<Expression>>,
    pub width: Seq<Rc<Expression>>,
}

impl View for Type {
    type V = TypeView;

    open spec fn view(&self) -> TypeView {
        TypeView {
            kind: match self.kind {
                TypeKind::Variable(k) => TypeKindView::Variable(k),
                TypeKind::Fixed(k) => TypeKindView::Fixed(k),
                TypeKind::UserDefined(p) => TypeKindView::UserDefined(p@),
            },
            array: self.array@,
            width: self.width@,
        }
    }
}

pub enum SymbolKind {
    Variable { ty: Type, prefix: Option<String>, suffix: Option<String> },
    Port { ty: Option<Type>, prefix: Option<String>, suffix: Option<String> },
    TypeDef { ty: Type },
    Module,
    Interface,
    Package,
    Enum,
    Struct,
    Union,
    Modport,
}

/// One symbol record: its kind, the namespace it was declared in, and its
/// declaration token.
pub struct Symbol {
    pub kind: SymbolKind,
    pub namespace: Vec<usize>,
    pub token: Token,
}

pub struct SymbolEntry {
    pub path: Vec<usize>,
    pub symbol: Symbol,
}

/// The table of all symbols of one compilation, keyed by `(path, namespace)`.
pub struct SymbolTable {
    entries: Vec<SymbolEntry>,
}

/// Whether `e` is stored under exactly the key `(path, ns)`.
pub open spec fn entry_matches(e: SymbolEntry, path: Seq<usize>, ns: Seq<usize>) -> bool {
    e.path@ == path && e.symbol.namespace@ == ns
}

/// The lowest index in `entries` holding the key `(path, ns)`, if any.
pub open spec fn find_entry(entries: Seq<SymbolEntry>, path: Seq<usize>, ns: Seq<usize>) -> Option<
    int,
>
    decreases entries.len(),
{
    if entries.len() == 0 {
        Option::None
    } else if entry_matches(entries[0], path, ns) {
        Option::Some(0)
    } else {
        match find_entry(entries.drop_first(), path, ns) {
            Option::Some(i) => Option::Some(i + 1),
            Option::None => Option::None,
        }
    }
}

/// Scope-chain lookup: try the innermost `k` namespace components first,
/// then shorter and shorter prefixes down to the empty namespace.
pub open spec fn resolve_from(
    entries: Seq<SymbolEntry>,
    path: Seq<usize>,
    ns: Seq<usize>,
    k: nat,
) -> Option<int>
    decreases k,
{
    match find_entry(entries, path, ns.take(k as int)) {
        Option::Some(i) => Option::Some(i),
        Option::None => if k == 0 {
            Option::None
        } else {
            resolve_from(entries, path, ns, (k - 1) as nat)
        },
    }
}

pub open spec fn spec_resolve(entries: Seq<SymbolEntry>, path: Seq<usize>, ns: Seq<usize>) -> Option<
    int,
> {
    resolve_from(entries, path, ns, ns.len())
}

proof fn lemma_find_entry_props(entries: Seq<SymbolEntry>, path: Seq<usize>, ns: Seq<usize>)
    ensures
        match find_entry(entries, path, ns) {
            Option::Some(i) => 0 <= i < entries.len() && entry_matches(entries[i], path, ns)
                && forall|j: int| 0 <= j < i ==> !entry_matches(entries[j], path, ns),
            Option::None => forall|j: int|
                0 <= j < entries.len() ==> !entry_matches(entries[j], path, ns),
        },
    decreases entries.len(),
{
    if entries.len() > 0 {
        lemma_find_entry_props(entries.drop_first(), path, ns);
        assert forall|j: int| 1 <= j < entries.len() implies entries.drop_first()[j - 1]
            == entries[j] by {}
    }
}

proof fn lemma_find_entry_first(entries: Seq<SymbolEntry>, path: Seq<usize>, ns: Seq<usize>, i: int)
    requires
        0 <= i < entries.len(),
        entry_matches(entries[i], path, ns),
        forall|j: int| 0 <= j < i ==> !entry_matches(entries[j], path, ns),
    ensures
        find_entry(entries, path, ns) == Option::Some(i),
    decreases entries.len(),
{
    if i > 0 {
        lemma_find_entry_first(entries.drop_first(), path, ns, i - 1);
    }
}

proof fn lemma_find_entry_none(entries: Seq<SymbolEntry>, path: Seq<usize>, ns: Seq<usize>)
    requires
        forall|j: int| 0 <= j < entries.len() ==> !entry_matches(entries[j], path, ns),
    ensures
        find_entry(entries, path, ns) is None,
    decreases entries.len(),
{
    if entries.len() > 0 {
        lemma_find_entry_none(entries.drop_first(), path, ns);
    }
}

/// Exact element-wise equality of two id vectors.
pub fn ids_eq(a: &Vec<usize>, b: &Vec<usize>) -> (r: bool)
    ensures
        r == (a@ == b@),
{
    if a.len() != b.len() {
        assert(a@ != b@);
        return false;
    }
    let n = a.len();
    let mut i: usize = 0;
    while i < n
        invariant
            n == a@.len() == b@.len(),
            i <= n,
            forall|j: int| 0 <= j < i ==> a@[j] == b@[j],
        decreases n - i,
    {
        if a[i] != b[i] {
            return false;
        }
        i += 1;
    }
    assert(a@ =~= b@);
    true
}

/// Whether `a` equals the first `k` components of `b`.
fn ids_eq_prefix(a: &Vec<usize>, b: &Vec<usize>, k: usize) -> (r: bool)
    requires
        k <= b@.len(),
    ensures
        r == (a@ == b@.take(k as int)),
{
    if a.len() != k {
        assert(a@ != b@.take(k as int));
        return false;
    }
    let mut i: usize = 0;
    while i < k
        invariant
            k <= b@.len(),
            a@.len() == k,
            i <= k,
            forall|j: int| 0 <= j < i ==> a@[j] == b@[j],
        decreases k - i,
    {
        if a[i] != b[i] {
            assert(a@[i as int] != b@.take(k as int)[i as int]);
            return false;
        }
        i += 1;
    }
    assert(a@ =~= b@.take(k as int));
    true
}

impl SymbolTable {
    pub closed spec fn view(&self) -> Seq<SymbolEntry> {
        self.entries@
    }

    /// Every `(path, namespace)` key holds at most one symbol.
    pub open spec fn wf(&self) -> bool {
        forall|i: int, j: int|
            0 <= i < j < self@.len() ==> !entry_matches(
                self@[j],
                self@[i].path@,
                self@[i].symbol.namespace@,
            )
    }

    pub fn new() -> (t: SymbolTable)
        ensures
            t.wf(),
            t@.len() == 0,
    {
        SymbolTable { entries: Vec::new() }
    }

    pub fn len(&self) -> (n: usize)
        ensures
            n == self@.len(),
    {
        self.entries.len()
    }

    pub fn entry_at(&self, i: usize) -> (e: &SymbolEntry)
        requires
            i < self@.len(),
        ensures
            *e == self@[i as int],
    {
        &self.entries[i]
    }

    fn find(&self, path: &Vec<usize>, ns: &Vec<usize>) -> (r: Option<usize>)
        ensures
            match r {
                Option::Some(i) => find_entry(self@, path@, ns@) == Option::Some(i as int),
                Option::None => find_entry(self@, path@, ns@) is None,
            },
    {
        proof {
            lemma_find_entry_props(self@, path@, ns@);
        }
        let n = self.entries.len();
        let mut i: usize = 0;
        while i < n
            invariant
                n == self@.len(),
                i <= n,
                forall|j: int| 0 <= j < i ==> !entry_matches(self@[j], path@, ns@),
            decreases n - i,
        {
            let e = &self.entries[i];
            if ids_eq(&e.path, path) && ids_eq(&e.symbol.namespace, ns) {
                proof {
                    lemma_find_entry_first(self@, path@, ns@, i as int);
                }
                return Some(i);
            }
            i += 1;
        }
        proof {
            lemma_find_entry_none(self@, path@, ns@);
        }
        None
    }

    /// Record a symbol under `(path, symbol.namespace)`. Inserting a key that
    /// is already present leaves the table unchanged and returns `false`, so
    /// repeated inserts are idempotent and records are stable.
    pub fn insert(&mut self, path: Vec<usize>, symbol: Symbol) -> (r: bool)
        requires
            old(self).wf(),
        ensures
            final(self).wf(),
            r == find_entry(old(self)@, path@, symbol.namespace@) is None,
            r ==> final(self)@ == old(self)@.push(SymbolEntry { path, symbol }),
            !r ==> final(self)@ == old(self)@,
    {
        proof {
            lemma_find_entry_props(self@, path@, symbol.namespace@);
        }
        if self.find(&path, &symbol.namespace).is_some() {
            return false;
        }
        let ghost pre = self@;
        self.entries.push(SymbolEntry { path, symbol });
        assert forall|i: int, j: int| 0 <= i < j < self@.len() implies !entry_matches(
            self@[j],
            self@[i].path@,
            self@[i].symbol.namespace@,
        ) by {
            if j < self@.len() - 1 {
                assert(self@[i] == pre[i] && self@[j] == pre[j]);
            } else {
                assert(self@[i] == pre[i]);
            }
        }
        true
    }

    /// Scope-chain lookup of `path` from namespace `ns`: the innermost
    /// enclosing scope that holds the path wins.
    pub fn resolve(&self, path: &Vec<usize>, ns: &Vec<usize>) -> (r: Option<&Symbol>)
        ensures
            match r {
                Option::Some(s) => {
                    &&& spec_resolve(self@, path@, ns@) is Some
                    &&& *s == self@[spec_resolve(self@, path@, ns@)->Some_0].symbol
                },
                Option::None => spec_resolve(self@, path@, ns@) is None,
            },
    {
        match self.resolve_index(path, ns) {
            Option::Some(i) => Some(&self.entries[i].symbol),
            Option::None => None,
        }
    }

    /// As `resolve`, but returns the index of the winning entry.
    pub fn resolve_index(&self, path: &Vec<usize>, ns: &Vec<usize>) -> (r: Option<usize>)
        ensures
            match r {
                Option::Some(i) => i < self@.len() && spec_resolve(self@, path@, ns@)
                    == Option::Some(i as int),
                Option::None => spec_resolve(self@, path@, ns@) is None,
            },
    {
        let mut k = ns.len();
        loop
            invariant
                k <= ns@.len(),
                spec_resolve(self@, path@, ns@) == resolve_from(self@, path@, ns@, k as nat),
            decreases k,
        {
            proof {
                lemma_find_entry_props(self@, path@, ns@.take(k as int));
            }
            // linear scan for the key (path, ns[..k])
            let n = self.entries.len();
            let mut i: usize = 0;
            while i < n
                invariant
                    k <= ns@.len(),
                    n == self@.len(),
                    i <= n,
                    spec_resolve(self@, path@, ns@) == resolve_from(self@, path@, ns@, k as nat),
                    forall|j: int|
                        0 <= j < i ==> !entry_matches(self@[j], path@, ns@.take(k as int)),
                decreases n - i,
            {
                let e = &self.entries[i];
                if ids_eq(&e.path, path) && ids_eq_prefix(&e.symbol.namespace, ns, k) {
                    proof {
                        lemma_find_entry_first(self@, path@, ns@.take(k as int), i as int);
                    }
                    return Some(i);
                }
                i += 1;
            }
            proof {
                lemma_find_entry_none(self@, path@, ns@.take(k as int));
            }
            if k == 0 {
                return None;
            }
            k -= 1;
        }
    }
}

} // verus!
