//! The compiler's table of defined names, each with the index of its slot.
use vstd::prelude::*;
use crate::intern::interner::Symbol;

verus! {

#[derive(Debug, Clone, Copy, PartialEq, Eq, Structural)]
pub enum SymbolScope {
    GlobalScope,
}

/// A defined name, its scope and its slot.
#[derive(Debug, Clone, Copy, PartialEq, Eq, Structural)]
pub struct SymbolEntry {
    pub name: Symbol,
    pub scope: SymbolScope,
    pub index: usize,
}

/// The entries by name, and how many definitions were made.
pub struct SymbolTable {
    store: Vec<SymbolEntry>,
    num_definitions: usize,
}

/// The entry stored for `n`, if any.
pub open spec fn entry_of(es: Seq<SymbolEntry>, n: Symbol) -> Option<SymbolEntry>
    decreases es.len(),
{
    if es.len() == 0 {
        None
    } else if es.last().name == n {
        Some(es.last())
    } else {
        entry_of(es.drop_last(), n)
    }
}

/// The position of the entry for `n`, or -1.
pub open spec fn entry_pos(es: Seq<SymbolEntry>, n: Symbol) -> int
    decreases es.len(),
{
    if es.len() == 0 {
        -1
    } else if es.last().name == n {
        es.len() - 1
    } else {
        entry_pos(es.drop_last(), n)
    }
}

/// The entries with the entry of `e.name` replaced by `e`, or `e` added.
pub open spec fn entry_put(es: Seq<SymbolEntry>, e: SymbolEntry) -> Seq<SymbolEntry> {
    let i = entry_pos(es, e.name);
    if i >= 0 { es.update(i, e) } else { es.push(e) }
}

proof fn lemma_entry_pos(es: Seq<SymbolEntry>, n: Symbol)
    ensures
        -1 <= entry_pos(es, n) < es.len(),
        entry_pos(es, n) >= 0 ==> es[entry_pos(es, n)].name == n && entry_of(es, n) == Some(es[entry_pos(es, n)]),
        entry_pos(es, n) >= 0 ==> forall|j: int| entry_pos(es, n) < j < es.len() ==> es[j].name != n,
        entry_pos(es, n) < 0 ==> entry_of(es, n) is None && forall|j: int| 0 <= j < es.len() ==> es[j].name != n,
    decreases es.len(),
{
    if es.len() > 0 && es.last().name != n {
        let d = es.drop_last();
        lemma_entry_pos(d, n);
        assert forall|j: int| 0 <= j < d.len() implies #[trigger] es[j] == d[j] by {}
        assert(es[es.len() - 1].name != n);
    }
}

proof fn lemma_entry_of_unique(es: Seq<SymbolEntry>, n: Symbol, i: int)
    requires
        0 <= i < es.len(),
        es[i].name == n,
        forall|j: int| i < j < es.len() ==> es[j].name != n,
    ensures
        entry_of(es, n) == Some(es[i]),
    decreases es.len(),
{
    if i < es.len() - 1 {
        lemma_entry_of_unique(es.drop_last(), n, i);
    }
}

/// After storing `e`, looking up its name gives `e`; other names are unaffected.
pub proof fn law_entry_put(es: Seq<SymbolEntry>, e: SymbolEntry, m: Symbol)
    ensures
        entry_of(entry_put(es, e), e.name) == Some(e),
        m != e.name ==> entry_of(entry_put(es, e), m) == entry_of(es, m),
{
    lemma_entry_pos(es, e.name);
    lemma_entry_pos(es, m);
    let es2 = entry_put(es, e);
    let i = entry_pos(es, e.name);
    if i >= 0 {
        lemma_entry_of_unique(es2, e.name, i);
    } else {
        lemma_entry_of_unique(es2, e.name, es.len() as int);
    }
    if m != e.name {
        lemma_entry_pos(es2, m);
        let k = entry_pos(es, m);
        if k >= 0 {
            lemma_entry_of_unique(es2, m, k);
        } else {
            assert forall|j: int| 0 <= j < es2.len() implies es2[j].name != m by {
                if j < es.len() { assert(es2[j] == es[j] || es2[j] == e); }
            }
            if entry_pos(es2, m) >= 0 {
                assert(es2[entry_pos(es2, m)].name == m);
            }
        }
    }
}

impl SymbolTable {
    pub closed spec fn entries(&self) -> Seq<SymbolEntry> {
        self.store@
    }

    pub closed spec fn count(&self) -> nat {
        self.num_definitions as nat
    }

    pub fn new() -> (r: SymbolTable)
        ensures
            r.entries() == Seq::<SymbolEntry>::empty(),
            r.count() == 0,
    {
        SymbolTable { store: Vec::new(), num_definitions: 0 }
    }

    fn position(&self, name: Symbol) -> (r: Option<usize>)
        ensures
            match r {
                Some(i) => i < self.entries().len() && entry_pos(self.entries(), name) == i,
                None => entry_pos(self.entries(), name) == -1,
            },
    {
        let mut i = self.store.len();
        assert(self.store@.subrange(0, i as int) =~= self.store@);
        while i > 0
            invariant
                i <= self.store@.len(),
                entry_pos(self.store@, name) == entry_pos(self.store@.subrange(0, i as int), name),
            decreases i,
        {
            assert(self.store@.subrange(0, i as int).drop_last() =~= self.store@.subrange(0, i - 1));
            if self.store[i - 1].name == name {
                return Some(i - 1);
            }
            i -= 1;
        }
        None
    }

    /// Defines `name` in the next slot; a name defined again gets the new slot.
    pub fn define(&mut self, name: &Symbol) -> (r: SymbolEntry)
        requires
            old(self).count() < usize::MAX,
        ensures
            r == (SymbolEntry { name: *name, scope: SymbolScope::GlobalScope, index: old(self).count() as usize }),
            final(self).entries() == entry_put(old(self).entries(), r),
            final(self).count() == old(self).count() + 1,
    {
        let symbol = SymbolEntry { name: *name, index: self.num_definitions, scope: SymbolScope::GlobalScope };
        match self.position(*name) {
            Some(i) => { self.store.set(i, symbol); },
            None => { self.store.push(symbol); },
        }
        self.num_definitions += 1;
        symbol
    }

    /// The entry of `name`, if it was defined.
    pub fn resolve(&self, name: &Symbol) -> (r: Option<SymbolEntry>)
        ensures
            r == entry_of(self.entries(), *name),
    {
        proof { lemma_entry_pos(self.entries(), *name); }
        match self.position(*name) {
            Some(i) => Some(self.store[i]),
            None => None,
        }
    }
}

} // verus!
