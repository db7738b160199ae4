//! String interning: identifiers are stored once and referred to by `Symbol`.
use vstd::prelude::*;
use vstd::string::StringExecFns;

verus! {

/// A handle to an interned name: its index in the interner.
#[derive(Clone, Copy, PartialEq, Eq, Structural, Debug, Hash, PartialOrd, Ord)]
pub struct Symbol(pub u32);

/// The table of interned names.
#[derive(Debug)]
pub struct Interner {
    names: Vec<String>,
}

/// Index of the first occurrence of `v` in `s`, or `-1`.
pub open spec fn first_index(s: Seq<Seq<char>>, v: Seq<char>) -> int
    decreases s.len(),
{
    if s.len() == 0 {
        -1
    } else if s[0] == v {
        0
    } else {
        let r = first_index(s.drop_first(), v);
        if r < 0 { -1 } else { r + 1 }
    }
}

/// The names after interning `v`, and the symbol handed out for it.
pub open spec fn spec_intern(names: Seq<Seq<char>>, v: Seq<char>) -> (Seq<Seq<char>>, Symbol) {
    let i = first_index(names, v);
    if i >= 0 {
        (names, Symbol(i as u32))
    } else {
        (names.push(v), Symbol(names.len() as u32))
    }
}

/// The name of `n`, or the empty text for a symbol that was never handed out.
pub open spec fn spec_name(names: Seq<Seq<char>>, n: Symbol) -> Seq<char> {
    if (n.0 as int) < names.len() {
        names[n.0 as int]
    } else {
        Seq::empty()
    }
}

pub proof fn lemma_first_index(s: Seq<Seq<char>>, v: Seq<char>)
    ensures
        -1 <= first_index(s, v) < s.len(),
        first_index(s, v) >= 0 ==> s[first_index(s, v)] == v,
        first_index(s, v) >= 0 ==> forall|j: int| 0 <= j < first_index(s, v) ==> s[j] != v,
        first_index(s, v) < 0 ==> forall|j: int| 0 <= j < s.len() ==> s[j] != v,
    decreases s.len(),
{
    if s.len() > 0 && s[0] != v {
        lemma_first_index(s.drop_first(), v);
        assert forall|j: int| 1 <= j < s.len() implies s[j] == s.drop_first()[j - 1] by {}
    }
}

impl Interner {
    /// The interned names, in the order they were first seen.
    pub closed spec fn view(&self) -> Seq<Seq<char>> {
        self.names@.map_values(|s: String| s@)
    }

    pub fn new() -> (r: Self)
        ensures
            r@ == Seq::<Seq<char>>::empty(),
    {
        let r = Interner { names: Vec::new() };
        assert(r@ =~= Seq::<Seq<char>>::empty());
        r
    }

    /// Number of interned names.
    pub fn len(&self) -> (r: usize)
        ensures
            r == self@.len(),
    {
        self.names.len()
    }

    /// Returns the symbol of `val`, adding it to the table when it is new.
    pub fn intern(&mut self, val: &str) -> (r: Symbol)
        ensures
            (final(self)@, r) == spec_intern(old(self)@, val@),
    {
        let v = String::from_str(val);
        let mut i: usize = 0;
        while i < self.names.len()
            invariant
                i <= self.names.len(),
                v@ == val@,
                forall|j: int| 0 <= j < i ==> self@[j] != val@,
            decreases self.names.len() - i,
        {
            if self.names[i].eq(&v) {
                proof {
                    lemma_first_index(self@, val@);
                    let k = first_index(self@, val@);
                    if k < 0 || k > i {
                        assert(self@[i as int] == val@);
                    } else if k < i {
                        assert(self@[k] == val@);
                    }
                }
                return Symbol(i as u32);
            }
            i += 1;
        }
        proof {
            lemma_first_index(self@, val@);
            if first_index(self@, val@) >= 0 {
                assert(self@[first_index(self@, val@)] == val@);
            }
        }
        let size = self.names.len();
        self.names.push(v);
        proof {
            assert(self@ =~= old(self)@.push(val@));
        }
        Symbol(size as u32)
    }

    /// The name of a symbol that this table handed out.
    pub fn resolve(&self, n: Symbol) -> (r: &str)
        requires
            (n.0 as int) < self@.len(),
        ensures
            r@ == self@[n.0 as int],
    {
        self.names[n.0 as usize].as_str()
    }

    /// The name of `n`, or the empty text for a symbol it never handed out.
    pub fn name_of(&self, n: Symbol) -> (r: String)
        ensures
            r@ == spec_name(self@, n),
    {
        if (n.0 as usize) < self.names.len() {
            self.names[n.0 as usize].clone()
        } else {
            String::new()
        }
    }
}

/// Interning a name and resolving the symbol gives back the name.
pub proof fn law_resolve_intern(names: Seq<Seq<char>>, v: Seq<char>)
    requires
        names.len() < u32::MAX,
    ensures
        ({
            let (names2, s) = spec_intern(names, v);
            (s.0 as int) < names2.len() && names2[s.0 as int] == v
        }),
{
    lemma_first_index(names, v);
}

/// Interning leaves every name that was already there at its place.
pub proof fn law_intern_keeps_names(names: Seq<Seq<char>>, v: Seq<char>)
    ensures
        ({
            let (names2, s) = spec_intern(names, v);
            names2.len() >= names.len() && names2.subrange(0, names.len() as int) == names
        }),
{
    let (names2, s) = spec_intern(names, v);
    assert(names2.subrange(0, names.len() as int) =~= names);
}

/// Interning the same name again hands out the same symbol and changes nothing.
pub proof fn law_intern_idempotent(names: Seq<Seq<char>>, v: Seq<char>)
    requires
        names.len() < u32::MAX,
    ensures
        ({
            let (names2, s) = spec_intern(names, v);
            spec_intern(names2, v) == (names2, s)
        }),
{
    lemma_first_index(names, v);
    let (names2, s) = spec_intern(names, v);
    lemma_first_index(names2, v);
    if first_index(names, v) < 0 {
        let k = first_index(names2, v);
        if k >= 0 && k < names.len() {
            assert(names2[k] == names[k]);
        }
        assert(names2[names.len() as int] == v);
    }
}

/// Two different names never share a symbol.
pub proof fn law_intern_distinct(names: Seq<Seq<char>>, a: Seq<char>, b: Seq<char>)
    requires
        names.len() + 1 < u32::MAX,
        a != b,
    ensures
        ({
            let (names2, sa) = spec_intern(names, a);
            let (names3, sb) = spec_intern(names2, b);
            sa != sb
        }),
{
    law_resolve_intern(names, a);
    let (names2, sa) = spec_intern(names, a);
    law_intern_keeps_names(names2, b);
    law_resolve_intern(names2, b);
    let (names3, sb) = spec_intern(names2, b);
    assert(names3[sa.0 as int] == names2[sa.0 as int]);
}

} // verus!
