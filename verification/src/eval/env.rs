//! Environments: frames of name bindings, each frame with an optional enclosing
//! frame, plus the lines the program printed.
use vstd::prelude::*;
use crate::intern::interner::{Interner, Symbol, spec_intern};
use crate::eval::object::{Object, SObj, Builtin};

verus! {

/// One scope: its bindings and the frame that encloses it.
pub struct Frame {
    store: Vec<(Symbol, Object)>,
    parent: Option<usize>,
}

/// A scope as a mathematical value.
pub struct SFrame {
    pub store: Seq<(Symbol, SObj)>,
    pub parent: Option<nat>,
}

/// All frames, addressed by their index, and the printed lines.
pub struct Environment {
    frames: Vec<Frame>,
    output: Vec<String>,
}

/// An environment as a mathematical value.
pub struct SEnv {
    pub frames: Seq<SFrame>,
    pub out: Seq<Seq<char>>,
}

impl Frame {
    pub closed spec fn view(&self) -> SFrame {
        SFrame {
            store: self.store@.map_values(|b: (Symbol, Object)| (b.0, b.1@)),
            parent: match self.parent {
                Some(p) => Some(p as nat),
                None => None,
            },
        }
    }
}

impl Environment {
    pub closed spec fn view(&self) -> SEnv {
        SEnv {
            frames: self.frames@.map_values(|f: Frame| f@),
            out: self.output@.map_values(|s: String| s@),
        }
    }
}

/// The position of the binding of `n` in a frame's store, or -1.
pub open spec fn store_index(store: Seq<(Symbol, SObj)>, n: Symbol) -> int
    decreases store.len(),
{
    if store.len() == 0 {
        -1
    } else if store.last().0 == n {
        store.len() - 1
    } else {
        store_index(store.drop_last(), n)
    }
}

/// A store with `n` bound to `v`: the binding is replaced where there is one, else added.
pub open spec fn store_set(store: Seq<(Symbol, SObj)>, n: Symbol, v: SObj) -> Seq<(Symbol, SObj)> {
    let i = store_index(store, n);
    if i >= 0 {
        store.update(i, (n, v))
    } else {
        store.push((n, v))
    }
}

/// The value of `n` seen from frame `fid`: its own binding, else that of the
/// enclosing frames.
pub open spec fn env_get(e: SEnv, fid: nat, n: Symbol) -> Option<SObj>
    decreases fid,
{
    if fid >= e.frames.len() {
        None
    } else {
        let fr = e.frames[fid as int];
        let i = store_index(fr.store, n);
        if i >= 0 {
            Some(fr.store[i].1)
        } else {
            match fr.parent {
                Some(p) => if p < fid { env_get(e, p, n) } else { None },
                None => None,
            }
        }
    }
}

/// `e` with `n` bound to `v` in frame `fid` itself.
pub open spec fn env_set(e: SEnv, fid: nat, n: Symbol, v: SObj) -> SEnv {
    if fid < e.frames.len() {
        let fr = e.frames[fid as int];
        SEnv {
            frames: e.frames.update(fid as int, SFrame { store: store_set(fr.store, n, v), parent: fr.parent }),
            out: e.out,
        }
    } else {
        e
    }
}

/// `e` with a new empty frame enclosed by `parent`, and the new frame's index.
pub open spec fn env_enclose(e: SEnv, parent: nat) -> (SEnv, nat) {
    let fr = SFrame { store: Seq::empty(), parent: if parent < e.frames.len() { Some(parent) } else { None } };
    (SEnv { frames: e.frames.push(fr), out: e.out }, e.frames.len())
}

/// `e` with one more printed line.
pub open spec fn env_print(e: SEnv, line: Seq<char>) -> SEnv {
    SEnv { frames: e.frames, out: e.out.push(line) }
}

/// The environment a program starts in: one frame binding the builtins `len`,
/// `first`, `last` and `print`, the names interned in that order.
pub open spec fn spec_builtins(names: Seq<Seq<char>>) -> (SEnv, Seq<Seq<char>>) {
    let (n1, s1) = spec_intern(names, "len"@);
    let (n2, s2) = spec_intern(n1, "first"@);
    let (n3, s3) = spec_intern(n2, "last"@);
    let (n4, s4) = spec_intern(n3, "print"@);
    let store = seq![
        (s1, SObj::Builtin(Builtin::Len)),
        (s2, SObj::Builtin(Builtin::First)),
        (s3, SObj::Builtin(Builtin::Last)),
        (s4, SObj::Builtin(Builtin::Print)),
    ];
    (SEnv { frames: seq![SFrame { store, parent: None }], out: Seq::empty() }, n4)
}

/// An environment holding the builtin functions in its first frame.
pub fn builtin_functions(interner: &mut Interner) -> (r: Environment)
    ensures
        (r@, final(interner)@) == spec_builtins(old(interner)@),
{
    let s1 = interner.intern("len");
    let s2 = interner.intern("first");
    let s3 = interner.intern("last");
    let s4 = interner.intern("print");
    let mut store: Vec<(Symbol, Object)> = Vec::new();
    store.push((s1, Object::Builtin { func: Builtin::Len }));
    store.push((s2, Object::Builtin { func: Builtin::First }));
    store.push((s3, Object::Builtin { func: Builtin::Last }));
    store.push((s4, Object::Builtin { func: Builtin::Print }));
    let mut frames: Vec<Frame> = Vec::new();
    frames.push(Frame { store, parent: None });
    let r = Environment { frames, output: Vec::new() };
    assert(r@.frames[0].store =~= spec_builtins(old(interner)@).0.frames[0].store);
    assert(r@.frames =~= spec_builtins(old(interner)@).0.frames);
    assert(r@.out =~= Seq::<Seq<char>>::empty());
    r
}

impl Environment {
    /// An environment holding the builtin functions (frame 0 is the global frame).
    pub fn new(interner: &mut Interner) -> (r: Environment)
        ensures
            (r@, final(interner)@) == spec_builtins(old(interner)@),
    {
        builtin_functions(interner)
    }

    pub fn frame_count(&self) -> (r: usize)
        ensures
            r == self@.frames.len(),
    {
        self.frames.len()
    }

    /// The lines printed so far.
    pub fn output(&self) -> (r: &Vec<String>)
        ensures
            r@.map_values(|s: String| s@) == self@.out,
    {
        &self.output
    }

    /// Hands out the printed lines and forgets them.
    pub fn take_output(&mut self) -> (r: Vec<String>)
        ensures
            r@.map_values(|s: String| s@) == old(self)@.out,
            final(self)@ == (SEnv { frames: old(self)@.frames, out: Seq::empty() }),
    {
        let mut r: Vec<String> = Vec::new();
        std::mem::swap(&mut r, &mut self.output);
        assert(self@.out =~= Seq::<Seq<char>>::empty());
        r
    }

    /// Records a printed line.
    pub fn print_line(&mut self, line: String)
        ensures
            final(self)@ == env_print(old(self)@, line@),
    {
        self.output.push(line);
        assert(self@.out =~= old(self)@.out.push(line@));
        assert(self@.frames =~= old(self)@.frames);
    }

    fn find(store: &Vec<(Symbol, Object)>, n: Symbol) -> (r: Option<usize>)
        ensures
            match r {
                Some(i) => i < store@.len() && store_index(store@.map_values(|b: (Symbol, Object)| (b.0, b.1@)), n) == i,
                None => store_index(store@.map_values(|b: (Symbol, Object)| (b.0, b.1@)), n) == -1,
            },
    {
        let ghost sv = store@.map_values(|b: (Symbol, Object)| (b.0, b.1@));
        let mut i = store.len();
        assert(sv.subrange(0, i as int) =~= sv);
        while i > 0
            invariant
                i <= store.len(),
                sv == store@.map_values(|b: (Symbol, Object)| (b.0, b.1@)),
                store_index(sv, n) == store_index(sv.subrange(0, i as int), n),
            decreases i,
        {
            let ghost sub = sv.subrange(0, i as int);
            assert(sub.drop_last() =~= sv.subrange(0, i - 1));
            if store[i - 1].0 == n {
                return Some(i - 1);
            }
            i -= 1;
        }
        assert(sv.subrange(0, 0) =~= Seq::<(Symbol, SObj)>::empty());
        None
    }

    /// The value bound to `name` as seen from frame `frame`.
    pub fn get(&self, frame: usize, name: Symbol) -> (r: Option<Object>)
        ensures
            match r {
                Some(o) => env_get(self@, frame as nat, name) == Some(o@),
                None => env_get(self@, frame as nat, name) is None,
            },
    {
        let mut f = frame;
        loop
            invariant
                env_get(self@, f as nat, name) == env_get(self@, frame as nat, name),
            decreases f,
        {
            if f >= self.frames.len() {
                return None;
            }
            let ghost fr = self@.frames[f as int];
            assert(fr == self.frames@[f as int]@);
            match Environment::find(&self.frames[f].store, name) {
                Some(i) => {
                    return Some(self.frames[f].store[i].1.copy());
                },
                None => {
                    match self.frames[f].parent {
                        Some(p) => {
                            if p < f {
                                f = p;
                            } else {
                                return None;
                            }
                        },
                        None => {
                            return None;
                        },
                    }
                },
            }
        }
    }

    /// Binds `name` to `val` in frame `frame` itself.
    pub fn set(&mut self, frame: usize, name: Symbol, val: Object)
        ensures
            final(self)@ == env_set(old(self)@, frame as nat, name, val@),
    {
        if frame >= self.frames.len() {
            return;
        }
        let ghost old_view = self@;
        let mut fr = Frame { store: Vec::new(), parent: None };
        std::mem::swap(&mut fr, &mut self.frames[frame]);
        let ghost sv = fr.store@.map_values(|b: (Symbol, Object)| (b.0, b.1@));
        assert(fr@ == old_view.frames[frame as int]);
        let ghost vv = val@;
        match Environment::find(&fr.store, name) {
            Some(i) => {
                fr.store.set(i, (name, val));
                assert(fr.store@.map_values(|b: (Symbol, Object)| (b.0, b.1@)) =~= sv.update(i as int, (name, vv)));
            },
            None => {
                fr.store.push((name, val));
                assert(fr.store@.map_values(|b: (Symbol, Object)| (b.0, b.1@)) =~= sv.push((name, vv)));
            },
        }
        std::mem::swap(&mut fr, &mut self.frames[frame]);
        assert(self@.frames =~= env_set(old_view, frame as nat, name, vv).frames);
    }

    /// Adds an empty frame enclosed by `parent` and returns its index.
    pub fn new_enclosed(&mut self, parent: usize) -> (r: usize)
        ensures
            (final(self)@, r as nat) == env_enclose(old(self)@, parent as nat),
    {
        let n = self.frames.len();
        let p = if parent < n { Some(parent) } else { None };
        self.frames.push(Frame { store: Vec::new(), parent: p });
        proof {
            let fr = SFrame { store: Seq::empty(), parent: if parent < n { Some(parent as nat) } else { None } };
            assert(self.frames@[n as int]@.store =~= fr.store);
            assert(self@.frames =~= old(self)@.frames.push(fr));
        }
        n
    }
}

proof fn lemma_store_index(s: Seq<(Symbol, SObj)>, n: Symbol)
    ensures
        -1 <= store_index(s, n) < s.len(),
        store_index(s, n) >= 0 ==> s[store_index(s, n)].0 == n,
        store_index(s, n) >= 0 ==> forall|j: int| store_index(s, n) < j < s.len() ==> s[j].0 != n,
        store_index(s, n) < 0 ==> forall|j: int| 0 <= j < s.len() ==> s[j].0 != n,
    decreases s.len(),
{
    if s.len() > 0 && s.last().0 != n {
        let d = s.drop_last();
        lemma_store_index(d, n);
        assert forall|j: int| 0 <= j < d.len() implies #[trigger] s[j] == d[j] by {}
    }
}

proof fn lemma_store_index_at(s: Seq<(Symbol, SObj)>, n: Symbol, i: int)
    requires
        0 <= i < s.len(),
        s[i].0 == n,
        forall|j: int| i < j < s.len() ==> s[j].0 != n,
    ensures
        store_index(s, n) == i,
    decreases s.len(),
{
    if i < s.len() - 1 {
        lemma_store_index_at(s.drop_last(), n, i);
    }
}

proof fn lemma_store_index_none(s: Seq<(Symbol, SObj)>, n: Symbol)
    requires
        forall|j: int| 0 <= j < s.len() ==> s[j].0 != n,
    ensures
        store_index(s, n) == -1,
    decreases s.len(),
{
    if s.len() > 0 {
        lemma_store_index_none(s.drop_last(), n);
    }
}

/// In a store, `n` is bound to what was last stored for it, and storing `n`
/// leaves the bindings of other names as they were.
proof fn lemma_store_set(s: Seq<(Symbol, SObj)>, n: Symbol, v: SObj, m: Symbol)
    ensures
        store_index(store_set(s, n, v), n) >= 0,
        store_set(s, n, v)[store_index(store_set(s, n, v), n)].1 == v,
        m != n ==> store_index(store_set(s, n, v), m) == store_index(s, m),
{
    lemma_store_index(s, n);
    lemma_store_index(s, m);
    let s2 = store_set(s, n, v);
    let i = store_index(s, n);
    if i >= 0 {
        lemma_store_index_at(s2, n, i);
    } else {
        lemma_store_index_at(s2, n, s.len() as int);
    }
    if m != n {
        let k = store_index(s, m);
        if k >= 0 {
            lemma_store_index_at(s2, m, k);
        } else {
            assert forall|j: int| 0 <= j < s2.len() implies s2[j].0 != m by {
                if j < s.len() { assert(s2[j] == s[j] || s2[j].0 == n); }
            }
            lemma_store_index_none(s2, m);
        }
    }
}

/// Lookups from frames below `fid` do not see a change to frame `fid`.
proof fn lemma_get_below(e: SEnv, e2: SEnv, fid: nat, p: nat, n: Symbol)
    requires
        p < fid,
        e2.frames.len() == e.frames.len(),
        forall|j: int| 0 <= j < e.frames.len() && j != fid ==> #[trigger] e2.frames[j] == e.frames[j],
    ensures
        env_get(e2, p, n) == env_get(e, p, n),
    decreases p,
{
    if p < e.frames.len() {
        let fr = e.frames[p as int];
        assert(e2.frames[p as int] == fr);
        match fr.parent {
            Some(q) => if q < p { lemma_get_below(e, e2, fid, q, n); },
            None => {},
        }
    }
}

/// After binding `n` to `v` in frame `fid`, `n` seen from `fid` is `v`, and every
/// other name seen from `fid` is as before.
pub proof fn law_env_set_get(e: SEnv, fid: nat, n: Symbol, v: SObj, m: Symbol)
    requires
        fid < e.frames.len(),
    ensures
        env_get(env_set(e, fid, n, v), fid, n) == Some(v),
        m != n ==> env_get(env_set(e, fid, n, v), fid, m) == env_get(e, fid, m),
{
    let e2 = env_set(e, fid, n, v);
    let fr = e.frames[fid as int];
    lemma_store_set(fr.store, n, v, m);
    lemma_store_index(fr.store, m);
    if m != n {
        let i = store_index(fr.store, m);
        let s2 = store_set(fr.store, n, v);
        if i >= 0 {
            lemma_store_index(fr.store, n);
            assert(s2[i] == fr.store[i]);
        } else {
            match fr.parent {
                Some(p) => if p < fid { lemma_get_below(e, e2, fid, p, m); },
                None => {},
            }
        }
    }
}

/// Lookups from the frames that exist are not changed by adding a frame.
proof fn lemma_get_after_push(e: SEnv, fr: SFrame, p: nat, n: Symbol)
    ensures
        p < e.frames.len() ==> env_get(SEnv { frames: e.frames.push(fr), out: e.out }, p, n) == env_get(e, p, n),
    decreases p,
{
    if p < e.frames.len() {
        let e2 = SEnv { frames: e.frames.push(fr), out: e.out };
        assert(e2.frames[p as int] == e.frames[p as int]);
        match e.frames[p as int].parent {
            Some(q) => if q < p { lemma_get_after_push(e, fr, q, n); },
            None => {},
        }
    }
}

/// A new frame holds no bindings of its own: every name seen from it is what the
/// frame it is enclosed by sees.
pub proof fn law_enclose_get(e: SEnv, parent: nat, n: Symbol)
    requires
        parent < e.frames.len(),
    ensures
        env_get(env_enclose(e, parent).0, env_enclose(e, parent).1, n) == env_get(e, parent, n),
{
    let (e2, k) = env_enclose(e, parent);
    let fr = SFrame { store: Seq::empty(), parent: Some(parent) };
    assert(e2.frames[k as int] == fr);
    lemma_get_after_push(e, fr, parent, n);
}

} // verus!
