//! The values the evaluator computes, their views and their printed forms.
use vstd::prelude::*;
use crate::intern::interner::{Interner, Symbol, spec_name};
use crate::ast::statement::{Statement, SStmt, pretty_stmts};
use crate::ast::expression::{names_of, bool_str, bool_string, symbol_names, copy_symbols};
use crate::ast::equality::symbols_equal;
use crate::text::{lemma_int_str_injective, string_eq, seq_join, int_str, str_debug, strs_view, push_str, join, int_to_string, copy_string, debug_string, string_of};

verus! {

/// The functions every environment starts with.
#[derive(Debug, Clone, Copy, PartialEq, Eq, Structural)]
pub enum Builtin {
    Len,
    First,
    Last,
    Print,
}

/// The key of a hash map entry: the text of a hashable value.
#[derive(Debug, Clone, PartialEq, Eq, Hash)]
pub struct HashKey {
    pub value: String,
}

impl HashKey {
    pub fn new(s: String) -> (r: Self)
        ensures
            r.value@ == s@,
    {
        HashKey { value: s }
    }
}

/// A runtime value. A function value names the environment frame it closes over.
#[derive(Debug, PartialEq)]
pub enum Object {
    Nil,
    Number(i64),
    String(String),
    Boolean(bool),
    Return(Box<Object>),
    Error(String),
    Function { name: Option<Symbol>, parameters: Vec<Symbol>, body: Vec<Statement>, env: usize },
    Array(Vec<Object>),
    Builtin { func: Builtin },
    HashMap { pairs: Vec<(HashKey, Object)> },
}

/// A runtime value as a mathematical value.
pub enum SObj {
    Nil,
    Number(i64),
    Str(Seq<char>),
    Boolean(bool),
    Return(Box<SObj>),
    Error(Seq<char>),
    Function { name: Option<Symbol>, parameters: Seq<Symbol>, body: Seq<SStmt>, env: nat },
    Array(Seq<SObj>),
    Builtin(Builtin),
    HashMap(Seq<(Seq<char>, SObj)>),
}

impl Object {
    pub open spec fn view(&self) -> SObj
        decreases self,
    {
        match self {
            Object::Nil => SObj::Nil,
            Object::Number(n) => SObj::Number(*n),
            Object::String(s) => SObj::Str(s@),
            Object::Boolean(b) => SObj::Boolean(*b),
            Object::Return(r) => SObj::Return(Box::new(r.view())),
            Object::Error(s) => SObj::Error(s@),
            Object::Function { name, parameters, body, env } => SObj::Function {
                name: *name,
                parameters: parameters@,
                body: Statement::view_seq(body@),
                env: *env as nat,
            },
            Object::Array(v) => SObj::Array(Object::view_seq(v@)),
            Object::Builtin { func } => SObj::Builtin(*func),
            Object::HashMap { pairs } => SObj::HashMap(Object::view_pairs(pairs@)),
        }
    }

    pub open spec fn view_seq(s: Seq<Object>) -> Seq<SObj>
        decreases s,
    {
        if s.len() == 0 {
            Seq::empty()
        } else {
            Object::view_seq(s.drop_last()).push(s.last().view())
        }
    }

    pub open spec fn view_pairs(s: Seq<(HashKey, Object)>) -> Seq<(Seq<char>, SObj)>
        decreases s,
    {
        if s.len() == 0 {
            Seq::empty()
        } else {
            Object::view_pairs(s.drop_last()).push((s.last().0.value@, s.last().1.view()))
        }
    }

    pub proof fn lemma_view_seq(s: Seq<Object>)
        ensures
            Object::view_seq(s).len() == s.len(),
            forall|i: int| 0 <= i < s.len() ==> #[trigger] Object::view_seq(s)[i] == s[i].view(),
        decreases s.len(),
    {
        if s.len() > 0 {
            Object::lemma_view_seq(s.drop_last());
        }
    }

    pub proof fn lemma_view_pairs(s: Seq<(HashKey, Object)>)
        ensures
            Object::view_pairs(s).len() == s.len(),
            forall|i: int| 0 <= i < s.len() ==> #[trigger] Object::view_pairs(s)[i] == (s[i].0.value@, s[i].1.view()),
        decreases s.len(),
    {
        if s.len() > 0 {
            Object::lemma_view_pairs(s.drop_last());
        }
    }

    pub proof fn lemma_view_seq_push(s: Seq<Object>, e: Object)
        ensures
            Object::view_seq(s.push(e)) == Object::view_seq(s).push(e.view()),
    {
        assert(s.push(e).drop_last() =~= s);
    }

    pub proof fn lemma_view_pairs_push(s: Seq<(HashKey, Object)>, e: (HashKey, Object))
        ensures
            Object::view_pairs(s.push(e)) == Object::view_pairs(s).push((e.0.value@, e.1.view())),
    {
        assert(s.push(e).drop_last() =~= s);
    }

    pub proof fn lemma_view_pairs_update(s: Seq<(HashKey, Object)>, i: int, e: (HashKey, Object))
        requires
            0 <= i < s.len(),
        ensures
            Object::view_pairs(s.update(i, e)) == Object::view_pairs(s).update(i, (e.0.value@, e.1.view())),
    {
        Object::lemma_view_pairs(s);
        Object::lemma_view_pairs(s.update(i, e));
        assert(Object::view_pairs(s.update(i, e)) =~= Object::view_pairs(s).update(i, (e.0.value@, e.1.view())));
    }

    /// A copy of this value.
    pub fn copy(&self) -> (r: Object)
        ensures
            r@ == self@,
        decreases self,
    {
        match self {
            Object::Nil => Object::Nil,
            Object::Number(n) => Object::Number(*n),
            Object::String(s) => Object::String(copy_string(s)),
            Object::Boolean(b) => Object::Boolean(*b),
            Object::Return(r) => Object::Return(Box::new(r.copy())),
            Object::Error(s) => Object::Error(copy_string(s)),
            Object::Function { name, parameters, body, env } => Object::Function {
                name: *name,
                parameters: copy_symbols(parameters),
                body: Statement::copy_vec(body),
                env: *env,
            },
            Object::Array(v) => Object::Array(Object::copy_vec(v)),
            Object::Builtin { func } => Object::Builtin { func: *func },
            Object::HashMap { pairs } => Object::HashMap { pairs: Object::copy_pairs(pairs) },
        }
    }

    /// A copy of a list of values.
    pub fn copy_vec(v: &Vec<Object>) -> (r: Vec<Object>)
        ensures
            Object::view_seq(r@) == Object::view_seq(v@),
        decreases v,
    {
        let mut r: Vec<Object> = Vec::new();
        let mut i: usize = 0;
        #[verifier::loop_isolation(false)]
        while i < v.len()
            invariant
                i <= v.len(),
                Object::view_seq(r@) == Object::view_seq(v@.subrange(0, i as int)),
            decreases v.len() - i,
        {
            proof { assert(decreases_to!(v => v@[i as int])); }
            let e = v[i].copy();
            proof {
                Object::lemma_view_seq_push(r@, e);
                Object::lemma_view_seq_push(v@.subrange(0, i as int), v@[i as int]);
                assert(v@.subrange(0, i as int).push(v@[i as int]) =~= v@.subrange(0, i + 1));
            }
            r.push(e);
            i += 1;
        }
        assert(v@.subrange(0, v.len() as int) =~= v@);
        r
    }

    /// A copy of the entries of a hash map.
    pub fn copy_pairs(v: &Vec<(HashKey, Object)>) -> (r: Vec<(HashKey, Object)>)
        ensures
            Object::view_pairs(r@) == Object::view_pairs(v@),
        decreases v,
    {
        let mut r: Vec<(HashKey, Object)> = Vec::new();
        let mut i: usize = 0;
        #[verifier::loop_isolation(false)]
        while i < v.len()
            invariant
                i <= v.len(),
                Object::view_pairs(r@) == Object::view_pairs(v@.subrange(0, i as int)),
            decreases v.len() - i,
        {
            proof { assert(decreases_to!(v => v@[i as int].1)); }
            let k = HashKey { value: copy_string(&v[i].0.value) };
            let x = v[i].1.copy();
            proof {
                Object::lemma_view_pairs_push(r@, (k, x));
                Object::lemma_view_pairs_push(v@.subrange(0, i as int), v@[i as int]);
                assert(v@.subrange(0, i as int).push(v@[i as int]) =~= v@.subrange(0, i + 1));
            }
            r.push((k, x));
            i += 1;
        }
        assert(v@.subrange(0, v.len() as int) =~= v@);
        r
    }
}

/// The key text of a hashable value: booleans, numbers and strings.
pub open spec fn spec_hash(o: SObj) -> Option<Seq<char>> {
    match o {
        SObj::Boolean(b) => Some(bool_str(b)),
        SObj::Number(n) => Some(int_str(n as int)),
        SObj::Str(s) => Some(s),
        _ => None,
    }
}

/// Hash keys tell values apart: two numbers, or two strings, get the same key
/// only when they are equal.
pub proof fn law_hash_injective(a: SObj, b: SObj)
    requires
        (a is Number && b is Number) || (a is Str && b is Str),
        spec_hash(a) == spec_hash(b),
    ensures
        a == b,
{
    if let (SObj::Number(x), SObj::Number(y)) = (a, b) {
        lemma_int_str_injective(x as int, y as int);
    }
}

/// Values that can serve as hash map keys.
pub trait CustomHash {
    fn hash(&self) -> Option<HashKey>;
}

impl CustomHash for Object {
    fn hash(&self) -> (r: Option<HashKey>)
        ensures
            match r {
                Some(k) => spec_hash(self@) == Some(k.value@),
                None => spec_hash(self@) is None,
            },
    {
        match self {
            Object::Boolean(b) => Some(HashKey::new(string_of(bool_string(*b)))),
            Object::Number(n) => Some(HashKey::new(int_to_string(*n))),
            Object::String(s) => Some(HashKey::new(copy_string(s))),
            _ => None,
        }
    }
}

/// How a value is printed: numbers and booleans plainly, strings in double quotes,
/// errors after `error: `, a return value as the value it carries.
pub open spec fn obj_text(o: SObj, names: Seq<Seq<char>>) -> Seq<char>
    decreases o,
{
    match o {
        SObj::Nil => "None"@,
        SObj::Number(n) => int_str(n as int),
        SObj::Str(s) => "\""@ + s + "\""@,
        SObj::Boolean(b) => bool_str(b),
        SObj::Return(r) => obj_text(*r, names),
        SObj::Error(s) => "error: "@ + s,
        SObj::Function { name, parameters, body, env } => {
            let head = match name {
                Some(n) => "Fn "@ + spec_name(names, n) + " ( "@,
                None => "Fn ( "@,
            };
            head + seq_join(names_of(parameters, names), ", "@) + " ) { "@
                + seq_join(pretty_stmts(body, names), "\n"@) + " }"@
        },
        SObj::Builtin(_) => Seq::empty(),
        SObj::Array(es) => "[ "@ + seq_join(obj_texts(es, names), ", "@) + " ]"@,
        SObj::HashMap(ps) => "{ "@ + seq_join(pair_texts(ps, names), ", "@) + " }"@,
    }
}

pub open spec fn obj_texts(es: Seq<SObj>, names: Seq<Seq<char>>) -> Seq<Seq<char>>
    decreases es,
{
    if es.len() == 0 {
        Seq::empty()
    } else {
        obj_texts(es.drop_last(), names).push(obj_text(es.last(), names))
    }
}

/// Each entry printed as the quoted key, ` : ` and the value.
pub open spec fn pair_texts(ps: Seq<(Seq<char>, SObj)>, names: Seq<Seq<char>>) -> Seq<Seq<char>>
    decreases ps,
{
    if ps.len() == 0 {
        Seq::empty()
    } else {
        pair_texts(ps.drop_last(), names).push(str_debug(ps.last().0) + " : "@ + obj_text(ps.last().1, names))
    }
}

/// The diagnostic form of a value, as error messages show it: the variant's name
/// with its contents; a function or builtin only by its variant.
pub open spec fn obj_debug(o: SObj) -> Seq<char>
    decreases o,
{
    match o {
        SObj::Nil => "None"@,
        SObj::Number(n) => "Number("@ + int_str(n as int) + ")"@,
        SObj::Str(s) => "String("@ + str_debug(s) + ")"@,
        SObj::Boolean(b) => "Boolean("@ + bool_str(b) + ")"@,
        SObj::Return(r) => "Return("@ + obj_debug(*r) + ")"@,
        SObj::Error(s) => "Error("@ + str_debug(s) + ")"@,
        SObj::Function { .. } => "Function { .. }"@,
        SObj::Builtin(_) => "Builtin { .. }"@,
        SObj::Array(es) => "Array(["@ + seq_join(obj_debugs(es), ", "@) + "])"@,
        SObj::HashMap(ps) => "HashMap { pairs: {"@ + seq_join(pair_debugs(ps), ", "@) + "} }"@,
    }
}

pub open spec fn obj_debugs(es: Seq<SObj>) -> Seq<Seq<char>>
    decreases es,
{
    if es.len() == 0 {
        Seq::empty()
    } else {
        obj_debugs(es.drop_last()).push(obj_debug(es.last()))
    }
}

pub open spec fn pair_debugs(ps: Seq<(Seq<char>, SObj)>) -> Seq<Seq<char>>
    decreases ps,
{
    if ps.len() == 0 {
        Seq::empty()
    } else {
        pair_debugs(ps.drop_last()).push("HashKey { value: "@ + str_debug(ps.last().0) + " }: "@ + obj_debug(ps.last().1))
    }
}

/// The diagnostic form of a list of values: `[`, the values, `]`.
pub open spec fn list_debug(es: Seq<SObj>) -> Seq<char> {
    "["@ + seq_join(obj_debugs(es), ", "@) + "]"@
}

impl Object {
    /// How this value is printed.
    pub fn text(&self, interner: &Interner) -> (r: String)
        ensures
            r@ == obj_text(self@, interner@),
        decreases self,
    {
        let mut s = String::new();
        match self {
            Object::Nil => { push_str(&mut s, "None"); },
            Object::Number(n) => { s = int_to_string(*n); },
            Object::String(x) => {
                push_str(&mut s, "\"");
                push_str(&mut s, x.as_str());
                push_str(&mut s, "\"");
            },
            Object::Boolean(b) => { push_str(&mut s, bool_string(*b)); },
            Object::Return(r) => { s = r.text(interner); },
            Object::Error(x) => {
                push_str(&mut s, "error: ");
                push_str(&mut s, x.as_str());
            },
            Object::Function { name, parameters, body, env } => {
                match name {
                    Some(n) => {
                        push_str(&mut s, "Fn ");
                        let t = interner.name_of(*n);
                        push_str(&mut s, t.as_str());
                        push_str(&mut s, " ( ");
                    },
                    None => { push_str(&mut s, "Fn ( "); },
                }
                let ps = symbol_names(parameters, interner);
                let p = join(&ps, ", ");
                push_str(&mut s, p.as_str());
                push_str(&mut s, " ) { ");
                let bs = Statement::pretty_vec(body, interner);
                let b = join(&bs, "\n");
                push_str(&mut s, b.as_str());
                push_str(&mut s, " }");
            },
            Object::Builtin { .. } => {},
            Object::Array(v) => {
                push_str(&mut s, "[ ");
                let ts = Object::text_vec(v, interner);
                let t = join(&ts, ", ");
                push_str(&mut s, t.as_str());
                push_str(&mut s, " ]");
            },
            Object::HashMap { pairs } => {
                push_str(&mut s, "{ ");
                let ts = Object::text_pairs(pairs, interner);
                let t = join(&ts, ", ");
                push_str(&mut s, t.as_str());
                push_str(&mut s, " }");
            },
        }
        assert(s@ =~= obj_text(self@, interner@));
        s
    }

    pub fn text_vec(v: &Vec<Object>, interner: &Interner) -> (r: Vec<String>)
        ensures
            strs_view(r@) == obj_texts(Object::view_seq(v@), interner@),
        decreases v,
    {
        let mut r: Vec<String> = Vec::new();
        let mut i: usize = 0;
        #[verifier::loop_isolation(false)]
        while i < v.len()
            invariant
                i <= v.len(),
                strs_view(r@) == obj_texts(Object::view_seq(v@.subrange(0, i as int)), interner@),
            decreases v.len() - i,
        {
            proof { assert(decreases_to!(v => v@[i as int])); }
            let t = v[i].text(interner);
            proof {
                Object::lemma_view_seq_push(v@.subrange(0, i as int), v@[i as int]);
                assert(v@.subrange(0, i as int).push(v@[i as int]) =~= v@.subrange(0, i + 1));
                let vs = Object::view_seq(v@.subrange(0, i + 1));
                assert(vs.drop_last() =~= Object::view_seq(v@.subrange(0, i as int)));
                assert(strs_view(r@.push(t)) =~= strs_view(r@).push(t@));
            }
            r.push(t);
            i += 1;
        }
        assert(v@.subrange(0, v.len() as int) =~= v@);
        r
    }

    pub fn text_pairs(v: &Vec<(HashKey, Object)>, interner: &Interner) -> (r: Vec<String>)
        ensures
            strs_view(r@) == pair_texts(Object::view_pairs(v@), interner@),
        decreases v,
    {
        let mut r: Vec<String> = Vec::new();
        let mut i: usize = 0;
        #[verifier::loop_isolation(false)]
        while i < v.len()
            invariant
                i <= v.len(),
                strs_view(r@) == pair_texts(Object::view_pairs(v@.subrange(0, i as int)), interner@),
            decreases v.len() - i,
        {
            proof { assert(decreases_to!(v => v@[i as int].1)); }
            let mut t = debug_string(v[i].0.value.as_str());
            push_str(&mut t, " : ");
            let x = v[i].1.text(interner);
            push_str(&mut t, x.as_str());
            proof {
                Object::lemma_view_pairs_push(v@.subrange(0, i as int), v@[i as int]);
                assert(v@.subrange(0, i as int).push(v@[i as int]) =~= v@.subrange(0, i + 1));
                let vs = Object::view_pairs(v@.subrange(0, i + 1));
                assert(vs.drop_last() =~= Object::view_pairs(v@.subrange(0, i as int)));
                assert(strs_view(r@.push(t)) =~= strs_view(r@).push(t@));
            }
            r.push(t);
            i += 1;
        }
        assert(v@.subrange(0, v.len() as int) =~= v@);
        r
    }

    /// The diagnostic form of this value.
    pub fn debug_text(&self) -> (r: String)
        ensures
            r@ == obj_debug(self@),
        decreases self,
    {
        let mut s = String::new();
        match self {
            Object::Nil => { push_str(&mut s, "None"); },
            Object::Number(n) => {
                push_str(&mut s, "Number(");
                let t = int_to_string(*n);
                push_str(&mut s, t.as_str());
                push_str(&mut s, ")");
            },
            Object::String(x) => {
                push_str(&mut s, "String(");
                let t = debug_string(x.as_str());
                push_str(&mut s, t.as_str());
                push_str(&mut s, ")");
            },
            Object::Boolean(b) => {
                push_str(&mut s, "Boolean(");
                push_str(&mut s, bool_string(*b));
                push_str(&mut s, ")");
            },
            Object::Return(r) => {
                push_str(&mut s, "Return(");
                let t = r.debug_text();
                push_str(&mut s, t.as_str());
                push_str(&mut s, ")");
            },
            Object::Error(x) => {
                push_str(&mut s, "Error(");
                let t = debug_string(x.as_str());
                push_str(&mut s, t.as_str());
                push_str(&mut s, ")");
            },
            Object::Function { .. } => { push_str(&mut s, "Function { .. }"); },
            Object::Builtin { .. } => { push_str(&mut s, "Builtin { .. }"); },
            Object::Array(v) => {
                push_str(&mut s, "Array([");
                let ts = Object::debug_vec(v);
                let t = join(&ts, ", ");
                push_str(&mut s, t.as_str());
                push_str(&mut s, "])");
            },
            Object::HashMap { pairs } => {
                push_str(&mut s, "HashMap { pairs: {");
                let ts = Object::debug_pairs(pairs);
                let t = join(&ts, ", ");
                push_str(&mut s, t.as_str());
                push_str(&mut s, "} }");
            },
        }
        assert(s@ =~= obj_debug(self@));
        s
    }

    pub fn debug_vec(v: &Vec<Object>) -> (r: Vec<String>)
        ensures
            strs_view(r@) == obj_debugs(Object::view_seq(v@)),
        decreases v,
    {
        let mut r: Vec<String> = Vec::new();
        let mut i: usize = 0;
        #[verifier::loop_isolation(false)]
        while i < v.len()
            invariant
                i <= v.len(),
                strs_view(r@) == obj_debugs(Object::view_seq(v@.subrange(0, i as int))),
            decreases v.len() - i,
        {
            proof { assert(decreases_to!(v => v@[i as int])); }
            let t = v[i].debug_text();
            proof {
                Object::lemma_view_seq_push(v@.subrange(0, i as int), v@[i as int]);
                assert(v@.subrange(0, i as int).push(v@[i as int]) =~= v@.subrange(0, i + 1));
                let vs = Object::view_seq(v@.subrange(0, i + 1));
                assert(vs.drop_last() =~= Object::view_seq(v@.subrange(0, i as int)));
                assert(strs_view(r@.push(t)) =~= strs_view(r@).push(t@));
            }
            r.push(t);
            i += 1;
        }
        assert(v@.subrange(0, v.len() as int) =~= v@);
        r
    }

    pub fn debug_pairs(v: &Vec<(HashKey, Object)>) -> (r: Vec<String>)
        ensures
            strs_view(r@) == pair_debugs(Object::view_pairs(v@)),
        decreases v,
    {
        let mut r: Vec<String> = Vec::new();
        let mut i: usize = 0;
        #[verifier::loop_isolation(false)]
        while i < v.len()
            invariant
                i <= v.len(),
                strs_view(r@) == pair_debugs(Object::view_pairs(v@.subrange(0, i as int))),
            decreases v.len() - i,
        {
            proof { assert(decreases_to!(v => v@[i as int].1)); }
            let mut t = string_of("HashKey { value: ");
            let k = debug_string(v[i].0.value.as_str());
            push_str(&mut t, k.as_str());
            push_str(&mut t, " }: ");
            let x = v[i].1.debug_text();
            push_str(&mut t, x.as_str());
            proof {
                Object::lemma_view_pairs_push(v@.subrange(0, i as int), v@[i as int]);
                assert(v@.subrange(0, i as int).push(v@[i as int]) =~= v@.subrange(0, i + 1));
                let vs = Object::view_pairs(v@.subrange(0, i + 1));
                assert(vs.drop_last() =~= Object::view_pairs(v@.subrange(0, i as int)));
                assert(strs_view(r@.push(t)) =~= strs_view(r@).push(t@));
            }
            r.push(t);
            i += 1;
        }
        assert(v@.subrange(0, v.len() as int) =~= v@);
        r
    }

    /// The diagnostic form of a list of values.
    pub fn list_debug_text(v: &Vec<Object>) -> (r: String)
        ensures
            r@ == list_debug(Object::view_seq(v@)),
    {
        let mut s = string_of("[");
        let ts = Object::debug_vec(v);
        let t = join(&ts, ", ");
        push_str(&mut s, t.as_str());
        push_str(&mut s, "]");
        s
    }
}

impl Object {
    /// Whether two values are the same.
    pub fn equals(&self, other: &Object) -> (r: bool)
        ensures
            r == (self@ == other@),
        decreases self,
    {
        match (self, other) {
            (Object::Nil, Object::Nil) => true,
            (Object::Number(x), Object::Number(y)) => *x == *y,
            (Object::String(x), Object::String(y)) => string_eq(x, y),
            (Object::Boolean(x), Object::Boolean(y)) => *x == *y,
            (Object::Return(x), Object::Return(y)) => x.equals(y),
            (Object::Error(x), Object::Error(y)) => string_eq(x, y),
            (Object::Function { name: n1, parameters: p1, body: b1, env: e1 },
             Object::Function { name: n2, parameters: p2, body: b2, env: e2 }) => {
                let same_name = match (n1, n2) {
                    (Some(x), Some(y)) => *x == *y,
                    (None, None) => true,
                    _ => false,
                };
                same_name && *e1 == *e2 && symbols_equal(p1, p2) && Statement::equals_vec(b1, b2)
            },
            (Object::Array(x), Object::Array(y)) => Object::equals_vec(x, y),
            (Object::Builtin { func: f1 }, Object::Builtin { func: f2 }) => *f1 == *f2,
            (Object::HashMap { pairs: p1 }, Object::HashMap { pairs: p2 }) => Object::equals_pairs(p1, p2),
            _ => false,
        }
    }

    pub fn equals_vec(a: &Vec<Object>, b: &Vec<Object>) -> (r: bool)
        ensures
            r == (Object::view_seq(a@) == Object::view_seq(b@)),
        decreases a,
    {
        proof {
            Object::lemma_view_seq(a@);
            Object::lemma_view_seq(b@);
        }
        if a.len() != b.len() {
            return false;
        }
        let mut i: usize = 0;
        #[verifier::loop_isolation(false)]
        while i < a.len()
            invariant
                i <= a@.len(),
                a@.len() == b@.len(),
                forall|j: int| 0 <= j < i ==> a@[j]@ == b@[j]@,
            decreases a@.len() - i,
        {
            proof { assert(decreases_to!(a => a@[i as int])); }
            if !a[i].equals(&b[i]) {
                assert(Object::view_seq(a@)[i as int] != Object::view_seq(b@)[i as int]);
                return false;
            }
            i += 1;
        }
        assert(Object::view_seq(a@) =~= Object::view_seq(b@));
        true
    }

    pub fn equals_pairs(a: &Vec<(HashKey, Object)>, b: &Vec<(HashKey, Object)>) -> (r: bool)
        ensures
            r == (Object::view_pairs(a@) == Object::view_pairs(b@)),
        decreases a,
    {
        proof {
            Object::lemma_view_pairs(a@);
            Object::lemma_view_pairs(b@);
        }
        if a.len() != b.len() {
            return false;
        }
        let mut i: usize = 0;
        #[verifier::loop_isolation(false)]
        while i < a.len()
            invariant
                i <= a@.len(),
                a@.len() == b@.len(),
                forall|j: int| 0 <= j < i ==> a@[j].0.value@ == b@[j].0.value@ && a@[j].1@ == b@[j].1@,
            decreases a@.len() - i,
        {
            proof { assert(decreases_to!(a => a@[i as int].1)); }
            if !string_eq(&a[i].0.value, &b[i].0.value) || !a[i].1.equals(&b[i].1) {
                assert(Object::view_pairs(a@)[i as int] != Object::view_pairs(b@)[i as int]);
                return false;
            }
            i += 1;
        }
        assert(Object::view_pairs(a@) =~= Object::view_pairs(b@));
        true
    }
}

} // verus!
