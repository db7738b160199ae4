//! Character-sequence helpers shared by the lexer, the printers and the evaluator.
use vstd::prelude::*;
use vstd::string::StringExecFns;

verus! {

/// Joins `list` with `sep` between consecutive elements.
pub open spec fn seq_join(list: Seq<Seq<char>>, sep: Seq<char>) -> Seq<char>
    decreases list.len(),
{
    if list.len() == 0 {
        Seq::empty()
    } else if list.len() == 1 {
        list[0]
    } else {
        seq_join(list.drop_last(), sep) + sep + list.last()
    }
}

/// The decimal digit character of `d` (for `d < 10`).
pub open spec fn digit_char(d: nat) -> char {
    if d == 0 { '0' }
    else if d == 1 { '1' }
    else if d == 2 { '2' }
    else if d == 3 { '3' }
    else if d == 4 { '4' }
    else if d == 5 { '5' }
    else if d == 6 { '6' }
    else if d == 7 { '7' }
    else if d == 8 { '8' }
    else { '9' }
}

/// Decimal representation of a natural number, without leading zeros.
pub open spec fn nat_str(n: nat) -> Seq<char>
    decreases n,
{
    if n < 10 {
        seq![digit_char(n)]
    } else {
        nat_str(n / 10).push(digit_char(n % 10))
    }
}

/// Decimal representation of an integer, with a leading `-` when negative.
pub open spec fn int_str(i: int) -> Seq<char> {
    if i < 0 {
        seq!['-'] + nat_str((-i) as nat)
    } else {
        nat_str(i as nat)
    }
}

/// What `{:?}` prints for a string: the quoted text with Rust's escapes.
pub uninterp spec fn str_debug(s: Seq<char>) -> Seq<char>;

/// Formats a string as `format!("{:?}", s)` does (quotes and escapes).
/// The result is named by `str_debug`; nothing more is claimed of it.
#[verifier::external_body]
pub(crate) fn debug_string(s: &str) -> (r: String)
    ensures
        r@ == str_debug(s@),
{
    format!("{:?}", s)
}

/// Appends one character (`String::push`).
#[verifier::external_body]
pub(crate) fn push_char(s: &mut String, c: char)
    ensures
        final(s)@ == old(s)@.push(c),
{
    s.push(c)
}

/// Appends the characters of `t` to `s`.
pub fn push_str(s: &mut String, t: &str)
    ensures
        final(s)@ == old(s)@ + t@,
{
    s.append(t);
}

/// Builds a `String` from characters.
pub fn string_from_chars(v: &Vec<char>) -> (r: String)
    ensures
        r@ == v@,
{
    let mut s = String::new();
    let mut i: usize = 0;
    while i < v.len()
        invariant
            i <= v.len(),
            s@ == v@.subrange(0, i as int),
        decreases v.len() - i,
    {
        push_char(&mut s, v[i]);
        i += 1;
        assert(s@ =~= v@.subrange(0, i as int));
    }
    assert(v@.subrange(0, v.len() as int) =~= v@);
    s
}

/// Builds a `String` from a literal.
pub fn string_of(t: &str) -> (r: String)
    ensures
        r@ == t@,
{
    String::from_str(t)
}

/// The characters of `s`, one per element.
pub fn chars_of(s: &str) -> (v: Vec<char>)
    ensures
        v@ == s@,
{
    broadcast use vstd::string::axiom_spec_iter;
    let mut v: Vec<char> = Vec::new();
    for c in it: s.chars()
        invariant
            v@ == it.seq().take(it.index() as int),
    {
        v.push(c);
    }
    v
}

/// Decimal digits of `n`.
pub fn nat_to_chars(n: u64) -> (v: Vec<char>)
    ensures
        v@ == nat_str(n as nat),
    decreases n,
{
    let d = n % 10;
    let c = if d == 0 { '0' } else if d == 1 { '1' } else if d == 2 { '2' } else if d == 3 { '3' }
        else if d == 4 { '4' } else if d == 5 { '5' } else if d == 6 { '6' } else if d == 7 { '7' }
        else if d == 8 { '8' } else { '9' };
    if n < 10 {
        let mut v = Vec::new();
        v.push(c);
        assert(v@ =~= seq![digit_char(n as nat)]);
        v
    } else {
        let mut v = nat_to_chars(n / 10);
        v.push(c);
        v
    }
}

/// Decimal text of a natural number.
pub fn nat_to_string(n: u64) -> (r: String)
    ensures
        r@ == nat_str(n as nat),
{
    let v = nat_to_chars(n);
    string_from_chars(&v)
}

/// Decimal text of an `i64`, as `format!("{}", n)` prints it.
pub fn int_to_string(n: i64) -> (r: String)
    ensures
        r@ == int_str(n as int),
{
    if n < 0 {
        let m: u64 = if n == i64::MIN { 9223372036854775808u64 } else { (-n) as u64 };
        let mut s = string_of("-");
        let t = nat_to_string(m);
        push_str(&mut s, t.as_str());
        proof {
            reveal_strlit("-");
            assert(s@ =~= seq!['-'] + nat_str((-(n as int)) as nat));
        }
        s
    } else {
        nat_to_string(n as u64)
    }
}

/// The texts of a list of strings.
pub open spec fn strs_view(v: Seq<String>) -> Seq<Seq<char>> {
    v.map_values(|s: String| s@)
}

/// Joins `list` with `sep` between consecutive elements.
pub fn join(list: &Vec<String>, sep: &str) -> (r: String)
    ensures
        r@ == seq_join(strs_view(list@), sep@),
{
    let mut r = String::new();
    let ghost l = strs_view(list@);
    let mut i: usize = 0;
    while i < list.len()
        invariant
            i <= list.len(),
            l == strs_view(list@),
            r@ == seq_join(l.subrange(0, i as int), sep@),
        decreases list.len() - i,
    {
        if i != 0 {
            push_str(&mut r, sep);
        }
        push_str(&mut r, list[i].as_str());
        proof {
            let t = l.subrange(0, i + 1);
            assert(t.drop_last() =~= l.subrange(0, i as int));
            if i == 0 {
                assert(r@ =~= t[0]);
            }
        }
        i += 1;
    }
    assert(l.subrange(0, list.len() as int) =~= l);
    r
}

/// `a` and `b` hold the same characters.
pub fn chars_eq(a: &Vec<char>, b: &Vec<char>) -> (r: bool)
    ensures
        r == (a@ == b@),
{
    if a.len() != b.len() {
        return false;
    }
    let mut i: usize = 0;
    while i < a.len()
        invariant
            a.len() == b.len(),
            i <= a.len(),
            forall|j: int| 0 <= j < i ==> a@[j] == b@[j],
        decreases a.len() - i,
    {
        if a[i] != b[i] {
            return false;
        }
        i += 1;
    }
    assert(a@ =~= b@);
    true
}

/// `a` and `b` hold the same characters.
pub fn string_eq(a: &String, b: &String) -> (r: bool)
    ensures
        r == (a@ == b@),
{
    a.eq(b)
}

/// A copy of `s`.
pub fn copy_string(s: &String) -> (r: String)
    ensures
        r@ == s@,
{
    s.clone()
}

proof fn lemma_digit_char(d: nat, e: nat)
    requires
        d < 10,
        e < 10,
        digit_char(d) == digit_char(e),
    ensures
        d == e,
{
}

/// The decimal text of a number is at least one digit, and never starts with `-`.
pub proof fn lemma_nat_str_shape(n: nat)
    ensures
        nat_str(n).len() >= 1,
        n >= 10 ==> nat_str(n).len() >= 2,
        nat_str(n)[0] != '-',
    decreases n,
{
    if n >= 10 {
        lemma_nat_str_shape(n / 10);
    }
}

/// Different numbers have different decimal texts.
pub proof fn lemma_nat_str_injective(a: nat, b: nat)
    requires
        nat_str(a) == nat_str(b),
    ensures
        a == b,
    decreases a,
{
    lemma_nat_str_shape(a);
    lemma_nat_str_shape(b);
    if a < 10 && b < 10 {
        assert(nat_str(a)[0] == nat_str(b)[0]);
        lemma_digit_char(a, b);
    } else if a >= 10 && b >= 10 {
        let sa = nat_str(a);
        let sb = nat_str(b);
        assert(sa.last() == sb.last());
        lemma_digit_char(a % 10, b % 10);
        assert(sa.drop_last() =~= nat_str(a / 10));
        assert(sb.drop_last() =~= nat_str(b / 10));
        lemma_nat_str_injective(a / 10, b / 10);
    } else {
        assert(nat_str(a).len() == nat_str(b).len());
    }
}

/// Different integers have different decimal texts.
pub proof fn lemma_int_str_injective(a: int, b: int)
    requires
        int_str(a) == int_str(b),
    ensures
        a == b,
{
    if a < 0 && b < 0 {
        let na = nat_str((-a) as nat);
        let nb = nat_str((-b) as nat);
        assert(int_str(a).subrange(1, int_str(a).len() as int) =~= na);
        assert(int_str(b).subrange(1, int_str(b).len() as int) =~= nb);
        lemma_nat_str_injective((-a) as nat, (-b) as nat);
    } else if a >= 0 && b >= 0 {
        lemma_nat_str_injective(a as nat, b as nat);
    } else if a < 0 {
        lemma_nat_str_shape(b as nat);
        assert(int_str(a)[0] == '-');
    } else {
        lemma_nat_str_shape(a as nat);
        assert(int_str(b)[0] == '-');
    }
}

} // verus!
