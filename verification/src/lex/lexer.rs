//! The lexer: turns source text into tokens, one at a time.
use vstd::prelude::*;
use crate::intern::interner::{Interner, Symbol, spec_intern};
use crate::lex::token::{Token, TokenType, TokenKind, TokVal, SToken, tok};
use crate::text::{chars_of, chars_eq, string_from_chars};

verus! {

/// `char::is_alphabetic`: the Unicode `Alphabetic` property.
pub uninterp spec fn is_alpha(c: char) -> bool;

/// `char::is_alphanumeric`: `Alphabetic` or a Unicode numeric character.
pub uninterp spec fn is_alnum(c: char) -> bool;

/// Calls `char::is_alphabetic`; its result is named by `is_alpha`.
#[verifier::external_body]
fn char_is_alphabetic(c: char) -> (r: bool)
    ensures
        r == is_alpha(c),
{
    c.is_alphabetic()
}

/// Calls `char::is_alphanumeric`; its result is named by `is_alnum`.
#[verifier::external_body]
fn char_is_alphanumeric(c: char) -> (r: bool)
    ensures
        r == is_alnum(c),
{
    c.is_alphanumeric()
}

pub open spec fn is_digit(c: char) -> bool {
    '0' <= c && c <= '9'
}

pub open spec fn is_ws(c: char) -> bool {
    c == ' ' || c == '\n' || c == '\r'
}

/// The characters that continue a name: alphanumeric ones and `_`.
pub open spec fn word_char(c: char) -> bool {
    is_alnum(c) || c == '_'
}

fn is_word_char(c: char) -> (r: bool)
    ensures
        r == word_char(c),
{
    c == '_' || char_is_alphanumeric(c)
}

/// End of the run of name characters that starts at `i`.
pub open spec fn word_end(inp: Seq<char>, i: nat) -> nat
    decreases inp.len() - i,
{
    if i < inp.len() && word_char(inp[i as int]) {
        word_end(inp, i + 1)
    } else {
        i
    }
}

/// End of the run of ASCII digits that starts at `i`.
pub open spec fn digit_end(inp: Seq<char>, i: nat) -> nat
    decreases inp.len() - i,
{
    if i < inp.len() && is_digit(inp[i as int]) {
        digit_end(inp, i + 1)
    } else {
        i
    }
}

/// Index of the first `"` at or after `i`, or the end of the input.
pub open spec fn quote_end(inp: Seq<char>, i: nat) -> nat
    decreases inp.len() - i,
{
    if i < inp.len() && inp[i as int] != '"' {
        quote_end(inp, i + 1)
    } else {
        i
    }
}

/// The value of a run of decimal digits.
pub open spec fn digits_val(ds: Seq<char>) -> int
    decreases ds.len(),
{
    if ds.len() == 0 {
        0
    } else {
        digits_val(ds.drop_last()) * 10 + (ds.last() as int - '0' as int)
    }
}

/// The keyword token spelled by `w`, if `w` is a keyword.
pub open spec fn keyword(w: Seq<char>) -> Option<SToken> {
    if w == seq!['l', 'e', 't'] {
        Some(tok(TokenKind::Let))
    } else if w == seq!['f', 'n'] {
        Some(tok(TokenKind::Function))
    } else if w == seq!['t', 'r', 'u', 'e'] {
        Some(SToken { kind: TokenKind::Boolean, val: TokVal::Bool(true) })
    } else if w == seq!['f', 'a', 'l', 's', 'e'] {
        Some(SToken { kind: TokenKind::Boolean, val: TokVal::Bool(false) })
    } else if w == seq!['r', 'e', 't', 'u', 'r', 'n'] {
        Some(tok(TokenKind::Return))
    } else if w == seq!['i', 'f'] {
        Some(tok(TokenKind::If))
    } else if w == seq!['e', 'l', 's', 'e'] {
        Some(tok(TokenKind::Else))
    } else if w == seq!['w', 'h', 'i', 'l', 'e'] {
        Some(tok(TokenKind::While))
    } else {
        None
    }
}

/// A one- or two-character operator: `single` unless the next character is `second`.
pub open spec fn two_char(inp: Seq<char>, p: nat, second: char, single: TokenKind, double: TokenKind) -> (SToken, nat) {
    if p < inp.len() && inp[p as int] == second {
        (tok(double), p + 1)
    } else {
        (tok(single), p)
    }
}

/// The token that starts with the punctuation character at `pos`, and the position after it.
pub open spec fn symbol_token(inp: Seq<char>, pos: nat) -> (SToken, nat)
    recommends
        pos < inp.len(),
{
    let c = inp[pos as int];
    let p = pos + 1;
    if c == '=' {
        two_char(inp, p, '=', TokenKind::Asssign, TokenKind::Eq)
    } else if c == '!' {
        two_char(inp, p, '=', TokenKind::BangSign, TokenKind::NotEq)
    } else if c == '.' {
        (tok(TokenKind::Dot), p)
    } else if c == ';' {
        (tok(TokenKind::Semicolon), p)
    } else if c == '+' {
        (tok(TokenKind::PlusSign), p)
    } else if c == '-' {
        (tok(TokenKind::MinusSign), p)
    } else if c == '*' {
        two_char(inp, p, '*', TokenKind::MultiplicationSign, TokenKind::ExponentSign)
    } else if c == '/' {
        (tok(TokenKind::SlashSign), p)
    } else if c == '{' {
        (tok(TokenKind::LeftBrace), p)
    } else if c == '}' {
        (tok(TokenKind::RightBrace), p)
    } else if c == '(' {
        (tok(TokenKind::LeftParen), p)
    } else if c == ')' {
        (tok(TokenKind::RightParen), p)
    } else if c == '[' {
        (tok(TokenKind::LeftBracket), p)
    } else if c == ']' {
        (tok(TokenKind::RightBracket), p)
    } else if c == ',' {
        (tok(TokenKind::Comma), p)
    } else if c == '<' {
        two_char(inp, p, '=', TokenKind::LT, TokenKind::Lte)
    } else if c == '>' {
        two_char(inp, p, '=', TokenKind::GT, TokenKind::Gte)
    } else if c == '"' {
        let q = quote_end(inp, p);
        (SToken { kind: TokenKind::String, val: TokVal::Str(inp.subrange(p as int, q as int)) },
            if q < inp.len() { q + 1 } else { q })
    } else if c == ':' {
        (tok(TokenKind::Colon), p)
    } else if c == '&' {
        two_char(inp, p, '&', TokenKind::Illegal, TokenKind::And)
    } else if c == '|' {
        two_char(inp, p, '|', TokenKind::Illegal, TokenKind::Or)
    } else {
        (tok(TokenKind::Illegal), p)
    }
}

/// One step of the lexer at `pos`: the token (none once the input is used up),
/// the next position, and the interned names afterwards.
pub open spec fn spec_next_token(inp: Seq<char>, pos: nat, names: Seq<Seq<char>>)
    -> (Option<SToken>, nat, Seq<Seq<char>>)
{
    if inp.len() < pos {
        (None, pos, names)
    } else if inp.len() == pos {
        (Some(tok(TokenKind::Eof)), pos + 1, names)
    } else {
        let c = inp[pos as int];
        let p = pos + 1;
        if is_ws(c) {
            (Some(tok(TokenKind::Whitespace)), p, names)
        } else if is_alpha(c) {
            let e = word_end(inp, p);
            let w = inp.subrange(pos as int, e as int);
            match keyword(w) {
                Some(t) => (Some(t), e, names),
                None => {
                    let (n2, s) = spec_intern(names, w);
                    (Some(SToken { kind: TokenKind::Identifier, val: TokVal::Ident(s) }), e, n2)
                },
            }
        } else if is_digit(c) {
            let e = digit_end(inp, p);
            let v = digits_val(inp.subrange(pos as int, e as int));
            if v <= i64::MAX {
                (Some(SToken { kind: TokenKind::Int, val: TokVal::Int(v as i64) }), e, names)
            } else {
                (Some(tok(TokenKind::Illegal)), e, names)
            }
        } else {
            let (t, np) = symbol_token(inp, pos);
            (Some(t), np, names)
        }
    }
}

/// A space, a line feed or a carriage return lexes as one `Whitespace` token of
/// that one character, whatever surrounds it, and interns nothing.
pub proof fn law_blank_is_whitespace(inp: Seq<char>, pos: nat, names: Seq<Seq<char>>)
    requires
        pos < inp.len(),
        inp[pos as int] == ' ' || inp[pos as int] == '\n' || inp[pos as int] == '\r',
    ensures
        spec_next_token(inp, pos, names) == (Some(tok(TokenKind::Whitespace)), pos + 1, names),
{
}

/// Putting a carriage return before a line feed only adds one `Whitespace` token:
/// the token at the carriage return is `Whitespace`, and lexing goes on after it
/// exactly as it goes on at the line feed of the input without it.
pub proof fn law_carriage_return_adds_whitespace(a: Seq<char>, b: Seq<char>, names: Seq<Seq<char>>)
    ensures
        ({
            let crlf = a + seq!['\r', '\n'] + b;
            let lf = a + seq!['\n'] + b;
            &&& spec_next_token(crlf, a.len(), names) == (Some(tok(TokenKind::Whitespace)), a.len() + 1, names)
            &&& spec_next_token(crlf, a.len() + 1, names).0 == spec_next_token(lf, a.len(), names).0
            &&& spec_next_token(crlf, a.len() + 1, names).1 == spec_next_token(lf, a.len(), names).1 + 1
        }),
{
    let crlf = a + seq!['\r', '\n'] + b;
    let lf = a + seq!['\n'] + b;
    assert(crlf[a.len() as int] == '\r');
    assert(crlf[a.len() + 1int] == '\n');
    assert(lf[a.len() as int] == '\n');
}

/// Every token moves the position forward and keeps the names interned before;
/// after the end of the input comes `Eof`, and after `Eof` nothing.
pub proof fn law_next_token_progress(inp: Seq<char>, pos: nat, names: Seq<Seq<char>>)
    ensures
        ({
            let (t, p2, n2) = spec_next_token(inp, pos, names);
            &&& t is Some ==> p2 > pos && n2.len() >= names.len() && n2.subrange(0, names.len() as int) == names
            &&& t is None <==> pos > inp.len()
            &&& t is None ==> p2 == pos && n2 == names
            &&& pos == inp.len() ==> t == Some(tok(TokenKind::Eof))
        }),
{
    if pos < inp.len() {
        let c = inp[pos as int];
        if !is_ws(c) && is_alpha(c) {
            lemma_word_end(inp, pos + 1);
            let w = inp.subrange(pos as int, word_end(inp, pos + 1) as int);
            crate::intern::interner::law_intern_keeps_names(names, w);
        } else if !is_ws(c) && is_digit(c) {
            lemma_digit_end(inp, pos + 1);
        } else {
            lemma_quote_end(inp, pos + 1);
        }
    }
    assert(names.subrange(0, names.len() as int) =~= names);
}

pub open spec fn opt_token_view(t: Option<Token>) -> Option<SToken> {
    match t {
        Some(t) => Some(t@),
        None => None,
    }
}

proof fn lemma_word_end(inp: Seq<char>, i: nat)
    requires
        i <= inp.len(),
    ensures
        i <= word_end(inp, i) <= inp.len(),
    decreases inp.len() - i,
{
    if i < inp.len() && word_char(inp[i as int]) {
        lemma_word_end(inp, i + 1);
    }
}

proof fn lemma_digit_end(inp: Seq<char>, i: nat)
    requires
        i <= inp.len(),
    ensures
        i <= digit_end(inp, i) <= inp.len(),
    decreases inp.len() - i,
{
    if i < inp.len() && is_digit(inp[i as int]) {
        lemma_digit_end(inp, i + 1);
    }
}

proof fn lemma_quote_end(inp: Seq<char>, i: nat)
    requires
        i <= inp.len(),
    ensures
        i <= quote_end(inp, i) <= inp.len(),
        quote_end(inp, i) < inp.len() ==> inp[quote_end(inp, i) as int] == '"',
    decreases inp.len() - i,
{
    if i < inp.len() && inp[i as int] != '"' {
        lemma_quote_end(inp, i + 1);
    }
}

proof fn lemma_digits_val_nonneg(ds: Seq<char>)
    requires
        forall|j: int| 0 <= j < ds.len() ==> is_digit(#[trigger] ds[j]),
    ensures
        digits_val(ds) >= 0,
    decreases ds.len(),
{
    if ds.len() > 0 {
        lemma_digits_val_nonneg(ds.drop_last());
    }
}

/// A whitespace token is handed out only for a whitespace character, one step ahead.
pub proof fn lemma_whitespace_step(inp: Seq<char>, pos: nat, names: Seq<Seq<char>>)
    ensures
        ({
            let (t, p2, n2) = spec_next_token(inp, pos, names);
            t is Some && t->0.kind == TokenKind::Whitespace ==> pos < inp.len() && p2 == pos + 1
        }),
{
}

/// Once the input is used up, the lexer hands out nothing more.
pub proof fn lemma_exhausted(inp: Seq<char>, pos: nat, names: Seq<Seq<char>>)
    ensures
        ({
            let (t, p2, n2) = spec_next_token(inp, pos, names);
            t is None <==> pos > inp.len()
        }),
{
}

/// The lexer state: the input characters and the position of the next one.
pub struct Lexer {
    input: Vec<char>,
    position: usize,
    finished: bool,
}

impl Lexer {
    #[verifier::type_invariant]
    spec fn wf(&self) -> bool {
        &&& self.position <= self.input.len()
        &&& self.finished ==> self.position == self.input.len()
    }

    /// The characters being lexed.
    pub closed spec fn input(&self) -> Seq<char> {
        self.input@
    }

    /// The position of the next character; one past the end once `Eof` was handed out.
    pub closed spec fn pos(&self) -> nat {
        if self.finished { (self.input.len() + 1) as nat } else { self.position as nat }
    }

    /// The position never passes one beyond the end of the input.
    pub fn pos_bound(&self)
        ensures
            self.pos() <= self.input().len() + 1,
    {
        proof { use_type_invariant(self); }
    }

    pub fn new(input: &str) -> (r: Self)
        ensures
            r.input() == input@,
            r.pos() == 0,
    {
        Self { input: chars_of(input), position: 0, finished: false }
    }

    fn peek_is(&self, c: char) -> (r: bool)
        ensures
            r == (self.position < self.input.len() && self.input@[self.position as int] == c),
    {
        self.position < self.input.len() && self.input[self.position] == c
    }

    /// Consumes the rest of an identifier or keyword that started at `start`.
    fn consume_word(&mut self, start: usize) -> (w: Vec<char>)
        requires
            start < old(self).input.len(),
            old(self).position == start + 1,
            !old(self).finished,
        ensures
            final(self).input@ == old(self).input@,
            !final(self).finished,
            final(self).position == word_end(old(self).input@, (start + 1) as nat),
            w@ == old(self).input@.subrange(start as int, final(self).position as int),
    {
        proof { use_type_invariant(&*self); }
        let mut w: Vec<char> = Vec::new();
        w.push(self.input[start]);
        proof { lemma_word_end(self.input@, (start + 1) as nat); }
        while self.position < self.input.len() && is_word_char(self.input[self.position])
            invariant
                self.input@ == old(self).input@,
                !self.finished,
                start < self.position <= self.input.len(),
                word_end(self.input@, self.position as nat) == word_end(old(self).input@, (start + 1) as nat),
                w@ == self.input@.subrange(start as int, self.position as int),
            decreases self.input.len() - self.position,
        {
            w.push(self.input[self.position]);
            self.position = self.position + 1;
            assert(w@ =~= self.input@.subrange(start as int, self.position as int));
        }
        w
    }

    /// Consumes the rest of a number that started at `start`; `None` when it does not fit in `i64`.
    fn consume_number(&mut self, start: usize) -> (r: Option<i64>)
        requires
            start < old(self).input.len(),
            is_digit(old(self).input@[start as int]),
            old(self).position == start + 1,
            !old(self).finished,
        ensures
            final(self).input@ == old(self).input@,
            !final(self).finished,
            final(self).position == digit_end(old(self).input@, (start + 1) as nat),
            ({
                let v = digits_val(old(self).input@.subrange(start as int, final(self).position as int));
                match r {
                    Some(n) => v <= i64::MAX && n == v,
                    None => v > i64::MAX,
                }
            }),
    {
        proof { use_type_invariant(&*self); }
        let c0 = self.input[start];
        let mut number: i64 = (c0 as u32 - '0' as u32) as i64;
        let mut overflow = false;
        proof {
            let s = self.input@.subrange(start as int, start + 1);
            assert(s.drop_last() =~= Seq::<char>::empty());
            assert(s.last() == c0);
            assert(digits_val(s.drop_last()) == 0);
            assert(digits_val(s) == c0 as int - '0' as int);
            lemma_digit_end(self.input@, (start + 1) as nat);
        }
        while self.position < self.input.len() && '0' <= self.input[self.position] && self.input[self.position] <= '9'
            invariant
                self.input@ == old(self).input@,
                !self.finished,
                start < self.position <= self.input.len(),
                digit_end(self.input@, self.position as nat) == digit_end(old(self).input@, (start + 1) as nat),
                forall|j: int| start <= j < self.position ==> is_digit(#[trigger] self.input@[j]),
                number >= 0,
                ({
                    let v = digits_val(self.input@.subrange(start as int, self.position as int));
                    &&& !overflow ==> v == number
                    &&& overflow ==> v > i64::MAX
                }),
            decreases self.input.len() - self.position,
        {
            let c = self.input[self.position];
            let d = (c as u32 - '0' as u32) as i64;
            let ghost old_s = self.input@.subrange(start as int, self.position as int);
            self.position = self.position + 1;
            let ghost s = self.input@.subrange(start as int, self.position as int);
            proof {
                assert(s.drop_last() =~= old_s);
                lemma_digits_val_nonneg(old_s);
            }
            if !overflow {
                match number.checked_mul(10) {
                    Some(m) => {
                        match m.checked_add(d) {
                            Some(n) => { number = n; }
                            None => { overflow = true; }
                        }
                    }
                    None => { overflow = true; }
                }
            }
        }
        if overflow { None } else { Some(number) }
    }

    /// Consumes the rest of a string literal whose opening quote was just read.
    fn consume_string(&mut self) -> (s: Vec<char>)
        requires
            !old(self).finished,
        ensures
            final(self).input@ == old(self).input@,
            !final(self).finished,
            ({
                let q = quote_end(old(self).input@, old(self).position as nat);
                &&& s@ == old(self).input@.subrange(old(self).position as int, q as int)
                &&& final(self).position == if q < old(self).input.len() { q + 1 } else { q }
            }),
    {
        proof { use_type_invariant(&*self); }
        let start = self.position;
        let mut s: Vec<char> = Vec::new();
        proof { lemma_quote_end(self.input@, start as nat); }
        while self.position < self.input.len() && self.input[self.position] != '"'
            invariant
                self.input@ == old(self).input@,
                !self.finished,
                start <= self.position <= self.input.len(),
                quote_end(self.input@, self.position as nat) == quote_end(self.input@, start as nat),
                s@ == self.input@.subrange(start as int, self.position as int),
            decreases self.input.len() - self.position,
        {
            s.push(self.input[self.position]);
            self.position = self.position + 1;
            assert(s@ =~= self.input@.subrange(start as int, self.position as int));
        }
        if self.position < self.input.len() {
            self.position = self.position + 1;
        }
        s
    }

    /// A one- or two-character operator.
    fn two_char(&mut self, second: char, single: TokenType, double: TokenType) -> (t: Token)
        requires
            !old(self).finished,
            single@.val == TokVal::Unit,
            double@.val == TokVal::Unit,
        ensures
            final(self).input@ == old(self).input@,
            !final(self).finished,
            (t@, final(self).position as nat) == two_char(old(self).input@, old(self).position as nat,
                second, single@.kind, double@.kind),
    {
        proof { use_type_invariant(&*self); }
        if self.peek_is(second) {
            self.position = self.position + 1;
            Token::new(double)
        } else {
            Token::new(single)
        }
    }

    /// The next token, or `None` once `Eof` has been handed out.
    pub fn next_token(&mut self, interner: &mut Interner) -> (r: Option<Token>)
        ensures
            final(self).input() == old(self).input(),
            (opt_token_view(r), final(self).pos(), final(interner)@)
                == spec_next_token(old(self).input(), old(self).pos(), old(interner)@),
    {
        proof { use_type_invariant(&*self); }
        if self.finished {
            return None;
        }
        if self.position == self.input.len() {
            self.finished = true;
            return Some(Token::eof());
        }
        let start = self.position;
        let curr = self.input[start];
        self.position = self.position + 1;
        if curr == ' ' || curr == '\n' || curr == '\r' {
            return Some(Token::whitespace());
        }
        if char_is_alphabetic(curr) {
            let word = self.consume_word(start);
            let ghost w = word@;
            if chars_eq(&word, &vec!['l', 'e', 't']) {
                return Some(Token::new_let());
            } else if chars_eq(&word, &vec!['f', 'n']) {
                return Some(Token::function());
            } else if chars_eq(&word, &vec!['t', 'r', 'u', 'e']) {
                return Some(Token::boolean(true));
            } else if chars_eq(&word, &vec!['f', 'a', 'l', 's', 'e']) {
                return Some(Token::boolean(false));
            } else if chars_eq(&word, &vec!['r', 'e', 't', 'u', 'r', 'n']) {
                return Some(Token::new(TokenType::Return));
            } else if chars_eq(&word, &vec!['i', 'f']) {
                return Some(Token::new(TokenType::If));
            } else if chars_eq(&word, &vec!['e', 'l', 's', 'e']) {
                return Some(Token::new(TokenType::Else));
            } else if chars_eq(&word, &vec!['w', 'h', 'i', 'l', 'e']) {
                return Some(Token::while_token());
            } else {
                let s = string_from_chars(&word);
                let symbol = interner.intern(s.as_str());
                return Some(Token::identifier(symbol));
            }
        }
        if '0' <= curr && curr <= '9' {
            match self.consume_number(start) {
                Some(n) => { return Some(Token::integer(n)); }
                None => { return Some(Token::illegal()); }
            }
        }
        let t = if curr == '=' {
            self.two_char('=', TokenType::Asssign, TokenType::Eq)
        } else if curr == '!' {
            self.two_char('=', TokenType::BangSign, TokenType::NotEq)
        } else if curr == '.' {
            Token::dot()
        } else if curr == ';' {
            Token::semicolon()
        } else if curr == '+' {
            Token::new(TokenType::PlusSign)
        } else if curr == '-' {
            Token::new(TokenType::MinusSign)
        } else if curr == '*' {
            self.two_char('*', TokenType::MultiplicationSign, TokenType::ExponentSign)
        } else if curr == '/' {
            Token::new(TokenType::SlashSign)
        } else if curr == '{' {
            Token::left_brace()
        } else if curr == '}' {
            Token::right_brace()
        } else if curr == '(' {
            Token::left_paren()
        } else if curr == ')' {
            Token::right_paren()
        } else if curr == '[' {
            Token::left_bracket()
        } else if curr == ']' {
            Token::right_bracket()
        } else if curr == ',' {
            Token::comma()
        } else if curr == '<' {
            self.two_char('=', TokenType::LT, TokenType::Lte)
        } else if curr == '>' {
            self.two_char('=', TokenType::GT, TokenType::Gte)
        } else if curr == '"' {
            let s = self.consume_string();
            Token::string(string_from_chars(&s))
        } else if curr == ':' {
            Token::colon()
        } else if curr == '&' {
            self.two_char('&', TokenType::Illegal, TokenType::And)
        } else if curr == '|' {
            self.two_char('|', TokenType::Illegal, TokenType::Or)
        } else {
            Token::illegal()
        };
        Some(t)
    }
}

} // verus!
