//! The parser: a Pratt parser over the token stream of the lexer.
use vstd::prelude::*;
use crate::intern::interner::{Interner, Symbol};
use crate::lex::lexer::{Lexer, spec_next_token, lemma_whitespace_step, lemma_exhausted, opt_token_view};
use crate::lex::token::{Token, TokenType, TokenKind, TokVal, SToken, tok, tok_debug, token_debug};
use crate::ast::literal::{Literal, SLit};
use crate::ast::expression::{Expression, SExpr, Operator, Prefix};
use crate::ast::debug::expr_debug;
use crate::ast::statement::{Statement, SStmt};
use crate::ast::order::{map_insert, insert_pair};
use crate::eval::program::Program;
use crate::text::{push_str, string_of};

verus! {

/// Binding strength of operators.
pub const LOWEST: u8 = 1;
pub const DOT: u8 = 2;
pub const EQUALS: u8 = 3;
pub const LESS_GREATER: u8 = 4;
pub const AND_OR: u8 = 5;
pub const SUM: u8 = 6;
pub const PRODUCT: u8 = 7;
pub const EXPONENT: u8 = 8;
pub const PREFIX: u8 = 9;
pub const CALL: u8 = 10;
pub const INDEX: u8 = 11;

/// How deep the parser may nest calls; far beyond any input that fits in memory.
pub const FUEL: u64 = 0xFFFF_FFFF_FFFF_FFFF;

/// The parser's view of its position: the lexer position, the current and the
/// next token, and the interned names.
pub struct PState {
    pub pos: nat,
    pub cur: SToken,
    pub next: SToken,
    pub names: Seq<Seq<char>>,
}

/// The next token that is not whitespace (`Illegal` once the input is used up),
/// the lexer position after it, and the names afterwards.
#[verifier::opaque]
pub open spec fn analyze(inp: Seq<char>, pos: nat, names: Seq<Seq<char>>) -> (SToken, nat, Seq<Seq<char>>)
    decreases inp.len() - pos,
{
    let (t, p2, n2) = spec_next_token(inp, pos, names);
    match t {
        None => (tok(TokenKind::Illegal), p2, n2),
        Some(t) => {
            if t.kind == TokenKind::Whitespace {
                proof { lemma_whitespace_step(inp, pos, names); }
                analyze(inp, p2, n2)
            } else {
                (t, p2, n2)
            }
        },
    }
}

/// Moves one token ahead.
pub open spec fn consume(inp: Seq<char>, st: PState) -> PState {
    let (t, p, n) = analyze(inp, st.pos, st.names);
    PState { pos: p, cur: st.next, next: t, names: n }
}

/// Moves ahead when the next token has kind `k`.
pub open spec fn expect(inp: Seq<char>, st: PState, k: TokenKind) -> (bool, PState) {
    if st.next.kind == k {
        (true, consume(inp, st))
    } else {
        (false, st)
    }
}

/// Moves past a `;` if one comes next.
pub open spec fn skip_semicolon(inp: Seq<char>, st: PState) -> PState {
    if st.next.kind == TokenKind::Semicolon { consume(inp, st) } else { st }
}

/// The binding strength of a token when it follows an expression.
pub open spec fn next_prec(k: TokenKind) -> nat {
    match k {
        TokenKind::Eq => EQUALS as nat,
        TokenKind::NotEq => EQUALS as nat,
        TokenKind::LT => LESS_GREATER as nat,
        TokenKind::GT => LESS_GREATER as nat,
        TokenKind::Lte => LESS_GREATER as nat,
        TokenKind::Gte => LESS_GREATER as nat,
        TokenKind::And => AND_OR as nat,
        TokenKind::Or => AND_OR as nat,
        TokenKind::PlusSign => SUM as nat,
        TokenKind::MinusSign => SUM as nat,
        TokenKind::SlashSign => PRODUCT as nat,
        TokenKind::MultiplicationSign => PRODUCT as nat,
        TokenKind::LeftParen => CALL as nat,
        TokenKind::LeftBracket => INDEX as nat,
        TokenKind::Dot => DOT as nat,
        TokenKind::ExponentSign => EXPONENT as nat,
        _ => LOWEST as nat,
    }
}

/// The binding strength the right operand of an infix operator is parsed with;
/// `**` binds its right operand loosely, which makes it right-associative.
pub open spec fn cur_prec(k: TokenKind) -> nat {
    if k == TokenKind::ExponentSign { LOWEST as nat } else { next_prec(k) }
}

/// The infix operator a token stands for.
pub open spec fn infix_op(k: TokenKind) -> Option<Operator> {
    match k {
        TokenKind::PlusSign => Some(Operator::Plus),
        TokenKind::MinusSign => Some(Operator::Minus),
        TokenKind::MultiplicationSign => Some(Operator::Multiply),
        TokenKind::SlashSign => Some(Operator::Divide),
        TokenKind::Eq => Some(Operator::Equal),
        TokenKind::NotEq => Some(Operator::NotEqual),
        TokenKind::LT => Some(Operator::LessThan),
        TokenKind::GT => Some(Operator::GreaterThan),
        TokenKind::Lte => Some(Operator::LessThanOrEqual),
        TokenKind::Gte => Some(Operator::GreaterThanOrEqual),
        TokenKind::And => Some(Operator::And),
        TokenKind::Or => Some(Operator::Or),
        TokenKind::ExponentSign => Some(Operator::Exponent),
        _ => None,
    }
}

/// The symbol an identifier token carries.
pub open spec fn tok_ident(t: SToken) -> Symbol {
    match t.val {
        TokVal::Ident(s) => s,
        _ => Symbol(0),
    }
}

/// The error for input nested deeper than the parser goes.
pub open spec fn limit_text() -> Seq<char> {
    "parser nesting limit reached"@
}

/// The message for a `.` not followed by a name.
pub open spec fn attribute_error(a: SExpr) -> Seq<char> {
    "Attribute is not valid, got "@ + expr_debug(a)
}

/// A statement starting at the current token: `let`, `return`, an assignment, a
/// `while` loop, or an expression; a `;` after it is skipped. `f` bounds the nesting.
#[verifier::opaque]
pub open spec fn p_statement(inp: Seq<char>, st: PState, f: nat) -> (SStmt, PState)
    decreases f, 0nat,
{
    if f == 0 {
        (SStmt::Error(limit_text()), st)
    } else {
        let g = (f - 1) as nat;
        if st.cur.kind == TokenKind::Let {
            p_let(inp, st, g)
        } else if st.cur.kind == TokenKind::Return {
            let s1 = consume(inp, st);
            let (v, s2) = p_expr(inp, s1, LOWEST as nat, g);
            (SStmt::Return(v), skip_semicolon(inp, s2))
        } else if st.cur.kind == TokenKind::Identifier && st.next.kind == TokenKind::Asssign {
            let ident = tok_ident(st.cur);
            let s1 = consume(inp, consume(inp, st));
            let (e, s2) = p_expr(inp, s1, LOWEST as nat, g);
            (SStmt::Assignment(ident, e), skip_semicolon(inp, s2))
        } else if st.cur.kind == TokenKind::While {
            p_while(inp, st, g)
        } else {
            let (e, s1) = p_expr(inp, st, LOWEST as nat, g);
            (SStmt::Expression(e), skip_semicolon(inp, s1))
        }
    }
}

/// `let name = value;` whose `let` is the current token.
pub open spec fn p_let(inp: Seq<char>, st: PState, f: nat) -> (SStmt, PState)
    decreases f, 1nat,
{
    let (ok1, s1) = expect(inp, st, TokenKind::Identifier);
    if !ok1 {
        (SStmt::Error("Expected next token to be TokenType::Identifier, got: "@ + tok_debug(s1.next)), s1)
    } else {
        let ident = tok_ident(s1.cur);
        let (ok2, s2) = expect(inp, s1, TokenKind::Asssign);
        if !ok2 {
            (SStmt::Error("Expected next token to be TokenType::Assign, got "@ + tok_debug(s2.next)), s2)
        } else {
            let s3 = consume(inp, s2);
            let (val, s4) = p_expr(inp, s3, LOWEST as nat, f);
            let (ok3, s5) = expect(inp, s4, TokenKind::Semicolon);
            if !ok3 {
                (SStmt::Error("Expected next token to be TokenType::Semicolon, got "@ + tok_debug(s5.next)), s5)
            } else {
                (SStmt::Let(ident, val), s5)
            }
        }
    }
}

/// `while (condition) { body }` whose `while` is the current token.
pub open spec fn p_while(inp: Seq<char>, st: PState, f: nat) -> (SStmt, PState)
    decreases f, 2nat,
{
    let (ok1, s1) = expect(inp, st, TokenKind::LeftParen);
    if !ok1 {
        (SStmt::Error("Expected next token to be TokenType::LeftParen, got: "@ + tok_debug(s1.next)), s1)
    } else {
        let (cond, s2) = p_expr(inp, s1, LOWEST as nat, f);
        let (ok2, s3) = expect(inp, s2, TokenKind::LeftBrace);
        if !ok2 {
            (SStmt::Error("Expected next token to be TokenType::LeftBrace, got "@ + tok_debug(s3.next)), s3)
        } else {
            let (body, s4) = p_block(inp, s3, f);
            (SStmt::While { condition: cond, body }, s4)
        }
    }
}

/// An expression that binds tighter than `prec`, starting at the current token.
pub open spec fn p_expr(inp: Seq<char>, st: PState, prec: nat, f: nat) -> (SExpr, PState)
    decreases f, 0nat,
{
    if f == 0 {
        (SExpr::Error(limit_text()), st)
    } else {
        let g = (f - 1) as nat;
        let (left, s1, ok) = p_prefix(inp, st, g);
        if ok {
            p_infix_loop(inp, s1, prec, left, g)
        } else {
            (left, s1)
        }
    }
}

/// The expression that starts at the current token, before any infix operator
/// that follows it; the flag is false when no expression starts with that token.
pub open spec fn p_prefix(inp: Seq<char>, st: PState, f: nat) -> (SExpr, PState, bool)
    decreases f, 3nat,
{
    let k = st.cur.kind;
    match st.cur.val {
        TokVal::Int(n) => (SExpr::Literal(SLit::Number(n)), st, true),
        TokVal::Ident(s) => (SExpr::Identifier(s), st, true),
        TokVal::Str(s) => (SExpr::Literal(SLit::Str(s)), st, true),
        TokVal::Bool(b) => (SExpr::Literal(SLit::Boolean(b)), st, true),
        TokVal::Unit => {
            if k == TokenKind::BangSign {
                let s1 = consume(inp, st);
                let (e, s2) = p_expr(inp, s1, PREFIX as nat, f);
                (SExpr::Prefix(Prefix::Bang, Box::new(e)), s2, true)
            } else if k == TokenKind::MinusSign {
                let s1 = consume(inp, st);
                let (e, s2) = p_expr(inp, s1, PREFIX as nat, f);
                (SExpr::Prefix(Prefix::Minus, Box::new(e)), s2, true)
            } else if k == TokenKind::LeftParen {
                let s1 = consume(inp, st);
                let (e, s2) = p_expr(inp, s1, LOWEST as nat, f);
                let (ok, s3) = expect(inp, s2, TokenKind::RightParen);
                if !ok {
                    (SExpr::Error("unexpected next token: TokenType::RightParen"@), s3, true)
                } else {
                    (e, s3, true)
                }
            } else if k == TokenKind::If {
                let (e, s1) = p_if(inp, st, f);
                (e, s1, true)
            } else if k == TokenKind::Function {
                let (e, s1) = p_function(inp, st, f);
                (e, s1, true)
            } else if k == TokenKind::LeftBracket {
                let (es, s1) = p_elements(inp, st, TokenKind::RightBracket, f);
                (SExpr::Array(es), s1, true)
            } else if k == TokenKind::LeftBrace {
                let (e, s1) = p_hash_loop(inp, st, Seq::empty(), f);
                (e, s1, true)
            } else {
                (SExpr::Error("parse_expression: not yet implemented, got "@ + tok_debug(st.cur)), st, false)
            }
        },
    }
}

/// Extends `left` with the operators that follow it, while they bind tighter than `prec`.
pub open spec fn p_infix_loop(inp: Seq<char>, st: PState, prec: nat, left: SExpr, f: nat) -> (SExpr, PState)
    decreases f, 0nat,
{
    if f == 0 {
        (SExpr::Error(limit_text()), st)
    } else {
        let g = (f - 1) as nat;
        if prec < next_prec(st.next.kind) && st.next.kind != TokenKind::Semicolon {
            let k = st.next.kind;
            let (l2, s2) = match infix_op(k) {
                Some(op) => {
                    let s1 = consume(inp, st);
                    let pr = cur_prec(s1.cur.kind);
                    let s2 = consume(inp, s1);
                    let (r, s3) = p_expr(inp, s2, pr, g);
                    (SExpr::Infix(op, Box::new(left), Box::new(r)), s3)
                },
                None => {
                    if k == TokenKind::LeftParen {
                        let s1 = consume(inp, st);
                        let (args, s2) = p_elements(inp, s1, TokenKind::RightParen, g);
                        (SExpr::Call { function: Box::new(left), arguments: args }, s2)
                    } else if k == TokenKind::LeftBracket {
                        let s1 = consume(inp, st);
                        let (i, s2) = p_expr(inp, s1, LOWEST as nat, g);
                        (SExpr::Index { left: Box::new(left), index: Box::new(i) }, s2)
                    } else if k == TokenKind::Dot {
                        let s1 = consume(inp, consume(inp, st));
                        let (a, s2) = p_expr(inp, s1, LOWEST as nat, g);
                        match a {
                            SExpr::Identifier(n) => (SExpr::Dot { identifier: Box::new(left), attribute: n }, consume(inp, s2)),
                            _ => (SExpr::Error(attribute_error(a)), s2),
                        }
                    } else {
                        (left, st)
                    }
                },
            };
            p_infix_loop(inp, s2, prec, l2, g)
        } else {
            (left, st)
        }
    }
}

/// `if (condition) { ... }` with an optional `else { ... }`; `if` is the current token.
pub open spec fn p_if(inp: Seq<char>, st: PState, f: nat) -> (SExpr, PState)
    decreases f, 2nat,
{
    let (ok1, s1) = expect(inp, st, TokenKind::LeftParen);
    if !ok1 {
        (SExpr::Error("expected token: TokenType::LeftParen, got: "@ + tok_debug(s1.next)), s1)
    } else {
        let s2 = consume(inp, s1);
        let (cond, s3) = p_expr(inp, s2, LOWEST as nat, f);
        let (ok2, s4) = expect(inp, s3, TokenKind::RightParen);
        if !ok2 {
            (SExpr::Error("expected token: TokenType::RightParen, got: "@ + tok_debug(s4.next)), s4)
        } else {
            let (ok3, s5) = expect(inp, s4, TokenKind::LeftBrace);
            if !ok3 {
                (SExpr::Error("expected token: TokenType::LeftBrace, got: "@ + tok_debug(s5.next)), s5)
            } else {
                let (cons, s6) = p_block(inp, s5, f);
                if s6.next.kind == TokenKind::Else {
                    let s7 = consume(inp, s6);
                    let (ok4, s8) = expect(inp, s7, TokenKind::LeftBrace);
                    if !ok4 {
                        (SExpr::Error("else: expected token: TokenType::LeftBrace, got "@ + tok_debug(s8.next)), s8)
                    } else {
                        let (alt, s9) = p_block(inp, s8, f);
                        (SExpr::If { condition: Box::new(cond), consequence: cons, alternative: Some(alt) }, s9)
                    }
                } else {
                    (SExpr::If { condition: Box::new(cond), consequence: cons, alternative: None }, s6)
                }
            }
        }
    }
}

/// The statements of a block whose `{` is the next token; ends on its `}` (or `Eof`).
pub open spec fn p_block(inp: Seq<char>, st: PState, f: nat) -> (Seq<SStmt>, PState)
    decreases f, 1nat,
{
    let s1 = consume(inp, st);
    p_block_loop(inp, s1, Seq::empty(), f)
}

/// The statements from the current token up to the closing `}` (or `Eof`), after `acc`.
pub open spec fn p_block_loop(inp: Seq<char>, st: PState, acc: Seq<SStmt>, f: nat) -> (Seq<SStmt>, PState)
    decreases f, 0nat,
{
    if f == 0 {
        (acc.push(SStmt::Error(limit_text())), st)
    } else {
        let g = (f - 1) as nat;
        if st.cur.kind != TokenKind::RightBrace && st.cur.kind != TokenKind::Eof {
            let (s, s1) = p_statement(inp, st, g);
            let s2 = consume(inp, s1);
            p_block_loop(inp, s2, acc.push(s), g)
        } else {
            (acc, st)
        }
    }
}

/// `fn name(parameters) { body }`, the name optional; `fn` is the current token.
pub open spec fn p_function(inp: Seq<char>, st: PState, f: nat) -> (SExpr, PState)
    decreases f, 2nat,
{
    let named = st.next.kind == TokenKind::Identifier;
    let name = if named { Some(tok_ident(st.next)) } else { None };
    let s0 = if named { consume(inp, st) } else { st };
    let (ok1, s1) = expect(inp, s0, TokenKind::LeftParen);
    if !ok1 {
        (SExpr::Error("expected TokenType::LeftParen, got "@ + tok_debug(s1.next)), s1)
    } else {
        let (params, s2) = p_params(inp, s1);
        match params {
            None => (SExpr::Error("expected TokenType::RightParen, got "@ + tok_debug(s2.next)), s2),
            Some(ps) => {
                let (ok2, s3) = expect(inp, s2, TokenKind::LeftBrace);
                if !ok2 {
                    (SExpr::Error("expected TokenType::LeftParen, got "@ + tok_debug(s3.next)), s3)
                } else {
                    let (body, s4) = p_block(inp, s3, f);
                    (SExpr::Function { identifier: name, parameters: ps, body }, s4)
                }
            },
        }
    }
}

/// The parameter names of a function, whose `(` is the current token; `None` when
/// a parameter is not a name or the list does not end with `)`.
#[verifier::opaque]
pub open spec fn p_params(inp: Seq<char>, st: PState) -> (Option<Seq<Symbol>>, PState) {
    if st.next.kind == TokenKind::RightParen {
        (Some(Seq::empty()), consume(inp, st))
    } else {
        let s1 = consume(inp, st);
        if s1.cur.kind == TokenKind::Identifier {
            p_params_loop(inp, s1, seq![tok_ident(s1.cur)], FUEL as nat)
        } else {
            (None, s1)
        }
    }
}

/// The parameter names after those in `acc`; the current token is the last name read.
#[verifier::opaque]
pub open spec fn p_params_loop(inp: Seq<char>, st: PState, acc: Seq<Symbol>, f: nat) -> (Option<Seq<Symbol>>, PState)
    decreases f,
{
    if f == 0 {
        (None, st)
    } else if st.next.kind == TokenKind::Comma {
        let s1 = consume(inp, consume(inp, st));
        if s1.cur.kind == TokenKind::Identifier {
            p_params_loop(inp, s1, acc.push(tok_ident(s1.cur)), (f - 1) as nat)
        } else {
            (None, s1)
        }
    } else {
        let (ok, s2) = expect(inp, st, TokenKind::RightParen);
        if !ok { (None, s2) } else { (Some(acc), s2) }
    }
}

/// A comma-separated list of expressions ending with a token of kind `end`; the
/// opening token is the current one.
pub open spec fn p_elements(inp: Seq<char>, st: PState, end: TokenKind, f: nat) -> (Seq<SExpr>, PState)
    decreases f, 1nat,
{
    if st.next.kind == end {
        (Seq::empty(), consume(inp, st))
    } else {
        let s1 = consume(inp, st);
        let (e, s2) = p_expr(inp, s1, LOWEST as nat, f);
        p_elements_loop(inp, s2, seq![e], end, f)
    }
}

/// The expressions after a comma, following those in `acc`, up to a token of kind `end`.
pub open spec fn p_elements_loop(inp: Seq<char>, st: PState, acc: Seq<SExpr>, end: TokenKind, f: nat) -> (Seq<SExpr>, PState)
    decreases f, 0nat,
{
    if f == 0 {
        (acc, st)
    } else if st.next.kind == TokenKind::Comma {
        let s1 = consume(inp, consume(inp, st));
        let (e, s2) = p_expr(inp, s1, LOWEST as nat, (f - 1) as nat);
        p_elements_loop(inp, s2, acc.push(e), end, (f - 1) as nat)
    } else {
        let (ok, s3) = expect(inp, st, end);
        (acc, s3)
    }
}

/// The pairs of a hash map literal whose `{` is the current token.
pub open spec fn p_hash_loop(inp: Seq<char>, st: PState, pairs: Seq<(SExpr, SExpr)>, f: nat) -> (SExpr, PState)
    decreases f, 0nat,
{
    if f == 0 {
        (SExpr::Error(limit_text()), st)
    } else if st.next.kind != TokenKind::RightBrace {
        let g = (f - 1) as nat;
        let s1 = consume(inp, st);
        let (k, s2) = p_expr(inp, s1, LOWEST as nat, g);
        let (ok, s3) = expect(inp, s2, TokenKind::Colon);
        if !ok {
            (SExpr::Error("expected TokenType::Colon, got "@ + token_debug(s3.next)), s3)
        } else {
            let s4 = consume(inp, s3);
            let (v, s5) = p_expr(inp, s4, LOWEST as nat, g);
            let p2 = map_insert(pairs, k, v);
            if s5.next.kind != TokenKind::RightBrace {
                let (ok2, s6) = expect(inp, s5, TokenKind::Comma);
                if !ok2 {
                    (SExpr::Error("Expected TokenType::Comma, got "@ + token_debug(s6.next)), s6)
                } else {
                    p_hash_loop(inp, s6, p2, g)
                }
            } else {
                p_hash_loop(inp, s5, p2, g)
            }
        }
    } else {
        let (ok, s7) = expect(inp, st, TokenKind::RightBrace);
        if !ok {
            (SExpr::Error("Expected TokenType::RightBrace, got: "@ + tok_debug(s7.next)), s7)
        } else {
            (SExpr::HashMap { pairs }, s7)
        }
    }
}

/// The statements of a program: parsing stops at the first statement that is an
/// error (which is dropped) or when the next token is `Eof`.
#[verifier::opaque]
pub open spec fn p_program_loop(inp: Seq<char>, st: PState, acc: Seq<SStmt>, f: nat) -> (Seq<SStmt>, PState)
    decreases f,
{
    if f == 0 {
        (acc, st)
    } else {
        let (s, s1) = p_statement(inp, st, FUEL as nat);
        if s is Error {
            (acc, s1)
        } else if s1.next.kind == TokenKind::Eof {
            (acc.push(s), s1)
        } else {
            p_program_loop(inp, consume(inp, s1), acc.push(s), (f - 1) as nat)
        }
    }
}

/// The parser state before the first statement: the first two tokens read.
pub open spec fn start_state(inp: Seq<char>, names: Seq<Seq<char>>) -> PState {
    let (t1, p1, n1) = analyze(inp, 0, names);
    let (t2, p2, n2) = analyze(inp, p1, n1);
    PState { pos: p2, cur: t1, next: t2, names: n2 }
}

/// The statements `build_ast` returns for `inp`, and the interned names afterwards.
pub open spec fn spec_build_ast(inp: Seq<char>, names: Seq<Seq<char>>) -> (Seq<SStmt>, Seq<Seq<char>>) {
    let (stmts, st) = p_program_loop(inp, start_state(inp, names), Seq::empty(), FUEL as nat);
    (stmts, st.names)
}

proof fn lemma_program_loop_no_error(inp: Seq<char>, st: PState, acc: Seq<SStmt>, f: nat)
    requires
        forall|i: int| 0 <= i < acc.len() ==> !(#[trigger] acc[i] is Error),
    ensures
        forall|i: int| 0 <= i < p_program_loop(inp, st, acc, f).0.len() ==> !(#[trigger] p_program_loop(inp, st, acc, f).0[i] is Error),
    decreases f,
{
    reveal(p_program_loop);
    if f > 0 {
        let (s, s1) = p_statement(inp, st, FUEL as nat);
        if !(s is Error) {
            let acc2 = acc.push(s);
            assert forall|i: int| 0 <= i < acc2.len() implies !(#[trigger] acc2[i] is Error) by {
                if i < acc.len() { assert(acc2[i] == acc[i]); }
            }
            if s1.next.kind != TokenKind::Eof {
                lemma_program_loop_no_error(inp, consume(inp, s1), acc2, (f - 1) as nat);
            }
        }
    }
}

/// The expression a single token stands for: a number, a name, a string or a
/// boolean literal.
pub open spec fn atom_expr(v: TokVal) -> SExpr {
    match v {
        TokVal::Int(n) => SExpr::Literal(SLit::Number(n)),
        TokVal::Ident(s) => SExpr::Identifier(s),
        TokVal::Str(s) => SExpr::Literal(SLit::Str(s)),
        TokVal::Bool(b) => SExpr::Literal(SLit::Boolean(b)),
        TokVal::Unit => SExpr::Error(Seq::empty()),
    }
}

/// `!` binds tighter than every infix operator: when `!` is followed by a single
/// token `x` and then an infix operator, the operand of `!` is `x` alone, and
/// parsing stops before the operator, which is the next token.
pub proof fn law_bang_operand_stops_before_infix(inp: Seq<char>, st: PState, f: nat)
    requires
        st.cur == tok(TokenKind::BangSign),
        !(st.next.val is Unit),
        infix_op(consume(inp, st).next.kind) is Some,
        f >= 2,
    ensures
        p_prefix(inp, st, f) == (SExpr::Prefix(Prefix::Bang, Box::new(atom_expr(st.next.val))), consume(inp, st), true),
{
    let s1 = consume(inp, st);
    let g = (f - 1) as nat;
    let x = atom_expr(st.next.val);
    assert(s1.cur == st.next);
    assert(next_prec(s1.next.kind) < PREFIX as nat);
    assert(p_prefix(inp, s1, g) == (x, s1, true));
    assert(p_infix_loop(inp, s1, PREFIX as nat, x, g) == (x, s1));
    assert(p_expr(inp, s1, PREFIX as nat, f) == (x, s1));
}

/// `!x op y` parses as `(!x) op y` for every infix operator `op` and single tokens
/// `x` and `y`, when what follows `y` continues no expression.
pub proof fn law_bang_then_infix(inp: Seq<char>, st: PState, f: nat)
    requires
        st.cur == tok(TokenKind::BangSign),
        !(st.next.val is Unit),
        infix_op(consume(inp, st).next.kind) is Some,
        !(consume(inp, consume(inp, consume(inp, st))).cur.val is Unit),
        next_prec(consume(inp, consume(inp, consume(inp, st))).next.kind) == LOWEST as nat,
        f >= 8,
    ensures
        p_expr(inp, st, LOWEST as nat, f).0 == SExpr::Infix(
            infix_op(consume(inp, st).next.kind)->0,
            Box::new(SExpr::Prefix(Prefix::Bang, Box::new(atom_expr(st.next.val)))),
            Box::new(atom_expr(consume(inp, consume(inp, consume(inp, st))).cur.val)),
        ),
{
    let g = (f - 1) as nat;
    law_bang_operand_stops_before_infix(inp, st, g);
    let s1 = consume(inp, st);
    let k = s1.next.kind;
    let op = infix_op(k)->0;
    let s2 = consume(inp, s1);
    assert(s2.cur.kind == k);
    let s3 = consume(inp, s2);
    let pr = cur_prec(k);
    let h = (g - 1) as nat;
    assert(next_prec(k) > LOWEST as nat);
    assert(k != TokenKind::Semicolon);
    let left = SExpr::Prefix(Prefix::Bang, Box::new(atom_expr(st.next.val)));
    let y = atom_expr(s3.cur.val);
    assert(p_prefix(inp, s3, (h - 1) as nat) == (y, s3, true));
    assert(p_infix_loop(inp, s3, pr, y, (h - 1) as nat) == (y, s3));
    assert(p_expr(inp, s3, pr, h) == (y, s3));
    let l2 = SExpr::Infix(op, Box::new(left), Box::new(y));
    assert(p_infix_loop(inp, s3, LOWEST as nat, l2, h) == (l2, s3));
    assert(p_infix_loop(inp, s1, LOWEST as nat, left, g) == (l2, s3));
}

/// A statement that does not parse ends the program and is left out of it: no
/// statement of a parsed program is an error statement.
pub proof fn law_program_has_no_error_statement(inp: Seq<char>, names: Seq<Seq<char>>)
    ensures
        forall|i: int| 0 <= i < spec_build_ast(inp, names).0.len() ==> !(#[trigger] spec_build_ast(inp, names).0[i] is Error),
{
    lemma_program_loop_no_error(inp, start_state(inp, names), Seq::empty(), FUEL as nat);
}

} // verus!

verus! {

/// The parser: a lexer and the current and next tokens.
pub struct Parser {
    lex: Lexer,
    current_token: Token,
    next_token: Token,
}

fn limit_error() -> (r: String)
    ensures
        r@ == limit_text(),
{
    string_of("parser nesting limit reached")
}

/// `prefix` followed by the text of `t`.
fn message(prefix: &str, t: &TokenType) -> (r: String)
    ensures
        r@ == prefix@ + tok_debug(t@),
{
    let mut m = string_of(prefix);
    let d = t.debug_text();
    push_str(&mut m, d.as_str());
    m
}

fn operator_of(k: TokenKind) -> (r: Option<Operator>)
    ensures
        r == infix_op(k),
{
    match k {
        TokenKind::PlusSign => Some(Operator::Plus),
        TokenKind::MinusSign => Some(Operator::Minus),
        TokenKind::MultiplicationSign => Some(Operator::Multiply),
        TokenKind::SlashSign => Some(Operator::Divide),
        TokenKind::Eq => Some(Operator::Equal),
        TokenKind::NotEq => Some(Operator::NotEqual),
        TokenKind::LT => Some(Operator::LessThan),
        TokenKind::GT => Some(Operator::GreaterThan),
        TokenKind::Lte => Some(Operator::LessThanOrEqual),
        TokenKind::Gte => Some(Operator::GreaterThanOrEqual),
        TokenKind::And => Some(Operator::And),
        TokenKind::Or => Some(Operator::Or),
        TokenKind::ExponentSign => Some(Operator::Exponent),
        _ => None,
    }
}

fn precedence_of(k: TokenKind) -> (r: u8)
    ensures
        r as nat == next_prec(k),
        r >= 1,
{
    match k {
        TokenKind::Eq => EQUALS,
        TokenKind::NotEq => EQUALS,
        TokenKind::LT => LESS_GREATER,
        TokenKind::GT => LESS_GREATER,
        TokenKind::Lte => LESS_GREATER,
        TokenKind::Gte => LESS_GREATER,
        TokenKind::And => AND_OR,
        TokenKind::Or => AND_OR,
        TokenKind::PlusSign => SUM,
        TokenKind::MinusSign => SUM,
        TokenKind::SlashSign => PRODUCT,
        TokenKind::MultiplicationSign => PRODUCT,
        TokenKind::LeftParen => CALL,
        TokenKind::LeftBracket => INDEX,
        TokenKind::Dot => DOT,
        TokenKind::ExponentSign => EXPONENT,
        _ => LOWEST,
    }
}

impl Parser {
    pub closed spec fn inp(&self) -> Seq<char> {
        self.lex.input()
    }

    pub closed spec fn state(&self, names: Seq<Seq<char>>) -> PState {
        PState { pos: self.lex.pos(), cur: self.current_token@, next: self.next_token@, names }
    }

    /// The next token that is not whitespace.
    fn analyze_next_token(lex: &mut Lexer, interner: &mut Interner) -> (t: Token)
        ensures
            final(lex).input() == old(lex).input(),
            (t@, final(lex).pos(), final(interner)@) == analyze(old(lex).input(), old(lex).pos(), old(interner)@),
    {
        proof { reveal(analyze); }
        lex.pos_bound();
        loop
            invariant
                lex.input() == old(lex).input(),
                lex.pos() <= lex.input().len() + 1,
                analyze(lex.input(), lex.pos(), interner@) == analyze(old(lex).input(), old(lex).pos(), old(interner)@),
            decreases lex.input().len() + 1 - lex.pos(),
        {
            proof { reveal(analyze);  }
            let ghost p0 = lex.pos();
            let ghost n0 = interner@;
            let r = lex.next_token(interner);
            lex.pos_bound();
            proof {
                lemma_whitespace_step(lex.input(), p0, n0);
            }
            match r {
                None => {
                    return Token::illegal();
                },
                Some(t) => {
                    if t.kind.to_token_kind() != TokenKind::Whitespace {
                        return t;
                    }
                },
            }
        }
    }

    fn consume_token(&mut self, interner: &mut Interner)
        ensures
            final(self).inp() == old(self).inp(),
            final(self).state(final(interner)@) == consume(old(self).inp(), old(self).state(old(interner)@)),
    {
        let mut t = Parser::analyze_next_token(&mut self.lex, interner);
        std::mem::swap(&mut self.next_token, &mut t);
        self.current_token = t;
    }

    fn expect_next_token(&mut self, kind: TokenKind, interner: &mut Interner) -> (r: bool)
        ensures
            final(self).inp() == old(self).inp(),
            (r, final(self).state(final(interner)@)) == expect(old(self).inp(), old(self).state(old(interner)@), kind),
    {
        if self.next_token.kind.to_token_kind() == kind {
            self.consume_token(interner);
            true
        } else {
            false
        }
    }

    fn skip_semicolon(&mut self, interner: &mut Interner)
        ensures
            final(self).inp() == old(self).inp(),
            final(self).state(final(interner)@) == skip_semicolon(old(self).inp(), old(self).state(old(interner)@)),
    {
        if self.next_token.kind.to_token_kind() == TokenKind::Semicolon {
            self.consume_token(interner);
        }
    }

    fn current_identifier(&self) -> (r: Symbol)
        ensures
            r == tok_ident(self.current_token@),
    {
        match self.current_token.kind {
            TokenType::Identifier(v) => v,
            _ => Symbol(0),
        }
    }

    /// Parses a whole program.
    pub fn build_ast(input: &str, interner: &mut Interner) -> (r: Program)
        ensures
            (r@, final(interner)@) == spec_build_ast(input@, old(interner)@),
    {
        let mut lex = Lexer::new(input);
        let first = Parser::analyze_next_token(&mut lex, interner);
        let second = Parser::analyze_next_token(&mut lex, interner);
        let mut parser = Parser { lex, current_token: first, next_token: second };
        assert(parser.state(interner@) == start_state(input@, old(interner)@));
        let statements = parser.parse_program(interner);
        Program { statements }
    }

    /// The statements from the current token on.
    #[verifier::rlimit(40)]
    fn parse_program(&mut self, interner: &mut Interner) -> (r: Vec<Statement>)
        ensures
            final(self).inp() == old(self).inp(),
            (Statement::view_seq(r@), final(self).state(final(interner)@))
                == p_program_loop(old(self).inp(), old(self).state(old(interner)@), Seq::empty(), FUEL as nat),
    {
        proof { reveal(p_program_loop); }
        let ghost inp = self.inp();
        let ghost target = p_program_loop(inp, self.state(interner@), Seq::empty(), FUEL as nat);
        let mut result: Vec<Statement> = Vec::new();
        let mut rounds: u64 = FUEL;
        loop
            invariant
                self.inp() == inp,
                inp == old(self).inp(),
                target == p_program_loop(old(self).inp(), old(self).state(old(interner)@), Seq::empty(), FUEL as nat),
                p_program_loop(inp, self.state(interner@), Statement::view_seq(result@), rounds as nat) == target,
            decreases rounds,
        {
            proof { reveal(p_program_loop); }
            if rounds == 0 {
                return result;
            }
            let parsed = self.parse_statement(interner, FUEL);
            let is_error = match parsed { Statement::Error(_) => true, _ => false };
            if is_error {
                return result;
            }
            proof { Statement::lemma_view_seq_push(result@, parsed); }
            result.push(parsed);
            if self.next_token.kind.to_token_kind() == TokenKind::Eof {
                return result;
            }
            self.consume_token(interner);
            rounds = rounds - 1;
        }
    }

    #[verifier::rlimit(80)]
    fn parse_statement(&mut self, interner: &mut Interner, fuel: u64) -> (r: Statement)
        ensures
            final(self).inp() == old(self).inp(),
            (r@, final(self).state(final(interner)@)) == p_statement(old(self).inp(), old(self).state(old(interner)@), fuel as nat),
        decreases fuel, 0nat,
    {
        proof { reveal(p_statement); }
        if fuel == 0 {
            return Statement::Error(limit_error());
        }
        let g = fuel - 1;
        let cur = self.current_token.kind.to_token_kind();
        let next = self.next_token.kind.to_token_kind();
        if cur == TokenKind::Let {
            self.parse_let_statement(interner, g)
        } else if cur == TokenKind::Return {
            self.consume_token(interner);
            let v = self.parse_expression(LOWEST, interner, g);
            self.skip_semicolon(interner);
            Statement::Return(v)
        } else if cur == TokenKind::Identifier && next == TokenKind::Asssign {
            let identifier = self.current_identifier();
            self.consume_token(interner);
            self.consume_token(interner);
            let e = self.parse_expression(LOWEST, interner, g);
            self.skip_semicolon(interner);
            Statement::Assignment(identifier, e)
        } else if cur == TokenKind::While {
            self.parse_while_statement(interner, g)
        } else {
            let e = self.parse_expression(LOWEST, interner, g);
            self.skip_semicolon(interner);
            Statement::Expression(e)
        }
    }

    #[verifier::rlimit(60)]
    fn parse_let_statement(&mut self, interner: &mut Interner, fuel: u64) -> (r: Statement)
        ensures
            final(self).inp() == old(self).inp(),
            (r@, final(self).state(final(interner)@)) == p_let(old(self).inp(), old(self).state(old(interner)@), fuel as nat),
        decreases fuel, 1nat,
    {
        if !self.expect_next_token(TokenKind::Identifier, interner) {
            return Statement::Error(message("Expected next token to be TokenType::Identifier, got: ", &self.next_token.kind));
        }
        let identifier = self.current_identifier();
        if !self.expect_next_token(TokenKind::Asssign, interner) {
            return Statement::Error(message("Expected next token to be TokenType::Assign, got ", &self.next_token.kind));
        }
        self.consume_token(interner);
        let val = self.parse_expression(LOWEST, interner, fuel);
        if !self.expect_next_token(TokenKind::Semicolon, interner) {
            return Statement::Error(message("Expected next token to be TokenType::Semicolon, got ", &self.next_token.kind));
        }
        Statement::Let(identifier, val)
    }

    fn parse_while_statement(&mut self, interner: &mut Interner, fuel: u64) -> (r: Statement)
        ensures
            final(self).inp() == old(self).inp(),
            (r@, final(self).state(final(interner)@)) == p_while(old(self).inp(), old(self).state(old(interner)@), fuel as nat),
        decreases fuel, 2nat,
    {
        
        if !self.expect_next_token(TokenKind::LeftParen, interner) {
            return Statement::Error(message("Expected next token to be TokenType::LeftParen, got: ", &self.next_token.kind));
        }
        let condition = self.parse_expression(LOWEST, interner, fuel);
        if !self.expect_next_token(TokenKind::LeftBrace, interner) {
            return Statement::Error(message("Expected next token to be TokenType::LeftBrace, got ", &self.next_token.kind));
        }
        let body = self.parse_block_statement(interner, fuel);
        Statement::While { condition, body }
    }

    /// The expression of a literal or name token, if the current token is one.
    fn current_atom(&self) -> (r: Option<Expression>)
        ensures
            match self.current_token@.val {
                TokVal::Int(n) => r is Some && r->0@ == SExpr::Literal(SLit::Number(n)),
                TokVal::Ident(s) => r is Some && r->0@ == SExpr::Identifier(s),
                TokVal::Str(s) => r is Some && r->0@ == SExpr::Literal(SLit::Str(s)),
                TokVal::Bool(b) => r is Some && r->0@ == SExpr::Literal(SLit::Boolean(b)),
                TokVal::Unit => r is None,
            },
    {
        match &self.current_token.kind {
            TokenType::Int(v) => Some(Expression::Literal(Literal::Number(*v))),
            TokenType::Identifier(v) => Some(Expression::Identifier(*v)),
            TokenType::String(s) => Some(Expression::Literal(Literal::String(s.clone()))),
            TokenType::Boolean(b) => Some(Expression::Literal(Literal::Boolean(*b))),
            _ => None,
        }
    }

    fn parse_expression(&mut self, prec: u8, interner: &mut Interner, fuel: u64) -> (r: Expression)
        ensures
            final(self).inp() == old(self).inp(),
            (r@, final(self).state(final(interner)@)) == p_expr(old(self).inp(), old(self).state(old(interner)@), prec as nat, fuel as nat),
        decreases fuel, 0nat,
    {
        if fuel == 0 {
            return Expression::Error(limit_error());
        }
        let (left, ok) = self.parse_prefix(interner, fuel - 1);
        if !ok {
            return left;
        }
        self.parse_infix_loop(prec, left, interner, fuel - 1)
    }

    /// The expression that starts at the current token, and whether one does.
    fn parse_prefix(&mut self, interner: &mut Interner, fuel: u64) -> (r: (Expression, bool))
        ensures
            final(self).inp() == old(self).inp(),
            (r.0@, final(self).state(final(interner)@), r.1) == p_prefix(old(self).inp(), old(self).state(old(interner)@), fuel as nat),
        decreases fuel, 3nat,
    {
        match self.current_atom() {
            Some(e) => (e, true),
            None => {
                let k = self.current_token.kind.to_token_kind();
                if k == TokenKind::BangSign {
                    self.consume_token(interner);
                    let e = self.parse_expression(PREFIX, interner, fuel);
                    (Expression::Prefix(Prefix::Bang, Box::new(e)), true)
                } else if k == TokenKind::MinusSign {
                    self.consume_token(interner);
                    let e = self.parse_expression(PREFIX, interner, fuel);
                    (Expression::Prefix(Prefix::Minus, Box::new(e)), true)
                } else if k == TokenKind::LeftParen {
                    self.consume_token(interner);
                    let e = self.parse_expression(LOWEST, interner, fuel);
                    if !self.expect_next_token(TokenKind::RightParen, interner) {
                        (Expression::Error(string_of("unexpected next token: TokenType::RightParen")), true)
                    } else {
                        (e, true)
                    }
                } else if k == TokenKind::If {
                    (self.parse_if_expression(interner, fuel), true)
                } else if k == TokenKind::Function {
                    (self.parse_function_expression(interner, fuel), true)
                } else if k == TokenKind::LeftBracket {
                    (Expression::Array(self.parse_elements_list(TokenKind::RightBracket, interner, fuel)), true)
                } else if k == TokenKind::LeftBrace {
                    (self.parse_hashmaps_literal(interner, fuel), true)
                } else {
                    (Expression::Error(message("parse_expression: not yet implemented, got ", &self.current_token.kind)), false)
                }
            },
        }
    }

    fn parse_infix_loop(&mut self, prec: u8, left0: Expression, interner: &mut Interner, fuel: u64) -> (r: Expression)
        ensures
            final(self).inp() == old(self).inp(),
            (r@, final(self).state(final(interner)@)) == p_infix_loop(old(self).inp(), old(self).state(old(interner)@), prec as nat, left0@, fuel as nat),
        decreases fuel, 1nat,
    {
                let ghost inp = self.inp();
        let ghost target = p_infix_loop(inp, self.state(interner@), prec as nat, left0@, fuel as nat);
        let mut left = left0;
        let mut f = fuel;
        loop
            invariant
                self.inp() == inp,
                inp == old(self).inp(),
                target == p_infix_loop(old(self).inp(), old(self).state(old(interner)@), prec as nat, left0@, fuel as nat),
                f <= fuel,
                p_infix_loop(inp, self.state(interner@), prec as nat, left@, f as nat) == target,
            decreases f,
        {
                        if f == 0 {
                return Expression::Error(limit_error());
            }
            let g = f - 1;
            let k = self.next_token.kind.to_token_kind();
            if !(prec < precedence_of(k) && k != TokenKind::Semicolon) {
                return left;
            }
            left = match operator_of(k) {
                Some(op) => {
                    self.consume_token(interner);
                    let pr = {
                        let ck = self.current_token.kind.to_token_kind();
                        if ck == TokenKind::ExponentSign { LOWEST } else { precedence_of(ck) }
                    };
                    self.consume_token(interner);
                    let r = self.parse_expression(pr, interner, g);
                    Expression::Infix(op, Box::new(left), Box::new(r))
                },
                None => {
                    if k == TokenKind::LeftParen {
                        self.consume_token(interner);
                        let args = self.parse_elements_list(TokenKind::RightParen, interner, g);
                        Expression::Call { function: Box::new(left), arguments: args }
                    } else if k == TokenKind::LeftBracket {
                        self.consume_token(interner);
                        let i = self.parse_expression(LOWEST, interner, g);
                        Expression::Index { left: Box::new(left), index: Box::new(i) }
                    } else if k == TokenKind::Dot {
                        self.consume_token(interner);
                        self.consume_token(interner);
                        let a = self.parse_expression(LOWEST, interner, g);
                        match a {
                            Expression::Identifier(n) => {
                                self.consume_token(interner);
                                Expression::Dot { identifier: Box::new(left), attribute: n }
                            },
                            _ => {
                                let mut m = string_of("Attribute is not valid, got ");
                                let t = a.debug_text();
                                push_str(&mut m, t.as_str());
                                Expression::Error(m)
                            },
                        }
                    } else {
                        left
                    }
                },
            };
            f = g;
        }
    }

    #[verifier::rlimit(50)]
    fn parse_if_expression(&mut self, interner: &mut Interner, fuel: u64) -> (r: Expression)
        ensures
            final(self).inp() == old(self).inp(),
            (r@, final(self).state(final(interner)@)) == p_if(old(self).inp(), old(self).state(old(interner)@), fuel as nat),
        decreases fuel, 2nat,
    {
        if !self.expect_next_token(TokenKind::LeftParen, interner) {
            return Expression::Error(message("expected token: TokenType::LeftParen, got: ", &self.next_token.kind));
        }
        self.consume_token(interner);
        let condition = self.parse_expression(LOWEST, interner, fuel);
        if !self.expect_next_token(TokenKind::RightParen, interner) {
            return Expression::Error(message("expected token: TokenType::RightParen, got: ", &self.next_token.kind));
        }
        if !self.expect_next_token(TokenKind::LeftBrace, interner) {
            return Expression::Error(message("expected token: TokenType::LeftBrace, got: ", &self.next_token.kind));
        }
        let consequence = self.parse_block_statement(interner, fuel);
        if self.next_token.kind.to_token_kind() == TokenKind::Else {
            self.consume_token(interner);
            if !self.expect_next_token(TokenKind::LeftBrace, interner) {
                return Expression::Error(message("else: expected token: TokenType::LeftBrace, got ", &self.next_token.kind));
            }
            let alternative = self.parse_block_statement(interner, fuel);
            Expression::If { condition: Box::new(condition), consequence, alternative: Some(alternative) }
        } else {
            Expression::If { condition: Box::new(condition), consequence, alternative: None }
        }
    }

    fn parse_block_statement(&mut self, interner: &mut Interner, fuel: u64) -> (r: Vec<Statement>)
        ensures
            final(self).inp() == old(self).inp(),
            (Statement::view_seq(r@), final(self).state(final(interner)@)) == p_block(old(self).inp(), old(self).state(old(interner)@), fuel as nat),
        decreases fuel, 1nat,
    {
                self.consume_token(interner);
        let ghost inp = self.inp();
        let ghost target = p_block_loop(inp, self.state(interner@), Seq::empty(), fuel as nat);
        assert(target == p_block(old(self).inp(), old(self).state(old(interner)@), fuel as nat));
        let mut statements: Vec<Statement> = Vec::new();
        let mut f = fuel;
        loop
            invariant
                self.inp() == inp,
                inp == old(self).inp(),
                target == p_block(old(self).inp(), old(self).state(old(interner)@), fuel as nat),
                f <= fuel,
                p_block_loop(inp, self.state(interner@), Statement::view_seq(statements@), f as nat) == target,
            decreases f,
        {
                        proof { reveal(p_statement); }
            if f == 0 {
                let e = Statement::Error(limit_error());
                proof { Statement::lemma_view_seq_push(statements@, e); }
                statements.push(e);
                return statements;
            }
            let k = self.current_token.kind.to_token_kind();
            if !(k != TokenKind::RightBrace && k != TokenKind::Eof) {
                return statements;
            }
            let s = self.parse_statement(interner, f - 1);
            self.consume_token(interner);
            proof { Statement::lemma_view_seq_push(statements@, s); }
            statements.push(s);
            f = f - 1;
        }
    }

    fn parse_function_expression(&mut self, interner: &mut Interner, fuel: u64) -> (r: Expression)
        ensures
            final(self).inp() == old(self).inp(),
            (r@, final(self).state(final(interner)@)) == p_function(old(self).inp(), old(self).state(old(interner)@), fuel as nat),
        decreases fuel, 2nat,
    {
                let named = self.next_token.kind.to_token_kind() == TokenKind::Identifier;
        let name = if named {
            Some(match self.next_token.kind { TokenType::Identifier(v) => v, _ => Symbol(0) })
        } else {
            None
        };
        if named {
            self.consume_token(interner);
        }
        if !self.expect_next_token(TokenKind::LeftParen, interner) {
            return Expression::Error(message("expected TokenType::LeftParen, got ", &self.next_token.kind));
        }
        let params = self.parse_function_parameters(interner);
        match params {
            None => Expression::Error(message("expected TokenType::RightParen, got ", &self.next_token.kind)),
            Some(parameters) => {
                if !self.expect_next_token(TokenKind::LeftBrace, interner) {
                    return Expression::Error(message("expected TokenType::LeftParen, got ", &self.next_token.kind));
                }
                let body = self.parse_block_statement(interner, fuel);
                Expression::Function { identifier: name, parameters, body }
            },
        }
    }

    fn parse_function_parameters(&mut self, interner: &mut Interner) -> (r: Option<Vec<Symbol>>)
        ensures
            final(self).inp() == old(self).inp(),
            (match r { Some(v) => Some(v@), None => None }, final(self).state(final(interner)@))
                == p_params(old(self).inp(), old(self).state(old(interner)@)),
    {
        proof { reveal(p_params); reveal(p_params_loop); }
        if self.next_token.kind.to_token_kind() == TokenKind::RightParen {
            self.consume_token(interner);
            return Some(Vec::new());
        }
        self.consume_token(interner);
        if self.current_token.kind.to_token_kind() != TokenKind::Identifier {
            return None;
        }
        let mut identifiers: Vec<Symbol> = Vec::new();
        identifiers.push(self.current_identifier());
        let ghost inp = self.inp();
        let ghost target = p_params_loop(inp, self.state(interner@), identifiers@, FUEL as nat);
        assert(identifiers@ =~= seq![tok_ident(self.current_token@)]);
        assert(target == p_params(old(self).inp(), old(self).state(old(interner)@)));
        let mut f: u64 = FUEL;
        loop
            invariant
                self.inp() == inp,
                inp == old(self).inp(),
                target == p_params(old(self).inp(), old(self).state(old(interner)@)),
                p_params_loop(inp, self.state(interner@), identifiers@, f as nat) == target,
            decreases f,
        {
            proof { reveal(p_params); reveal(p_params_loop);  }
            if f == 0 {
                return None;
            }
            if self.next_token.kind.to_token_kind() == TokenKind::Comma {
                self.consume_token(interner);
                self.consume_token(interner);
                if self.current_token.kind.to_token_kind() != TokenKind::Identifier {
                    return None;
                }
                identifiers.push(self.current_identifier());
                f = f - 1;
            } else {
                if !self.expect_next_token(TokenKind::RightParen, interner) {
                    return None;
                }
                return Some(identifiers);
            }
        }
    }

    fn parse_elements_list(&mut self, end: TokenKind, interner: &mut Interner, fuel: u64) -> (r: Vec<Expression>)
        ensures
            final(self).inp() == old(self).inp(),
            (Expression::view_seq(r@), final(self).state(final(interner)@)) == p_elements(old(self).inp(), old(self).state(old(interner)@), end, fuel as nat),
        decreases fuel, 1nat,
    {
                let mut elements: Vec<Expression> = Vec::new();
        if self.next_token.kind.to_token_kind() == end {
            self.consume_token(interner);
            return elements;
        }
        self.consume_token(interner);
        let e = self.parse_expression(LOWEST, interner, fuel);
        proof { Expression::lemma_view_seq_push(elements@, e); }
        elements.push(e);
        let ghost inp = self.inp();
        let ghost target = p_elements_loop(inp, self.state(interner@), Expression::view_seq(elements@), end, fuel as nat);
        assert(Expression::view_seq(elements@) =~= seq![e@]);
        assert(target == p_elements(old(self).inp(), old(self).state(old(interner)@), end, fuel as nat));
        let mut f = fuel;
        loop
            invariant
                self.inp() == inp,
                inp == old(self).inp(),
                target == p_elements(old(self).inp(), old(self).state(old(interner)@), end, fuel as nat),
                f <= fuel,
                p_elements_loop(inp, self.state(interner@), Expression::view_seq(elements@), end, f as nat) == target,
            decreases f,
        {
                        if f == 0 {
                return elements;
            }
            if self.next_token.kind.to_token_kind() == TokenKind::Comma {
                self.consume_token(interner);
                self.consume_token(interner);
                let e = self.parse_expression(LOWEST, interner, f - 1);
                proof { Expression::lemma_view_seq_push(elements@, e); }
                elements.push(e);
                f = f - 1;
            } else {
                let _ = self.expect_next_token(end, interner);
                return elements;
            }
        }
    }

    fn parse_hashmaps_literal(&mut self, interner: &mut Interner, fuel: u64) -> (r: Expression)
        ensures
            final(self).inp() == old(self).inp(),
            (r@, final(self).state(final(interner)@)) == p_hash_loop(old(self).inp(), old(self).state(old(interner)@), Seq::empty(), fuel as nat),
        decreases fuel, 1nat,
    {
                let ghost inp = self.inp();
        let ghost target = p_hash_loop(inp, self.state(interner@), Seq::empty(), fuel as nat);
        let mut pairs: Vec<(Expression, Expression)> = Vec::new();
        let mut f = fuel;
        assert(Expression::view_pairs(pairs@) =~= Seq::<(SExpr, SExpr)>::empty());
        loop
            invariant
                self.inp() == inp,
                inp == old(self).inp(),
                target == p_hash_loop(old(self).inp(), old(self).state(old(interner)@), Seq::empty(), fuel as nat),
                f <= fuel,
                p_hash_loop(inp, self.state(interner@), Expression::view_pairs(pairs@), f as nat) == target,
            decreases f,
        {
                        if f == 0 {
                return Expression::Error(limit_error());
            }
            if self.next_token.kind.to_token_kind() == TokenKind::RightBrace {
                if !self.expect_next_token(TokenKind::RightBrace, interner) {
                    return Expression::Error(message("Expected TokenType::RightBrace, got: ", &self.next_token.kind));
                }
                return Expression::HashMap { pairs };
            }
            let g = f - 1;
            self.consume_token(interner);
            let key = self.parse_expression(LOWEST, interner, g);
            if !self.expect_next_token(TokenKind::Colon, interner) {
                let mut m = string_of("expected TokenType::Colon, got ");
                let t = self.next_token.debug_text();
                push_str(&mut m, t.as_str());
                return Expression::Error(m);
            }
            self.consume_token(interner);
            let value = self.parse_expression(LOWEST, interner, g);
            insert_pair(&mut pairs, key, value);
            if self.next_token.kind.to_token_kind() != TokenKind::RightBrace {
                if !self.expect_next_token(TokenKind::Comma, interner) {
                    let mut m = string_of("Expected TokenType::Comma, got ");
                    let t = self.next_token.debug_text();
                    push_str(&mut m, t.as_str());
                    return Expression::Error(m);
                }
            }
            f = g;
        }
    }
}

} // verus!
