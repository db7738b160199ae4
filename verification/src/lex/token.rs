//! Tokens produced by the lexer.
use vstd::prelude::*;
use crate::intern::interner::Symbol;
use crate::text::{copy_string, push_str, nat_to_string, int_to_string, debug_string, nat_str, int_str, str_debug};

verus! {

/// A token with the value it carries.
#[derive(Debug, PartialEq, Clone, Eq, Hash)]
pub enum TokenType {
    Comma,
    Dot,
    Semicolon,
    Colon,
    Eof,
    Identifier(Symbol),
    LeftParen,
    RightParen,
    LeftBrace,
    RightBrace,
    LeftBracket,
    RightBracket,
    Illegal,
    Let,
    Function,
    If,
    Else,
    Return,
    Boolean(bool),
    String(String),
    Int(i64),
    Whitespace,
    PlusSign,
    MinusSign,
    MultiplicationSign,
    ExponentSign,
    SlashSign,
    Asssign,
    BangSign,
    LT,
    GT,
    Lte,
    Gte,
    Eq,
    NotEq,
    And,
    Or,
    While,
}

/// The kind of a token, without its value.
#[derive(Debug, PartialEq, Clone, Copy, Eq, Structural, Hash)]
pub enum TokenKind {
    Comma,
    Dot,
    Semicolon,
    Colon,
    Eof,
    Identifier,
    LeftParen,
    RightParen,
    LeftBrace,
    RightBrace,
    LeftBracket,
    RightBracket,
    Illegal,
    Let,
    Function,
    If,
    Else,
    Return,
    Boolean,
    String,
    Int,
    Whitespace,
    PlusSign,
    MinusSign,
    MultiplicationSign,
    ExponentSign,
    SlashSign,
    Asssign,
    BangSign,
    LT,
    GT,
    Lte,
    Gte,
    Eq,
    NotEq,
    And,
    Or,
    While,
}

/// The value a token carries, as a mathematical value.
pub enum TokVal {
    Unit,
    Ident(Symbol),
    Bool(bool),
    Str(Seq<char>),
    Int(i64),
}

/// A token as a mathematical value: its kind and what it carries.
pub struct SToken {
    pub kind: TokenKind,
    pub val: TokVal,
}

/// The token of kind `k` that carries nothing.
pub open spec fn tok(k: TokenKind) -> SToken {
    SToken { kind: k, val: TokVal::Unit }
}

impl TokenType {
    pub open spec fn view(&self) -> SToken {
        match self {
            TokenType::Comma => tok(TokenKind::Comma),
            TokenType::Dot => tok(TokenKind::Dot),
            TokenType::Semicolon => tok(TokenKind::Semicolon),
            TokenType::Colon => tok(TokenKind::Colon),
            TokenType::Eof => tok(TokenKind::Eof),
            TokenType::Identifier(v) => SToken { kind: TokenKind::Identifier, val: TokVal::Ident(*v) },
            TokenType::LeftParen => tok(TokenKind::LeftParen),
            TokenType::RightParen => tok(TokenKind::RightParen),
            TokenType::LeftBrace => tok(TokenKind::LeftBrace),
            TokenType::RightBrace => tok(TokenKind::RightBrace),
            TokenType::LeftBracket => tok(TokenKind::LeftBracket),
            TokenType::RightBracket => tok(TokenKind::RightBracket),
            TokenType::Illegal => tok(TokenKind::Illegal),
            TokenType::Let => tok(TokenKind::Let),
            TokenType::Function => tok(TokenKind::Function),
            TokenType::If => tok(TokenKind::If),
            TokenType::Else => tok(TokenKind::Else),
            TokenType::Return => tok(TokenKind::Return),
            TokenType::Boolean(v) => SToken { kind: TokenKind::Boolean, val: TokVal::Bool(*v) },
            TokenType::String(v) => SToken { kind: TokenKind::String, val: TokVal::Str(v@) },
            TokenType::Int(v) => SToken { kind: TokenKind::Int, val: TokVal::Int(*v) },
            TokenType::Whitespace => tok(TokenKind::Whitespace),
            TokenType::PlusSign => tok(TokenKind::PlusSign),
            TokenType::MinusSign => tok(TokenKind::MinusSign),
            TokenType::MultiplicationSign => tok(TokenKind::MultiplicationSign),
            TokenType::ExponentSign => tok(TokenKind::ExponentSign),
            TokenType::SlashSign => tok(TokenKind::SlashSign),
            TokenType::Asssign => tok(TokenKind::Asssign),
            TokenType::BangSign => tok(TokenKind::BangSign),
            TokenType::LT => tok(TokenKind::LT),
            TokenType::GT => tok(TokenKind::GT),
            TokenType::Lte => tok(TokenKind::Lte),
            TokenType::Gte => tok(TokenKind::Gte),
            TokenType::Eq => tok(TokenKind::Eq),
            TokenType::NotEq => tok(TokenKind::NotEq),
            TokenType::And => tok(TokenKind::And),
            TokenType::Or => tok(TokenKind::Or),
            TokenType::While => tok(TokenKind::While),
        }
    }

    /// The kind of this token.
    pub fn to_token_kind(&self) -> (r: TokenKind)
        ensures
            r == self@.kind,
    {
        match self {
            TokenType::Comma => TokenKind::Comma,
            TokenType::Dot => TokenKind::Dot,
            TokenType::Semicolon => TokenKind::Semicolon,
            TokenType::Colon => TokenKind::Colon,
            TokenType::Eof => TokenKind::Eof,
            TokenType::Identifier(_) => TokenKind::Identifier,
            TokenType::LeftParen => TokenKind::LeftParen,
            TokenType::RightParen => TokenKind::RightParen,
            TokenType::LeftBrace => TokenKind::LeftBrace,
            TokenType::RightBrace => TokenKind::RightBrace,
            TokenType::LeftBracket => TokenKind::LeftBracket,
            TokenType::RightBracket => TokenKind::RightBracket,
            TokenType::Illegal => TokenKind::Illegal,
            TokenType::Let => TokenKind::Let,
            TokenType::Function => TokenKind::Function,
            TokenType::If => TokenKind::If,
            TokenType::Else => TokenKind::Else,
            TokenType::Return => TokenKind::Return,
            TokenType::Boolean(_) => TokenKind::Boolean,
            TokenType::String(_) => TokenKind::String,
            TokenType::Int(_) => TokenKind::Int,
            TokenType::Whitespace => TokenKind::Whitespace,
            TokenType::PlusSign => TokenKind::PlusSign,
            TokenType::MinusSign => TokenKind::MinusSign,
            TokenType::MultiplicationSign => TokenKind::MultiplicationSign,
            TokenType::ExponentSign => TokenKind::ExponentSign,
            TokenType::SlashSign => TokenKind::SlashSign,
            TokenType::Asssign => TokenKind::Asssign,
            TokenType::BangSign => TokenKind::BangSign,
            TokenType::LT => TokenKind::LT,
            TokenType::GT => TokenKind::GT,
            TokenType::Lte => TokenKind::Lte,
            TokenType::Gte => TokenKind::Gte,
            TokenType::Eq => TokenKind::Eq,
            TokenType::NotEq => TokenKind::NotEq,
            TokenType::And => TokenKind::And,
            TokenType::Or => TokenKind::Or,
            TokenType::While => TokenKind::While,
        }
    }

    /// A copy of this token.
    pub fn copy(&self) -> (r: TokenType)
        ensures
            r@ == self@,
    {
        match self {
            TokenType::Comma => TokenType::Comma,
            TokenType::Dot => TokenType::Dot,
            TokenType::Semicolon => TokenType::Semicolon,
            TokenType::Colon => TokenType::Colon,
            TokenType::Eof => TokenType::Eof,
            TokenType::Identifier(x) => TokenType::Identifier(*x),
            TokenType::LeftParen => TokenType::LeftParen,
            TokenType::RightParen => TokenType::RightParen,
            TokenType::LeftBrace => TokenType::LeftBrace,
            TokenType::RightBrace => TokenType::RightBrace,
            TokenType::LeftBracket => TokenType::LeftBracket,
            TokenType::RightBracket => TokenType::RightBracket,
            TokenType::Illegal => TokenType::Illegal,
            TokenType::Let => TokenType::Let,
            TokenType::Function => TokenType::Function,
            TokenType::If => TokenType::If,
            TokenType::Else => TokenType::Else,
            TokenType::Return => TokenType::Return,
            TokenType::Boolean(x) => TokenType::Boolean(*x),
            TokenType::String(s) => TokenType::String(copy_string(s)),
            TokenType::Int(x) => TokenType::Int(*x),
            TokenType::Whitespace => TokenType::Whitespace,
            TokenType::PlusSign => TokenType::PlusSign,
            TokenType::MinusSign => TokenType::MinusSign,
            TokenType::MultiplicationSign => TokenType::MultiplicationSign,
            TokenType::ExponentSign => TokenType::ExponentSign,
            TokenType::SlashSign => TokenType::SlashSign,
            TokenType::Asssign => TokenType::Asssign,
            TokenType::BangSign => TokenType::BangSign,
            TokenType::LT => TokenType::LT,
            TokenType::GT => TokenType::GT,
            TokenType::Lte => TokenType::Lte,
            TokenType::Gte => TokenType::Gte,
            TokenType::Eq => TokenType::Eq,
            TokenType::NotEq => TokenType::NotEq,
            TokenType::And => TokenType::And,
            TokenType::Or => TokenType::Or,
            TokenType::While => TokenType::While,
        }
    }
}

/// A lexed token.
#[derive(Debug, PartialEq, Clone)]
pub struct Token {
    pub kind: TokenType,
}

impl Token {
    pub open spec fn view(&self) -> SToken {
        self.kind@
    }

    /// A copy of this token.
    pub fn copy(&self) -> (r: Token)
        ensures
            r@ == self@,
    {
        Token { kind: self.kind.copy() }
    }

    pub fn new(tt: TokenType) -> (r: Self)
        ensures
            r@ == tt@,
    {
        Self { kind: tt }
    }

    pub fn new_let() -> (r: Self)
        ensures
            r@ == tok(TokenKind::Let),
    {
        Self { kind: TokenType::Let }
    }

    pub fn eof() -> (r: Self)
        ensures
            r@ == tok(TokenKind::Eof),
    {
        Self { kind: TokenType::Eof }
    }

    pub fn whitespace() -> (r: Self)
        ensures
            r@ == tok(TokenKind::Whitespace),
    {
        Self { kind: TokenType::Whitespace }
    }

    pub fn assign_sign() -> (r: Self)
        ensures
            r@ == tok(TokenKind::Asssign),
    {
        Self { kind: TokenType::Asssign }
    }

    pub fn semicolon() -> (r: Self)
        ensures
            r@ == tok(TokenKind::Semicolon),
    {
        Self { kind: TokenType::Semicolon }
    }

    pub fn left_paren() -> (r: Self)
        ensures
            r@ == tok(TokenKind::LeftParen),
    {
        Self { kind: TokenType::LeftParen }
    }

    pub fn right_paren() -> (r: Self)
        ensures
            r@ == tok(TokenKind::RightParen),
    {
        Self { kind: TokenType::RightParen }
    }

    pub fn left_brace() -> (r: Self)
        ensures
            r@ == tok(TokenKind::LeftBrace),
    {
        Self { kind: TokenType::LeftBrace }
    }

    pub fn right_brace() -> (r: Self)
        ensures
            r@ == tok(TokenKind::RightBrace),
    {
        Self { kind: TokenType::RightBrace }
    }

    pub fn left_bracket() -> (r: Self)
        ensures
            r@ == tok(TokenKind::LeftBracket),
    {
        Self { kind: TokenType::LeftBracket }
    }

    pub fn right_bracket() -> (r: Self)
        ensures
            r@ == tok(TokenKind::RightBracket),
    {
        Self { kind: TokenType::RightBracket }
    }

    pub fn function() -> (r: Self)
        ensures
            r@ == tok(TokenKind::Function),
    {
        Self { kind: TokenType::Function }
    }

    pub fn comma() -> (r: Self)
        ensures
            r@ == tok(TokenKind::Comma),
    {
        Self { kind: TokenType::Comma }
    }

    pub fn bang() -> (r: Self)
        ensures
            r@ == tok(TokenKind::BangSign),
    {
        Self { kind: TokenType::BangSign }
    }

    pub fn lt() -> (r: Self)
        ensures
            r@ == tok(TokenKind::LT),
    {
        Self { kind: TokenType::LT }
    }

    pub fn gt() -> (r: Self)
        ensures
            r@ == tok(TokenKind::GT),
    {
        Self { kind: TokenType::GT }
    }

    pub fn lte() -> (r: Self)
        ensures
            r@ == tok(TokenKind::Lte),
    {
        Self { kind: TokenType::Lte }
    }

    pub fn gte() -> (r: Self)
        ensures
            r@ == tok(TokenKind::Gte),
    {
        Self { kind: TokenType::Gte }
    }

    pub fn integer(n: i64) -> (r: Self)
        ensures
            r@ == (SToken { kind: TokenKind::Int, val: TokVal::Int(n) }),
    {
        Self { kind: TokenType::Int(n) }
    }

    pub fn identifier(symbol: Symbol) -> (r: Self)
        ensures
            r@ == (SToken { kind: TokenKind::Identifier, val: TokVal::Ident(symbol) }),
    {
        Self { kind: TokenType::Identifier(symbol) }
    }

    pub fn string(string: String) -> (r: Self)
        ensures
            r@ == (SToken { kind: TokenKind::String, val: TokVal::Str(string@) }),
    {
        Self { kind: TokenType::String(copy_string(&string)) }
    }

    pub fn boolean(b: bool) -> (r: Self)
        ensures
            r@ == (SToken { kind: TokenKind::Boolean, val: TokVal::Bool(b) }),
    {
        Self { kind: TokenType::Boolean(b) }
    }

    pub fn colon() -> (r: Self)
        ensures
            r@ == tok(TokenKind::Colon),
    {
        Self { kind: TokenType::Colon }
    }

    pub fn illegal() -> (r: Self)
        ensures
            r@ == tok(TokenKind::Illegal),
    {
        Self { kind: TokenType::Illegal }
    }

    pub fn and() -> (r: Self)
        ensures
            r@ == tok(TokenKind::And),
    {
        Self { kind: TokenType::And }
    }

    pub fn or() -> (r: Self)
        ensures
            r@ == tok(TokenKind::Or),
    {
        Self { kind: TokenType::Or }
    }

    pub fn while_token() -> (r: Self)
        ensures
            r@ == tok(TokenKind::While),
    {
        Self { kind: TokenType::While }
    }

    pub fn dot() -> (r: Self)
        ensures
            r@ == tok(TokenKind::Dot),
    {
        Self { kind: TokenType::Dot }
    }

}

/// The name of a token kind, as `{:?}` prints it.
pub open spec fn kind_name(k: TokenKind) -> Seq<char> {
    match k {
        TokenKind::Comma => "Comma"@,
        TokenKind::Dot => "Dot"@,
        TokenKind::Semicolon => "Semicolon"@,
        TokenKind::Colon => "Colon"@,
        TokenKind::Eof => "Eof"@,
        TokenKind::Identifier => "Identifier"@,
        TokenKind::LeftParen => "LeftParen"@,
        TokenKind::RightParen => "RightParen"@,
        TokenKind::LeftBrace => "LeftBrace"@,
        TokenKind::RightBrace => "RightBrace"@,
        TokenKind::LeftBracket => "LeftBracket"@,
        TokenKind::RightBracket => "RightBracket"@,
        TokenKind::Illegal => "Illegal"@,
        TokenKind::Let => "Let"@,
        TokenKind::Function => "Function"@,
        TokenKind::If => "If"@,
        TokenKind::Else => "Else"@,
        TokenKind::Return => "Return"@,
        TokenKind::Boolean => "Boolean"@,
        TokenKind::String => "String"@,
        TokenKind::Int => "Int"@,
        TokenKind::Whitespace => "Whitespace"@,
        TokenKind::PlusSign => "PlusSign"@,
        TokenKind::MinusSign => "MinusSign"@,
        TokenKind::MultiplicationSign => "MultiplicationSign"@,
        TokenKind::ExponentSign => "ExponentSign"@,
        TokenKind::SlashSign => "SlashSign"@,
        TokenKind::Asssign => "Asssign"@,
        TokenKind::BangSign => "BangSign"@,
        TokenKind::LT => "LT"@,
        TokenKind::GT => "GT"@,
        TokenKind::Lte => "Lte"@,
        TokenKind::Gte => "Gte"@,
        TokenKind::Eq => "Eq"@,
        TokenKind::NotEq => "NotEq"@,
        TokenKind::And => "And"@,
        TokenKind::Or => "Or"@,
        TokenKind::While => "While"@,
    }
}

/// How `{:?}` prints a token's kind and value.
pub open spec fn tok_debug(t: SToken) -> Seq<char> {
    match t.val {
        TokVal::Ident(s) => "Identifier(Symbol("@ + nat_str(s.0 as nat) + "))"@,
        TokVal::Bool(b) => "Boolean("@ + (if b { "true"@ } else { "false"@ }) + ")"@,
        TokVal::Str(s) => "String("@ + str_debug(s) + ")"@,
        TokVal::Int(n) => "Int("@ + int_str(n as int) + ")"@,
        TokVal::Unit => kind_name(t.kind),
    }
}

/// How `{:?}` prints a whole token.
pub open spec fn token_debug(t: SToken) -> Seq<char> {
    "Token { kind: "@ + tok_debug(t) + " }"@
}

impl TokenType {
    /// The text `{:?}` prints for this token kind and value.
    pub fn debug_text(&self) -> (r: String)
        ensures
            r@ == tok_debug(self@),
    {
        let mut s = String::new();
        match self {
            TokenType::Identifier(v) => {
                push_str(&mut s, "Identifier(Symbol(");
                let t = nat_to_string(v.0 as u64);
                push_str(&mut s, t.as_str());
                push_str(&mut s, "))");
            },
            TokenType::Boolean(b) => {
                push_str(&mut s, "Boolean(");
                push_str(&mut s, if *b { "true" } else { "false" });
                push_str(&mut s, ")");
            },
            TokenType::String(x) => {
                push_str(&mut s, "String(");
                let t = debug_string(x.as_str());
                push_str(&mut s, t.as_str());
                push_str(&mut s, ")");
            },
            TokenType::Int(n) => {
                push_str(&mut s, "Int(");
                let t = int_to_string(*n);
                push_str(&mut s, t.as_str());
                push_str(&mut s, ")");
            },
            TokenType::Comma => { push_str(&mut s, "Comma"); },
            TokenType::Dot => { push_str(&mut s, "Dot"); },
            TokenType::Semicolon => { push_str(&mut s, "Semicolon"); },
            TokenType::Colon => { push_str(&mut s, "Colon"); },
            TokenType::Eof => { push_str(&mut s, "Eof"); },
            TokenType::LeftParen => { push_str(&mut s, "LeftParen"); },
            TokenType::RightParen => { push_str(&mut s, "RightParen"); },
            TokenType::LeftBrace => { push_str(&mut s, "LeftBrace"); },
            TokenType::RightBrace => { push_str(&mut s, "RightBrace"); },
            TokenType::LeftBracket => { push_str(&mut s, "LeftBracket"); },
            TokenType::RightBracket => { push_str(&mut s, "RightBracket"); },
            TokenType::Illegal => { push_str(&mut s, "Illegal"); },
            TokenType::Let => { push_str(&mut s, "Let"); },
            TokenType::Function => { push_str(&mut s, "Function"); },
            TokenType::If => { push_str(&mut s, "If"); },
            TokenType::Else => { push_str(&mut s, "Else"); },
            TokenType::Return => { push_str(&mut s, "Return"); },
            TokenType::Whitespace => { push_str(&mut s, "Whitespace"); },
            TokenType::PlusSign => { push_str(&mut s, "PlusSign"); },
            TokenType::MinusSign => { push_str(&mut s, "MinusSign"); },
            TokenType::MultiplicationSign => { push_str(&mut s, "MultiplicationSign"); },
            TokenType::ExponentSign => { push_str(&mut s, "ExponentSign"); },
            TokenType::SlashSign => { push_str(&mut s, "SlashSign"); },
            TokenType::Asssign => { push_str(&mut s, "Asssign"); },
            TokenType::BangSign => { push_str(&mut s, "BangSign"); },
            TokenType::LT => { push_str(&mut s, "LT"); },
            TokenType::GT => { push_str(&mut s, "GT"); },
            TokenType::Lte => { push_str(&mut s, "Lte"); },
            TokenType::Gte => { push_str(&mut s, "Gte"); },
            TokenType::Eq => { push_str(&mut s, "Eq"); },
            TokenType::NotEq => { push_str(&mut s, "NotEq"); },
            TokenType::And => { push_str(&mut s, "And"); },
            TokenType::Or => { push_str(&mut s, "Or"); },
            TokenType::While => { push_str(&mut s, "While"); },
        }
        assert(s@ =~= tok_debug(self@));
        s
    }
}

impl Token {
    /// The text `{:?}` prints for this token.
    pub fn debug_text(&self) -> (r: String)
        ensures
            r@ == token_debug(self@),
    {
        let mut s = String::new();
        push_str(&mut s, "Token { kind: ");
        let t = self.kind.debug_text();
        push_str(&mut s, t.as_str());
        push_str(&mut s, " }");
        assert(s@ =~= token_debug(self@));
        s
    }
}

} // verus!
