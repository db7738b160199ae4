//! Infix arithmetic and comparison on two evaluated operands, selected by the
//! operator's token.
use vstd::prelude::*;
use crate::lex::token::{Token, TokenKind};
use crate::eval::object::{Object, SObj};

verus! {

/// The operand and operator combinations `eval_infix_expression` accepts: two
/// numbers with `+ - * / == != > <` (arithmetic whose result fits in an `i64`,
/// division by a non-zero number), or two booleans with `== !=`.
pub open spec fn infix_accepted(l: SObj, r: SObj, k: TokenKind) -> bool {
    match (l, r) {
        (SObj::Number(a), SObj::Number(b)) => match k {
            TokenKind::PlusSign => a.checked_add(b) is Some,
            TokenKind::MinusSign => a.checked_sub(b) is Some,
            TokenKind::MultiplicationSign => a.checked_mul(b) is Some,
            TokenKind::SlashSign => a.checked_div(b) is Some,
            TokenKind::Eq => true,
            TokenKind::NotEq => true,
            TokenKind::GT => true,
            TokenKind::LT => true,
            _ => false,
        },
        (SObj::Boolean(a), SObj::Boolean(b)) => k == TokenKind::Eq || k == TokenKind::NotEq,
        _ => false,
    }
}

/// The value of an accepted combination.
pub open spec fn infix_value(l: SObj, r: SObj, k: TokenKind) -> SObj {
    match (l, r) {
        (SObj::Number(a), SObj::Number(b)) => match k {
            TokenKind::PlusSign => SObj::Number(a.checked_add(b)->0),
            TokenKind::MinusSign => SObj::Number(a.checked_sub(b)->0),
            TokenKind::MultiplicationSign => SObj::Number(a.checked_mul(b)->0),
            TokenKind::SlashSign => SObj::Number(a.checked_div(b)->0),
            TokenKind::Eq => SObj::Boolean(a == b),
            TokenKind::NotEq => SObj::Boolean(a != b),
            TokenKind::GT => SObj::Boolean(a > b),
            _ => SObj::Boolean(a < b),
        },
        (SObj::Boolean(a), SObj::Boolean(b)) => if k == TokenKind::Eq {
            SObj::Boolean(a == b)
        } else {
            SObj::Boolean(a != b)
        },
        _ => SObj::Nil,
    }
}

/// Applies the operator of `operator` to two operands.
pub fn eval_infix_expression(left: &Object, right: &Object, operator: &Token) -> (r: Object)
    requires
        infix_accepted(left@, right@, operator@.kind),
    ensures
        r@ == infix_value(left@, right@, operator@.kind),
{
    let k = operator.kind.to_token_kind();
    match (left, right) {
        (Object::Number(a), Object::Number(b)) => {
            let a = *a;
            let b = *b;
            match k {
                TokenKind::PlusSign => Object::Number(a + b),
                TokenKind::MinusSign => Object::Number(a - b),
                TokenKind::MultiplicationSign => Object::Number(a * b),
                TokenKind::SlashSign => match a.checked_div(b) {
                    Some(q) => Object::Number(q),
                    None => Object::Nil,
                },
                TokenKind::Eq => Object::Boolean(a == b),
                TokenKind::NotEq => Object::Boolean(a != b),
                TokenKind::GT => Object::Boolean(a > b),
                _ => Object::Boolean(a < b),
            }
        },
        (Object::Boolean(a), Object::Boolean(b)) => {
            if k == TokenKind::Eq {
                Object::Boolean(*a == *b)
            } else {
                Object::Boolean(*a != *b)
            }
        },
        _ => Object::Nil,
    }
}

} // verus!
