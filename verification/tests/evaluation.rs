use dang::ast::expression::{Expression, Operator};
use dang::ast::literal::Literal;
use dang::ast::parser::Parser;
use dang::compiler::symbol_table::{SymbolScope, SymbolTable};
use dang::eval::env::Environment;
use dang::eval::evaluate::{eval_block, eval_function_block};
use dang::eval::evaluator::eval_infix_expression;
use dang::eval::object::{CustomHash, HashKey, Object};
use dang::intern::display::WithInterner;
use dang::intern::interner::Interner;
use dang::lex::token::Token;

fn eval_all(inputs: &[&str]) -> Vec<String> {
    let mut interner = Interner::new();
    let mut env = Environment::new(&mut interner);
    let mut out = Vec::new();
    for input in inputs {
        let program = Parser::build_ast(input, &mut interner);
        let result = program.eval_statements(&mut env, &mut interner);
        out.push(result.text(&interner));
    }
    out
}

fn eval_one(input: &str) -> String {
    eval_all(&[input]).remove(0)
}

#[test]
fn interner_gives_back_names() {
    let mut interner = Interner::new();
    let a = interner.intern("alpha");
    let b = interner.intern("beta");
    let a2 = interner.intern("alpha");
    assert_eq!(a, a2);
    assert_ne!(a, b);
    assert_eq!(interner.resolve(a), "alpha");
    assert_eq!(interner.resolve(b), "beta");
    assert_eq!(interner.len(), 2);
}

#[test]
fn environment_set_then_get() {
    let mut interner = Interner::new();
    let mut env = Environment::new(&mut interner);
    let x = interner.intern("x");
    let y = interner.intern("y");
    env.set(0, x, Object::Number(1));
    env.set(0, y, Object::Number(2));
    env.set(0, x, Object::Number(3));
    assert_eq!(env.get(0, x), Some(Object::Number(3)));
    assert_eq!(env.get(0, y), Some(Object::Number(2)));
}

#[test]
fn enclosed_frame_sees_and_shadows_parent() {
    let mut interner = Interner::new();
    let mut env = Environment::new(&mut interner);
    let x = interner.intern("x");
    env.set(0, x, Object::Number(1));
    let inner = env.new_enclosed(0);
    assert_eq!(env.get(inner, x), Some(Object::Number(1)));
    env.set(inner, x, Object::Number(5));
    assert_eq!(env.get(inner, x), Some(Object::Number(5)));
    assert_eq!(env.get(0, x), Some(Object::Number(1)));
    assert_eq!(env.get(99, x), None);
}

#[test]
fn builtins_are_bound_in_the_global_frame() {
    let mut interner = Interner::new();
    let env = Environment::new(&mut interner);
    let len = interner.intern("len");
    assert!(matches!(env.get(0, len), Some(Object::Builtin { .. })));
    assert_eq!(env.frame_count(), 1);
}

#[test]
fn let_then_lookup_reads_back_the_value() {
    assert_eq!(eval_all(&["let q = 6 * 7;", "q"]), vec!["42", "42"]);
}

#[test]
fn function_call_returns_unwrapped_value() {
    let mut interner = Interner::new();
    let mut env = Environment::new(&mut interner);
    let program = Parser::build_ast("fn f() { if (true) { return 3; } return 4; }; f();", &mut interner);
    let result = program.eval_statements(&mut env, &mut interner);
    assert_eq!(result, Object::Number(3));
    assert!(env.frame_count() >= 2);
}

#[test]
fn function_without_return_gives_none() {
    assert_eq!(eval_one("fn f() { 1 + 1; }; f();"), "None");
}

#[test]
fn arithmetic_overflow_is_an_error() {
    assert_eq!(
        eval_one("9223372036854775807 + 1"),
        "error: Can only perform operation + on (numbers), got: 9223372036854775807 and 1 "
    );
    assert_eq!(eval_one("1 / 0"), "error: Can only perform operation / on (numbers), got: 1 and 0 ");
    assert_eq!(eval_one("7 / -2"), "-3");
}

#[test]
fn type_errors() {
    assert_eq!(eval_one("1 + true"), "error: Can only perform operation + on numbers, got: 1 and true ");
    assert_eq!(eval_one("1 == true"), "error: Can only perform operation == on (numbers | boolean), got: 1 and true ");
    assert_eq!(eval_one("!5"), "error: expected Boolean, got: 5");
    assert_eq!(eval_one("-true"), "error: expected Number, got: true");
    assert_eq!(eval_one("if (1) { 2 }"), "error: condition did not evaluate to boolean");
}

#[test]
fn exponent() {
    assert_eq!(eval_one("2 ** 10"), "1024");
    assert_eq!(eval_one("2 ** 3 ** 2"), "512");
    assert_eq!(eval_one("2 ** 64"), "error: Can only perform operation ** on (numbers), got: 2 and 64 ");
    assert_eq!(eval_one("true ** 2"), "error: Can only perform operation ** on (numbers | boolean), got: true and 2 ");
}

#[test]
fn builtins() {
    assert_eq!(eval_one("len(\"héllo\")"), "6");
    assert_eq!(eval_one("len(1, 2)"), "error: 'len' does not accept more than 1 argument, got: [Number(1), Number(2)]");
    assert_eq!(eval_one("first([])"), "None");
    assert_eq!(eval_one("last([1, 2, 3])"), "3");
    assert_eq!(eval_one("first(\"ab\")"), "error: invalid argument, got: [String(\"ab\")]");
}

#[test]
fn print_collects_lines() {
    let mut interner = Interner::new();
    let mut env = Environment::new(&mut interner);
    let program = Parser::build_ast("print(1, \"two\", [3]); print(true);", &mut interner);
    let result = program.eval_statements(&mut env, &mut interner);
    assert_eq!(result, Object::Nil);
    assert_eq!(env.output().clone(), vec![String::from("1 \"two\" [ 3 ]"), String::from("true")]);
    assert_eq!(env.take_output().len(), 2);
    assert!(env.output().is_empty());
}

#[test]
fn indexing() {
    assert_eq!(eval_one("[1, 2, 3][5]"), "None");
    assert_eq!(eval_one("[1, 2, 3][-1]"), "None");
    assert_eq!(eval_one("[1, 2, 3][true]"), "error: invalid index, got [Boolean(true)]");
    assert_eq!(eval_one("{\"a\": 1}[[1]]"), "error: Index is not hashable, got [Array([Number(1)])]");
    assert_eq!(eval_one("{true: 1}[true]"), "1");
    assert_eq!(eval_one("5[0]"), "error: not supported, got: Number(5), Array([Number(0)])");
}

#[test]
fn hash_maps() {
    assert_eq!(eval_one("{[1]: 2}"), "error: Key is not hashable, got [ 1 ]");
    assert_eq!(eval_one("{\"a\": 1, \"a\": 2}"), "{ \"a\" : 2 }");
    assert_eq!(eval_one("let h = {\"k\": 5}; h.k;"), "5");
}

#[test]
fn call_errors() {
    assert_eq!(eval_one("fn f(a, b) { return a; }; f(1)"), "error: Missing parameter: 1");
    assert_eq!(eval_one("5(1)"), "error: not a valid call Call Number (5) , Number (1) ");
    assert_eq!(eval_one("nope"), "error: identifier not found: nope");
}

#[test]
fn dot_on_non_map() {
    let mut interner = Interner::new();
    let mut env = Environment::new(&mut interner);
    let program = Parser::build_ast("let n = 1; n.size;", &mut interner);
    let size = interner.intern("size");
    let result = program.eval_statements(&mut env, &mut interner);
    assert_eq!(
        result.text(&interner),
        format!("error: Cannot read Symbol({}) propertie of Ident (n)", size.0)
    );
}

#[test]
fn assignment_in_function_shadows() {
    assert_eq!(eval_one("let x = 1; fn f() { x = 2; return x; }; f(); x"), "1");
    assert_eq!(eval_one("let x = 1; x = 2; x"), "2");
}

#[test]
fn display_of_values() {
    assert_eq!(eval_one("\"hi\""), "\"hi\"");
    assert_eq!(eval_one("[1, [true, \"s\"]]"), "[ 1, [ true, \"s\" ] ]");
    assert_eq!(eval_one("fn (a, b) { return a; }"), "Fn ( a, b ) { Return Ident (a) }");
    assert_eq!(eval_one("len"), "");
}

#[test]
fn with_interner_prints_values_and_trees() {
    let mut interner = Interner::new();
    let program = Parser::build_ast("let a = 1 + 2;", &mut interner);
    let text = WithInterner { value: &program.statements[0], interner: &interner }.to_string();
    assert_eq!(text, "Let a + Left Number (1) , Right Number (2)");
    let obj = Object::Array(vec![Object::Number(1), Object::Boolean(false)]);
    assert_eq!(WithInterner { value: &obj, interner: &interner }.to_string(), "[ 1, false ]");
}

#[test]
fn blocks_and_function_blocks() {
    let mut interner = Interner::new();
    let mut env = Environment::new(&mut interner);
    let program = Parser::build_ast("1; return 2; 3;", &mut interner);
    let r = eval_block(&program.statements, &mut env, 0, &interner);
    assert_eq!(r, Object::Return(Box::new(Object::Number(2))));
    let r = eval_function_block(&program.statements, &mut env, 0, &interner);
    assert_eq!(r, Some(Object::Number(2)));
    let program = Parser::build_ast("1; 3;", &mut interner);
    assert_eq!(eval_function_block(&program.statements, &mut env, 0, &interner), None);
    assert_eq!(eval_block(&program.statements, &mut env, 0, &interner), Object::Number(3));
}

#[test]
fn expression_and_statement_eval() {
    let interner = Interner::new();
    let mut interner2 = Interner::new();
    let mut env = Environment::new(&mut interner2);
    let e = Expression::Infix(
        Operator::Multiply,
        Box::new(Expression::Literal(Literal::Number(6))),
        Box::new(Expression::Literal(Literal::Number(7))),
    );
    assert_eq!(e.eval(&mut env, 0, &interner), Object::Number(42));
}

#[test]
fn hash_keys_tell_values_apart() {
    let k2 = Object::Number(2).hash().unwrap();
    let k3 = Object::Number(3).hash().unwrap();
    assert_ne!(k2.value, k3.value);
    assert_eq!(Object::Number(-12).hash().unwrap().value, "-12");
    assert_eq!(Object::Boolean(true).hash().unwrap(), HashKey::new(String::from("true")));
    assert!(Object::Nil.hash().is_none());
}

#[test]
fn old_infix_evaluation() {
    let r = eval_infix_expression(&Object::Number(6), &Object::Number(3), &Token::new(dang::lex::token::TokenType::SlashSign));
    assert_eq!(r, Object::Number(2));
    let r = eval_infix_expression(&Object::Boolean(true), &Object::Boolean(false), &Token::new(dang::lex::token::TokenType::NotEq));
    assert_eq!(r, Object::Boolean(true));
    let r = eval_infix_expression(&Object::Number(1), &Object::Number(2), &Token::lt());
    assert_eq!(r, Object::Boolean(true));
}

#[test]
fn symbol_table_redefinition() {
    let mut table = SymbolTable::new();
    let a = dang::intern::interner::Symbol(4);
    table.define(&a);
    let second = table.define(&a);
    assert_eq!(second.index, 1);
    assert_eq!(second.scope, SymbolScope::GlobalScope);
    assert_eq!(table.resolve(&a), Some(second));
    assert_eq!(table.resolve(&dang::intern::interner::Symbol(5)), None);
}

#[test]
fn while_loop_runs_until_condition_fails() {
    assert_eq!(eval_one("let i = 0; while (i < 3) { i = i + 1; } i"), "3");
    assert_eq!(eval_one("while (false) { 1; }"), "None");
}

#[test]
fn objects_compare_structurally() {
    let a = Object::Array(vec![Object::Number(1), Object::String(String::from("x"))]);
    let b = Object::Array(vec![Object::Number(1), Object::String(String::from("x"))]);
    let c = Object::Array(vec![Object::Number(1)]);
    assert!(a.equals(&b));
    assert!(!a.equals(&c));
    assert_eq!(a.debug_text(), "Array([Number(1), String(\"x\")])");
}

#[test]
fn attribute_that_is_not_a_name() {
    let mut interner = Interner::new();
    let program = Parser::build_ast("a.5;", &mut interner);
    assert_eq!(
        program.statements[0],
        dang::ast::statement::Statement::Expression(Expression::Error(String::from(
            "Attribute is not valid, got Literal(Number(5))"
        )))
    );
}

#[test]
fn debug_text_of_trees() {
    let mut interner = Interner::new();
    let program = Parser::build_ast("fn f(x) { return x[1]; }; while (true) { \"s\"; }", &mut interner);
    assert_eq!(
        program.statements[0].debug_text(),
        format!("{:?}", program.statements[0])
    );
    assert_eq!(
        program.statements[1].debug_text(),
        format!("{:?}", program.statements[1])
    );
    let e = Expression::Infix(
        Operator::And,
        Box::new(Expression::Literal(Literal::Boolean(true))),
        Box::new(Expression::Identifier(dang::intern::interner::Symbol(3))),
    );
    assert_eq!(e.debug_text(), format!("{:?}", e));
}
