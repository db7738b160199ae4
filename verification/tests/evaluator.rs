use dang::ast::parser::Parser;
use dang::eval::env::Environment;
use dang::intern::interner::Interner;

#[test]
fn evaluator_eval_integer_expression() {
        let mut interner = Interner::new();
        let mut env = Environment::new(&mut interner);
        let inputs = [
            "5;",
            "10;",
            "-10;",
            "-5;",
            "5 + 5 + 5 + 5 - 10;",
            "2 * 2 * 2 * 2 * 2;",
            "50 / 2 * 2 + 10;",
            "3 * (3 * 3) + 10;",
            "(5 + 10 * 2 + 15 / 3) * 2 + -10;",
        ];
        let expected = ["5", "10", "-10", "-5", "10", "32", "60", "37", "50"];

        for (i, input) in inputs.iter().enumerate() {
            let program = Parser::build_ast(input, &mut interner);
            let result = program.eval_statements(&mut env, &mut interner);
            assert_eq!(result.text(&interner), expected.get(i).unwrap().to_string());
        }
    }

#[test]
fn evaluator_eval_boolean_expression() {
        let mut interner = Interner::new();
        let mut env = Environment::new(&mut interner);
        let inputs = [
            "true;",
            "false;",
            "1 < 2;",
            "1 > 2;",
            "1 == 2;",
            "1 != 2;",
            "true == true;",
            "true != true;",
            "1 + 2 == 3;",
            "1 + 2 == 2 + 1;",
        ];
        let expected = [
            "true", "false", "true", "false", "false", "true", "true", "false", "true", "true",
        ];

        for (i, input) in inputs.iter().enumerate() {
            let program = Parser::build_ast(input, &mut interner);
            let result = program.eval_statements(&mut env, &mut interner);
            assert_eq!(result.text(&interner), expected.get(i).unwrap().to_string());
        }
    }

#[test]
fn evaluator_eval_bang_expression() {
        let mut interner = Interner::new();
        let mut env = Environment::new(&mut interner);
        let inputs = ["!true;", "!false;", "!!true;", "!!false;"];
        let expected = ["false", "true", "true", "false"];
        for (i, input) in inputs.iter().enumerate() {
            let program = Parser::build_ast(input, &mut interner);
            let result = program.eval_statements(&mut env, &mut interner);
            assert_eq!(result.text(&interner), expected.get(i).unwrap().to_string());
        }
    }

#[test]
fn evaluator_eval_if_else_expression() {
        let mut interner = Interner::new();
        let mut env = Environment::new(&mut interner);
        let inputs = [
            "if (true) { 10 };",
            "if (true) { 10 } else { 20 };",
            "if (false) { 10 } else { 20 }",
        ];
        let expected = ["10", "10", "20"];
        for (i, input) in inputs.iter().enumerate() {
            let program = Parser::build_ast(input, &mut interner);
            let result = program.eval_statements(&mut env, &mut interner);
            assert_eq!(result.text(&interner), expected.get(i).unwrap().to_string());
        }
    }

#[test]
fn evaluator_eval_return_statement() {
        let mut interner = Interner::new();
        let mut env = Environment::new(&mut interner);
        let inputs = [
            "return 10;",
            "return 2 * 5;",
            "return 2 * 5; 9;",
            "
            if (10 > 1) {
                if (10 > 1) {
                    return 10;
                }
                return 1;
            }
            ",
        ];
        let expected = ["10", "10", "10", "10"];

        for (i, input) in inputs.iter().enumerate() {
            let program = Parser::build_ast(input, &mut interner);
            let result = program.eval_statements(&mut env, &mut interner);
            assert_eq!(result.text(&interner), expected.get(i).unwrap().to_string());
        }
    }

#[test]
fn evaluator_eval_let_statements() {
        let mut interner = Interner::new();
        let mut env = Environment::new(&mut interner);
        let inputs = [
            "let a = 5; a;",
            "let a = 5 * 5; a;",
            "let a = 5; let b = a; b;",
            "let a = 5; let b = a; let c = a + b + 5; c;",
        ];
        let expected = ["5", "25", "5", "15", "identifier not found: foobar"];

        for (i, input) in inputs.iter().enumerate() {
            let program = Parser::build_ast(input, &mut interner);
            let result = program.eval_statements(&mut env, &mut interner);
            assert_eq!(result.text(&interner), expected.get(i).unwrap().to_string());
        }
    }
