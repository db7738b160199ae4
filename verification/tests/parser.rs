use dang::ast::expression::{Expression, Operator};
use dang::ast::literal::Literal;
use dang::ast::parser::Parser;
use dang::ast::statement::Statement;
use dang::intern::display::WithInterner;
use dang::intern::interner::Interner;

#[test]
fn parse_let_statement() {
        let mut interner = Interner::new();
        let input = "
        let x = 5;
        let y = 100;
        let foobar = y;
        let barfoo = false;
        let myString = \"My string\";
        ";
        let expected = [
            "Let x Number (5)",
            "Let y Number (100)",
            "Let foobar Ident (y)",
            "Let barfoo Bool (false)",
            "Let myString String (My string)",
        ];

        let result = Parser::build_ast(input, &mut interner);

        for (i, curr) in result.statements.iter().enumerate() {
            assert_eq!(
                WithInterner {
                    value: curr,
                    interner: &interner
                }
                .to_string(),
                expected.get(i).unwrap().to_string()
            );
        }
    }

#[test]
fn parse_return_statement() {
        let mut interner = Interner::new();

        let input = "
        return 5;
        return 100;
        return foobar + 2;
        ";

        let expected = [
            "Return Number (5)",
            "Return Number (100)",
            "Return + Left Ident (foobar) , Right Number (2)",
        ];
        let result = Parser::build_ast(input, &mut interner);

        for (i, curr) in result.statements.iter().enumerate() {
            assert_eq!(
                WithInterner {
                    value: curr,
                    interner: &interner
                }
                .to_string(),
                expected.get(i).unwrap().to_string()
            );
        }
    }

#[test]
fn parse_prefix_expression() {
        let mut interner = Interner::new();

        let input = "
        !5;
        -15;
        !foobar;
        -foobar;
        !true;
        !false;
        5;
        ";

        let expected = [
            "! Number (5)",
            "- Number (15)",
            "! Ident (foobar)",
            "- Ident (foobar)",
            "! Bool (true)",
            "! Bool (false)",
            "Number (5)",
        ];

        let result = Parser::build_ast(input, &mut interner);

        for (i, curr) in result.statements.iter().enumerate() {
            assert_eq!(
                WithInterner {
                    value: curr,
                    interner: &interner
                }
                .to_string(),
                expected.get(i).unwrap().to_string()
            );
        }
    }

#[test]
fn parse_infix_expression() {
        let mut interner = Interner::new();

        let input = "
        5 + 5;
        5 - 5;
        5 * 5;
        5 / 5;
        5 > 5;
        5 < 5;
        5 == 5;
        5 != 5;
        5 >= 5;
        5 <= 5;
        false && true;
        true || true;
        foobar + foobar;
        bar - bar;
        bar * bar;
        true == true;
        false != true;
        5 + 5 * 5;
        -1 + 2;
        a + b * c + d / e - f;
        3 > 5 == false;
        ";

        let expected = [
            "+ Left Number (5) , Right Number (5)",
            "- Left Number (5) , Right Number (5)",
            "* Left Number (5) , Right Number (5)",
            "/ Left Number (5) , Right Number (5)",
            "> Left Number (5) , Right Number (5)",
            "< Left Number (5) , Right Number (5)",
            "== Left Number (5) , Right Number (5)",
            "!= Left Number (5) , Right Number (5)",
            ">= Left Number (5) , Right Number (5)",
            "<= Left Number (5) , Right Number (5)",
            "&& Left Bool (false) , Right Bool (true)",
            "|| Left Bool (true) , Right Bool (true)",
            "+ Left Ident (foobar) , Right Ident (foobar)",
            "- Left Ident (bar) , Right Ident (bar)",
            "* Left Ident (bar) , Right Ident (bar)",
            "== Left Bool (true) , Right Bool (true)",
            "!= Left Bool (false) , Right Bool (true)",
            "+ Left Number (5) , Right * Left Number (5) , Right Number (5)",
            "+ Left - Number (1) , Right Number (2)",
            "- Left + Left + Left Ident (a) , Right * Left Ident (b) , Right Ident (c) , Right / Left Ident (d) , Right Ident (e) , Right Ident (f)",
            "== Left > Left Number (3) , Right Number (5) , Right Bool (false)",
        ];

        let result = Parser::build_ast(input, &mut interner);

        for (i, curr) in result.statements.iter().enumerate() {
            assert_eq!(
                WithInterner {
                    value: curr,
                    interner: &interner
                }
                .to_string(),
                expected.get(i).unwrap().to_string()
            );
        }
    }

#[test]
fn parse_grouped_expression() {
        let mut interner = Interner::new();

        let input = "
        1 + (2 + 3) + 4;
        (5 + 5) * 2;
        2 / (5 + 5);
        -(5 + 5);
        ";

        let expected = [
            "+ Left + Left Number (1) , Right + Left Number (2) , Right Number (3) , Right Number (4)",
            "* Left + Left Number (5) , Right Number (5) , Right Number (2)",
            "/ Left Number (2) , Right + Left Number (5) , Right Number (5)",
            "- + Left Number (5) , Right Number (5)",
        ];

        let result = Parser::build_ast(input, &mut interner);

        for (i, curr) in result.statements.iter().enumerate() {
            assert_eq!(
                WithInterner {
                    value: curr,
                    interner: &interner
                }
                .to_string(),
                expected.get(i).unwrap().to_string()
            );
        }
    }

#[test]
fn parse_if_expression() {
        let mut interner = Interner::new();

        let input = "
        if (x > y) {
            return x;
        }
        ";

        let expected = ["If > Left Ident (x) , Right Ident (y) { Return Ident (x) }"];

        let result = Parser::build_ast(input, &mut interner);

        for (i, curr) in result.statements.iter().enumerate() {
            assert_eq!(
                WithInterner {
                    value: curr,
                    interner: &interner
                }
                .to_string(),
                expected.get(i).unwrap().to_string()
            );
        }
    }

#[test]
fn parse_if_else_expression() {
        let mut interner = Interner::new();

        let input = "
        if (x > y) {
            return x;
        } else {
            return y;
        }
        ";

        let expected =
            ["If > Left Ident (x) , Right Ident (y) { Return Ident (x) } else Return Ident (y)"];

        let result = Parser::build_ast(input, &mut interner);

        for (i, curr) in result.statements.iter().enumerate() {
            assert_eq!(
                WithInterner {
                    value: curr,
                    interner: &interner
                }
                .to_string(),
                expected.get(i).unwrap().to_string()
            );
        }
    }

#[test]
fn parse_function_parameters() {
        let mut interner = Interner::new();

        let input = "
        fn abc(x, y, w, z, a, b, c) { }
        ";

        let expected = ["Fn abc ( x, y, w, z, a, b, c ) "];

        let result = Parser::build_ast(input, &mut interner);

        for (i, curr) in result.statements.iter().enumerate() {
            assert_eq!(
                WithInterner {
                    value: curr,
                    interner: &interner
                }
                .to_string(),
                expected.get(i).unwrap().to_string()
            );
        }
    }

#[test]
fn parse_function_expression() {
        let mut interner = Interner::new();

        let input = "
        fn abc(x, y) {
            return x;
        }

        fn xyz(a) {
            return a + 3;
        }
        ";

        let expected = [
            "Fn abc ( x, y ) Return Ident (x)",
            "Fn xyz ( a ) Return + Left Ident (a) , Right Number (3)",
        ];
        let result = Parser::build_ast(input, &mut interner);

        for (i, curr) in result.statements.iter().enumerate() {
            assert_eq!(
                WithInterner {
                    value: curr,
                    interner: &interner
                }
                .to_string(),
                expected.get(i).unwrap().to_string()
            );
        }
    }

#[test]
fn parse_call_expression() {
        let mut interner = Interner::new();

        let input = "
        add(1, 2 * 3, 4 + 5);
        multiply (1, 2);
        ";

        let expected = [
            "Call Ident (add) , Number (1), * Left Number (2) , Right Number (3), + Left Number (4) , Right Number (5)",
            "Call Ident (multiply) , Number (1), Number (2)",
        ];
        let result = Parser::build_ast(input, &mut interner);

        for (i, curr) in result.statements.iter().enumerate() {
            assert_eq!(
                WithInterner {
                    value: curr,
                    interner: &interner
                }
                .to_string(),
                expected.get(i).unwrap().to_string()
            );
        }
    }

#[test]
fn parse_string_expression() {
        let mut interner = Interner::new();

        let input = "
        \"Hello world\";
        ";

        let expected = ["String (Hello world)"];
        let result = Parser::build_ast(input, &mut interner);

        for (i, curr) in result.statements.iter().enumerate() {
            assert_eq!(
                WithInterner {
                    value: curr,
                    interner: &interner
                }
                .to_string(),
                expected.get(i).unwrap().to_string()
            );
        }
    }

#[test]
fn parse_arrays_expression() {
        let mut interner = Interner::new();

        let input = "
        [1, 2, 3];
        let a = [\"hello\", \"world\"];
        let b = [];
        ";

        let expected = [
            "[ Number (1), Number (2), Number (3) ]",
            "Let a [ String (hello), String (world) ]",
            "Let b [  ]",
        ];
        let result = Parser::build_ast(input, &mut interner);

        for (i, curr) in result.statements.iter().enumerate() {
            assert_eq!(
                WithInterner {
                    value: curr,
                    interner: &interner
                }
                .to_string(),
                expected.get(i).unwrap().to_string()
            );
        }
    }

#[test]
fn parse_index_operators() {
        let mut interner = Interner::new();

        let input = "
        arr[1];
        [1, 2, 3][100];
        ";

        let expected = [
            "(Ident (arr) [[ Number (1) ]])",
            "([ Number (1), Number (2), Number (3) ] [[ Number (100) ]])",
        ];
        let result = Parser::build_ast(input, &mut interner);

        for (i, curr) in result.statements.iter().enumerate() {
            assert_eq!(
                WithInterner {
                    value: curr,
                    interner: &interner
                }
                .to_string(),
                expected.get(i).unwrap().to_string()
            );
        }
    }

#[test]
fn parse_hashmap_operations() {
        let mut interner = Interner::new();

        let input = "
        let a = {};
        let b = { \"one\": 1, \"two\": 2, \"three\": \"three\" };
        {\"one\": 0 + 1, \"two\": 2 * 1, \"three\": (0 + 1) * 3 }
        ";

        let expected = [
            "Let a {  }",
            "Let b { String (one) : Number (1), String (three) : String (three), String (two) : Number (2) }",
            "{ String (one) : + Left Number (0) , Right Number (1), String (three) : * Left + Left Number (0) , Right Number (1) , Right Number (3), String (two) : * Left Number (2) , Right Number (1) }",
        ];
        let result = Parser::build_ast(input, &mut interner);

        for (i, curr) in result.statements.iter().enumerate() {
            assert_eq!(
                WithInterner {
                    value: curr,
                    interner: &interner
                }
                .to_string(),
                expected.get(i).unwrap().to_string()
            );
        }
    }

#[test]
fn parse_closure() {
        let mut interner = Interner::new();

        let input = "
        let a = fn() {
            let b = fn(a) {
                return a;
            };
            return b;
        };

        let c = fn() {
            fn d(a) {
                return a;
            };
            return d;
        };
        ";

        let expected = [
            "Let a Fn (  ) Let b Fn ( a ) Return Ident (a), Return Ident (b)",
            "Let c Fn (  ) Fn d ( a ) Return Ident (a), Return Ident (d)",
        ];
        let result = Parser::build_ast(input, &mut interner);

        for (i, curr) in result.statements.iter().enumerate() {
            assert_eq!(
                WithInterner {
                    value: curr,
                    interner: &interner
                }
                .to_string(),
                expected.get(i).unwrap().to_string()
            );
        }
    }

#[test]
fn parse_while_statements() {
        let mut interner = Interner::new();

        let input = "
            while (i < 10) {
                let a = 0;
                a = 11;
            }
        ";

        let expected = [
            "while ( < Left Ident (i) , Right Number (10) ) { [Let a Number (0), = a Number (11)] }",
        ];
        let result = Parser::build_ast(input, &mut interner);

        for (i, curr) in result.statements.iter().enumerate() {
            assert_eq!(
                WithInterner {
                    value: curr,
                    interner: &interner
                }
                .to_string(),
                expected.get(i).unwrap().to_string()
            );
        }
    }

#[test]
fn parse_dot_expressions() {
        let mut interner = Interner::new();

        let input = "
            myIdentifier.myAttribute;
        ";

        let expected = ["myAttribute of Ident (myIdentifier)"];
        let result = Parser::build_ast(input, &mut interner);

        for (i, curr) in result.statements.iter().enumerate() {
            assert_eq!(
                WithInterner {
                    value: curr,
                    interner: &interner
                }
                .to_string(),
                expected.get(i).unwrap().to_string()
            );
        }
    }

#[test]
fn parse_exponent_expressions() {
        let mut interner = Interner::new();

        let input = "2**3;";
        let result = Parser::build_ast(input, &mut interner);

        assert_eq!(
            result.statements,
            vec![Statement::Expression(Expression::Infix(
                Operator::Exponent,
                Box::new(Expression::Literal(Literal::Number(2))),
                Box::new(Expression::Literal(Literal::Number(3))),
            ))]
        )
    }

#[test]
fn parse_exponent_expressions_identifier() {
        let mut interner = Interner::new();

        let var_sym = interner.intern("var");
        let other_var_sym = interner.intern("other_var");

        let input = "var**other_var;";
        let result = Parser::build_ast(input, &mut interner);

        assert_eq!(
            result.statements,
            vec![Statement::Expression(Expression::Infix(
                Operator::Exponent,
                Box::new(Expression::Identifier(var_sym)),
                Box::new(Expression::Identifier(other_var_sym)),
            ))]
        )
    }

#[test]
fn parse_exponent_expressions_associativity() {
        let mut interner = Interner::new();

        let input = "2**3**2;";
        let result = Parser::build_ast(input, &mut interner);

        assert_eq!(
            result.statements,
            vec![Statement::Expression(Expression::Infix(
                Operator::Exponent,
                Box::new(Expression::Literal(Literal::Number(2))),
                Box::new(Expression::Infix(
                    Operator::Exponent,
                    Box::new(Expression::Literal(Literal::Number(3))),
                    Box::new(Expression::Literal(Literal::Number(2)))
                )),
            ))]
        )
    }
