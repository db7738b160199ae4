use dang::intern::interner::Interner;
use dang::lex::lexer::Lexer;
use dang::lex::token::{Token, TokenType};

fn run_tokenizer(mut lex: Lexer, interner: &mut Interner) -> Vec<Token> {
    let mut tokens: Vec<Token> = vec![];

    while let Some(t) = lex.next_token(interner) {
        match t.kind {
            TokenType::Whitespace => {}
            _ => tokens.push(t),
        }
    }

    return tokens;
}

#[test]
fn tokenize_let_statement() {
        let input = "
            let x = 512;
            let y = 256;
            let x1 = 128;
        ";

        let lex = Lexer::new(input);
        let mut interner = Interner::new();

        let x_sym = interner.intern("x");
        let y_sym = interner.intern("y");
        let x1_sym = interner.intern("x1");

        let expected: Vec<Token> = vec![
            Token::new_let(),
            Token::identifier(x_sym),
            Token::assign_sign(),
            Token::integer(512),
            Token::semicolon(),
            Token::new_let(),
            Token::identifier(y_sym),
            Token::assign_sign(),
            Token::integer(256),
            Token::semicolon(),
            Token::new_let(),
            Token::identifier(x1_sym),
            Token::assign_sign(),
            Token::integer(128),
            Token::semicolon(),
            Token::eof(),
        ];
        let result = run_tokenizer(lex, &mut interner);

        assert_eq!(expected, result)
    }

#[test]
fn tokenize_if_else_statement() {
        let input = "
            if (x < 10) {
                return 10;
            } else if (x > 12) {
                return 20;
            } else {
                return 30;
            }
        ";

        let lex = Lexer::new(input);
        let mut interner = Interner::new();

        let x_sym = interner.intern("x");

        let expected: Vec<Token> = vec![
            Token::new(TokenType::If),
            Token::left_paren(),
            Token::identifier(x_sym),
            Token::lt(),
            Token::integer(10),
            Token::right_paren(),
            Token::left_brace(),
            Token::new(TokenType::Return),
            Token::integer(10),
            Token::semicolon(),
            Token::right_brace(),
            Token::new(TokenType::Else),
            Token::new(TokenType::If),
            Token::left_paren(),
            Token::identifier(x_sym),
            Token::gt(),
            Token::integer(12),
            Token::right_paren(),
            Token::left_brace(),
            Token::new(TokenType::Return),
            Token::integer(20),
            Token::semicolon(),
            Token::right_brace(),
            Token::new(TokenType::Else),
            Token::left_brace(),
            Token::new(TokenType::Return),
            Token::integer(30),
            Token::semicolon(),
            Token::right_brace(),
            Token::eof(),
        ];
        let result = run_tokenizer(lex, &mut interner);

        assert_eq!(expected, result)
    }

#[test]
fn tokenize_function_statement() {
        let input = "
            let a = fn(x, y) { };

            fn myFunc() { }
        ";

        let lex = Lexer::new(input);
        let mut interner = Interner::new();

        let a_sym = interner.intern("a");
        let x_sym = interner.intern("x");
        let y_sym = interner.intern("y");
        let my_func_sym = interner.intern("myFunc");

        let expected: Vec<Token> = vec![
            Token::new_let(),
            Token::identifier(a_sym),
            Token::assign_sign(),
            Token::function(),
            Token::left_paren(),
            Token::identifier(x_sym),
            Token::comma(),
            Token::identifier(y_sym),
            Token::right_paren(),
            Token::left_brace(),
            Token::right_brace(),
            Token::semicolon(),
            Token::function(),
            Token::identifier(my_func_sym),
            Token::left_paren(),
            Token::right_paren(),
            Token::left_brace(),
            Token::right_brace(),
            Token::eof(),
        ];
        let result = run_tokenizer(lex, &mut interner);

        assert_eq!(expected, result)
    }

#[test]
fn tokenize_strings() {
        let input = "
            let abc = \"HELLO\";
            let cde = \"Hello world\";
        ";

        let lex = Lexer::new(input);
        let mut interner = Interner::new();

        let abc_sym = interner.intern("abc");
        let cde_sym = interner.intern("cde");

        let expected: Vec<Token> = vec![
            Token::new_let(),
            Token::identifier(abc_sym),
            Token::assign_sign(),
            Token::string("HELLO".to_string()),
            Token::semicolon(),
            Token::new_let(),
            Token::identifier(cde_sym),
            Token::assign_sign(),
            Token::string("Hello world".to_string()),
            Token::semicolon(),
            Token::eof(),
        ];
        let result = run_tokenizer(lex, &mut interner);

        assert_eq!(expected, result)
    }

#[test]
fn tokenize_arrays() {
        let input = "
            let abc = [1, 2, \"hello world\"];
        ";

        let lex = Lexer::new(input);
        let mut interner = Interner::new();

        let abc_sym = interner.intern("abc");

        let expected: Vec<Token> = vec![
            Token::new_let(),
            Token::identifier(abc_sym),
            Token::assign_sign(),
            Token::left_bracket(),
            Token::integer(1),
            Token::comma(),
            Token::integer(2),
            Token::comma(),
            Token::string("hello world".to_string()),
            Token::right_bracket(),
            Token::semicolon(),
            Token::eof(),
        ];
        let result = run_tokenizer(lex, &mut interner);

        assert_eq!(expected, result)
    }

#[test]
fn tokenize_indexes() {
        let input = "
            arr[1];
            [1, 2, 3][100];
        ";

        let lex = Lexer::new(input);
        let mut interner = Interner::new();

        let arr_sym = interner.intern("arr");

        let expected: Vec<Token> = vec![
            Token::identifier(arr_sym),
            Token::left_bracket(),
            Token::integer(1),
            Token::right_bracket(),
            Token::semicolon(),
            Token::left_bracket(),
            Token::integer(1),
            Token::comma(),
            Token::integer(2),
            Token::comma(),
            Token::integer(3),
            Token::right_bracket(),
            Token::left_bracket(),
            Token::integer(100),
            Token::right_bracket(),
            Token::semicolon(),
            Token::eof(),
        ];
        let result = run_tokenizer(lex, &mut interner);

        assert_eq!(expected, result)
    }

#[test]
fn tokenize_hashmaps() {
        let input = "
            {\"foobar\": 10}
        ";

        let lex = Lexer::new(input);
        let mut interner = Interner::new();

        let expected: Vec<Token> = vec![
            Token::left_brace(),
            Token::string("foobar".to_string()),
            Token::colon(),
            Token::integer(10),
            Token::right_brace(),
            Token::eof(),
        ];
        let result = run_tokenizer(lex, &mut interner);

        assert_eq!(expected, result)
    }

#[test]
fn tokenize_lte_gte() {
        let input = "
            1 >= 2;
            2 <= 1;
        ";

        let lex = Lexer::new(input);
        let mut interner = Interner::new();

        let expected: Vec<Token> = vec![
            Token::integer(1),
            Token::gte(),
            Token::integer(2),
            Token::semicolon(),
            Token::integer(2),
            Token::lte(),
            Token::integer(1),
            Token::semicolon(),
            Token::eof(),
        ];
        let result = run_tokenizer(lex, &mut interner);

        assert_eq!(expected, result)
    }

#[test]
fn tokenize_and_or() {
        let input = "
            5 && 5;
            5 || 5;
        ";

        let lex = Lexer::new(input);
        let mut interner = Interner::new();

        let expected: Vec<Token> = vec![
            Token::integer(5),
            Token::and(),
            Token::integer(5),
            Token::semicolon(),
            Token::integer(5),
            Token::or(),
            Token::integer(5),
            Token::semicolon(),
            Token::eof(),
        ];
        let result = run_tokenizer(lex, &mut interner);

        assert_eq!(expected, result)
    }

#[test]
fn closures() {
        let input = "
            let closure = fn(a, b) {
                let c = a + b;
                return fn(d) {
                    return c + d;
                };
            };

            let closure2 = fn() {
                fn test() {

                }
                return test;
            };
        ";

        let lex = Lexer::new(input);
        let mut interner = Interner::new();

        let closure_sym = interner.intern("closure");
        let a_sym = interner.intern("a");
        let b_sym = interner.intern("b");
        let c_sym = interner.intern("c");
        let d_sym = interner.intern("d");
        let closure2_sym = interner.intern("closure2");
        let test_sym = interner.intern("test");

        let expected: Vec<Token> = vec![
            Token::new_let(),
            Token::identifier(closure_sym),
            Token::assign_sign(),
            Token::function(),
            Token::left_paren(),
            Token::identifier(a_sym),
            Token::comma(),
            Token::identifier(b_sym),
            Token::right_paren(),
            Token::left_brace(),
            Token::new_let(),
            Token::identifier(c_sym),
            Token::assign_sign(),
            Token::identifier(a_sym),
            Token::new(TokenType::PlusSign),
            Token::identifier(b_sym),
            Token::semicolon(),
            Token::new(TokenType::Return),
            Token::function(),
            Token::left_paren(),
            Token::identifier(d_sym),
            Token::right_paren(),
            Token::left_brace(),
            Token::new(TokenType::Return),
            Token::identifier(c_sym),
            Token::new(TokenType::PlusSign),
            Token::identifier(d_sym),
            Token::semicolon(),
            Token::right_brace(),
            Token::semicolon(),
            Token::right_brace(),
            Token::semicolon(),
            Token::new_let(),
            Token::identifier(closure2_sym),
            Token::assign_sign(),
            Token::function(),
            Token::left_paren(),
            Token::right_paren(),
            Token::left_brace(),
            Token::function(),
            Token::identifier(test_sym),
            Token::left_paren(),
            Token::right_paren(),
            Token::left_brace(),
            Token::right_brace(),
            Token::new(TokenType::Return),
            Token::identifier(test_sym),
            Token::semicolon(),
            Token::right_brace(),
            Token::semicolon(),
            Token::eof(),
        ];
        let result = run_tokenizer(lex, &mut interner);

        assert_eq!(expected, result)
    }

#[test]
fn while_statements() {
        let input = "
            while (true) {
                let a = 0;
            }
        ";

        let lex = Lexer::new(input);
        let mut interner = Interner::new();

        let a_sym = interner.intern("a");

        let expected: Vec<Token> = vec![
            Token::while_token(),
            Token::left_paren(),
            Token::boolean(true),
            Token::right_paren(),
            Token::left_brace(),
            Token::new_let(),
            Token::identifier(a_sym),
            Token::assign_sign(),
            Token::integer(0),
            Token::semicolon(),
            Token::right_brace(),
            Token::eof(),
        ];
        let result = run_tokenizer(lex, &mut interner);

        assert_eq!(expected, result)
    }

#[test]
fn dot_operator() {
        let input = "
        test.interval;
        ";

        let lex = Lexer::new(input);
        let mut interner = Interner::new();

        let test_sym = interner.intern("test");
        let interval_sym = interner.intern("interval");

        let expected: Vec<Token> = vec![
            Token::identifier(test_sym),
            Token::dot(),
            Token::identifier(interval_sym),
            Token::semicolon(),
            Token::eof(),
        ];
        let result = run_tokenizer(lex, &mut interner);

        assert_eq!(expected, result)
    }
