use dang::ast::parser::Parser;
use dang::compiler::code::{format_instructions, Opcode};
use dang::compiler::compiler::{Bytecode, Compiler};
use dang::compiler::vm::{VmError, VM};
use dang::eval::env::Environment;
use dang::eval::object::Object;
use dang::intern::interner::Interner;

fn compile(input: &str) -> Bytecode {
    let mut interner = Interner::new();
    let program = Parser::build_ast(input, &mut interner);
    let mut compiler = Compiler::new();
    compiler.compile(&program.statements);
    compiler.to_bytecode()
}

fn run(input: &str) -> (Result<(), VmError>, Object) {
    let bytecode = compile(input);
    let mut vm = VM::new(&bytecode);
    let r = vm.run();
    (r, vm.last_popped_element())
}

#[test]
fn make_encodes_operands_big_endian() {
    assert_eq!(Opcode::Constant.make(&[65534]), vec![Opcode::Constant.to_byte(), 255, 254]);
    assert_eq!(Opcode::OpAdd.make(&[]), vec![Opcode::OpAdd.to_byte()]);
    assert_eq!(Opcode::OpSub.make(&[]), vec![Opcode::OpSub.to_byte()]);
    assert_eq!(Opcode::OpMul.make(&[]), vec![Opcode::OpMul.to_byte()]);
    assert_eq!(Opcode::OpDiv.make(&[]), vec![Opcode::OpDiv.to_byte()]);
    assert_eq!(Opcode::OpTrue.make(&[]), vec![Opcode::OpTrue.to_byte()]);
    assert_eq!(Opcode::OpFalse.make(&[]), vec![Opcode::OpFalse.to_byte()]);
    assert_eq!(Opcode::OpJump.make(&[258]), vec![12, 1, 2]);
}

#[test]
fn make_ignores_operands_without_width() {
    assert_eq!(Opcode::OpPop.make(&[7, 8]), vec![2]);
}

#[test]
fn make_then_read_operands_round_trip() {
    for op in [Opcode::Constant, Opcode::OpJump, Opcode::OpJumpNotTruthy, Opcode::OpGetGlobal, Opcode::OpSetGlobal] {
        for x in [0u16, 1, 255, 256, 9999, 65535] {
            let bytes = op.make(&[x]);
            let definition = op.lookup();
            let (operands, read) = Opcode::read_operands(&definition, &bytes[1..]);
            assert_eq!(operands, vec![x]);
            assert_eq!(read, 2);
        }
    }
}

#[test]
fn opcode_byte_round_trip() {
    for b in 0u8..=17 {
        let op = Opcode::from_byte(b).unwrap();
        assert_eq!(op.to_byte(), b);
    }
    assert_eq!(Opcode::from_byte(18), None);
    assert_eq!(Opcode::from_byte(255), None);
}

#[test]
fn lookup_names_and_widths() {
    let d = Opcode::Constant.lookup();
    assert_eq!(d.name, "OpConstant");
    assert_eq!(d.operands_widths, vec![2]);
    let d = Opcode::OpBang.lookup();
    assert_eq!(d.name, "OpBang");
    assert!(d.operands_widths.is_empty());
}

#[test]
fn test_format_instructions_add_pop() {
    let bytes = [Opcode::OpAdd.make(&[]), Opcode::OpPop.make(&[])].concat();
    assert_eq!(format_instructions(&bytes), "0000 OpAdd\n0001 OpPop\n");
}

#[test]
fn test_format_instructions_constant_add() {
    let bytes = [Opcode::Constant.make(&[1]), Opcode::OpAdd.make(&[])].concat();
    assert_eq!(format_instructions(&bytes), "0000 OpConstant 1\n0003 OpAdd\n");
}

#[test]
fn compile_arithmetic() {
    let bytecode = compile("1 + 2");
    let expected = [
        Opcode::Constant.make(&[0]),
        Opcode::Constant.make(&[1]),
        Opcode::OpAdd.make(&[]),
        Opcode::OpPop.make(&[]),
    ]
    .concat();
    assert_eq!(bytecode.instructions, expected);
    assert_eq!(bytecode.constants, vec![Object::Number(1), Object::Number(2)]);
}

#[test]
fn compile_booleans_and_comparisons() {
    assert_eq!(compile("true").instructions, [Opcode::OpTrue.make(&[]), Opcode::OpPop.make(&[])].concat());
    assert_eq!(compile("false").instructions, [Opcode::OpFalse.make(&[]), Opcode::OpPop.make(&[])].concat());
    let eq = compile("1 == 2");
    assert_eq!(
        eq.instructions,
        [Opcode::Constant.make(&[0]), Opcode::Constant.make(&[1]), Opcode::OpEqual.make(&[]), Opcode::OpPop.make(&[])].concat()
    );
    let ne = compile("1 != 2");
    assert_eq!(
        ne.instructions,
        [Opcode::Constant.make(&[0]), Opcode::Constant.make(&[1]), Opcode::OpNotEqual.make(&[]), Opcode::OpPop.make(&[])].concat()
    );
    let gt = compile("1 > 2");
    assert_eq!(
        gt.instructions,
        [Opcode::Constant.make(&[0]), Opcode::Constant.make(&[1]), Opcode::OpGreaterThan.make(&[]), Opcode::OpPop.make(&[])].concat()
    );
}

#[test]
fn compile_less_than_swaps_operands() {
    let lt = compile("1 < 2");
    assert_eq!(lt.constants, vec![Object::Number(2), Object::Number(1)]);
    assert_eq!(
        lt.instructions,
        [Opcode::Constant.make(&[0]), Opcode::Constant.make(&[1]), Opcode::OpGreaterThan.make(&[]), Opcode::OpPop.make(&[])].concat()
    );
}

#[test]
fn compile_if_expression() {
    let bytecode = compile("if (true) { 10 }; 3333; ");
    let expected = [
        Opcode::OpTrue.make(&[]),
        Opcode::OpJumpNotTruthy.make(&[7]),
        Opcode::Constant.make(&[0]),
        Opcode::OpPop.make(&[]),
        Opcode::Constant.make(&[1]),
        Opcode::OpPop.make(&[]),
    ]
    .concat();
    assert_eq!(bytecode.instructions, expected);
    assert_eq!(bytecode.constants, vec![Object::Number(10), Object::Number(3333)]);
}

#[test]
fn compile_if_else_expression() {
    let bytecode = compile("if (true) { 10 } else { 20 }; 3333; ");
    let expected = [
        Opcode::OpTrue.make(&[]),
        Opcode::OpJumpNotTruthy.make(&[10]),
        Opcode::Constant.make(&[0]),
        Opcode::OpJump.make(&[13]),
        Opcode::Constant.make(&[1]),
        Opcode::OpPop.make(&[]),
        Opcode::Constant.make(&[2]),
        Opcode::OpPop.make(&[]),
    ]
    .concat();
    assert_eq!(bytecode.instructions, expected);
    assert_eq!(bytecode.constants, vec![Object::Number(10), Object::Number(20), Object::Number(3333)]);
}

#[test]
fn vm_runs_arithmetic_and_comparisons() {
    let cases: [(&str, Object); 33] = [
        ("1", Object::Number(1)),
        ("1 + 2", Object::Number(3)),
        ("5 - 1", Object::Number(4)),
        ("4 * 4", Object::Number(16)),
        ("8 / 4", Object::Number(2)),
        ("50 / 2 * 2 + 10 - 5", Object::Number(55)),
        ("5 * (2 + 10)", Object::Number(60)),
        ("true", Object::Boolean(true)),
        ("false", Object::Boolean(false)),
        ("!true", Object::Boolean(false)),
        ("!false", Object::Boolean(true)),
        ("-5 + -5", Object::Number(-10)),
        ("1 == 1", Object::Boolean(true)),
        ("2 == 1", Object::Boolean(false)),
        ("true == true", Object::Boolean(true)),
        ("false == true", Object::Boolean(false)),
        ("2 != 1", Object::Boolean(true)),
        ("2 != 2", Object::Boolean(false)),
        ("true != false", Object::Boolean(true)),
        ("false != false", Object::Boolean(false)),
        ("2 > 1", Object::Boolean(true)),
        ("1 > 2", Object::Boolean(false)),
        ("(2 > 1) == true", Object::Boolean(true)),
        ("(1 > 2) == true", Object::Boolean(false)),
        ("1 < 2", Object::Boolean(true)),
        ("2 < 1", Object::Boolean(false)),
        ("(1 < 2) == true", Object::Boolean(true)),
        ("(2 < 1) == true", Object::Boolean(false)),
        ("if (true) { 10 }", Object::Number(10)),
        ("if (true) { 10 } else { 20 }", Object::Number(10)),
        ("if (false) { 10 } else { 20 }", Object::Number(20)),
        ("if (false) { 10 }", Object::Nil),
        ("!(if (false) { 5; })", Object::Boolean(true)),
    ];
    for (input, expected) in cases {
        let (r, last) = run(input);
        assert_eq!(r, Ok(()), "{}", input);
        assert_eq!(last, expected, "{}", input);
    }
}

#[test]
fn vm_reports_errors_instead_of_panicking() {
    let (r, _) = run("9223372036854775807 + 1");
    assert_eq!(r, Err(VmError::InvalidOperation));
    let (r, _) = run("1 / 0");
    assert_eq!(r, Err(VmError::InvalidOperation));
    let (r, _) = run("true + 1");
    assert_eq!(r, Err(VmError::InvalidOperation));

    let bad = Bytecode { instructions: vec![200], constants: vec![] };
    let mut vm = VM::new(&bad);
    assert_eq!(vm.run(), Err(VmError::InvalidOperation));

    let missing = Bytecode { instructions: Opcode::Constant.make(&[3]), constants: vec![] };
    let mut vm = VM::new(&missing);
    assert_eq!(vm.run(), Err(VmError::UnexpectedError));
}

#[test]
fn vm_pop_of_empty_stack_gives_none() {
    let bytecode = Bytecode { instructions: [Opcode::OpTrue.make(&[]), Opcode::OpPop.make(&[]), Opcode::OpPop.make(&[])].concat(), constants: vec![] };
    let mut vm = VM::new(&bytecode);
    assert_eq!(vm.run(), Ok(()));
    assert_eq!(vm.last_popped_element(), Object::Nil);
    assert_eq!(vm.stack_top(), Object::Nil);
}

#[test]
fn vm_stack_top_and_last_popped() {
    let bytecode = Bytecode { instructions: [Opcode::OpTrue.make(&[]), Opcode::OpFalse.make(&[])].concat(), constants: vec![] };
    let mut vm = VM::new(&bytecode);
    assert_eq!(vm.stack_top(), Object::Nil);
    assert_eq!(vm.run(), Ok(()));
    assert_eq!(vm.stack_top(), Object::Boolean(false));
    assert_eq!(vm.last_popped_element(), Object::Nil);
}

#[test]
fn vm_stack_overflow() {
    let mut instructions = Vec::new();
    for _ in 0..2049 {
        instructions.extend(Opcode::OpTrue.make(&[]));
    }
    let bytecode = Bytecode { instructions, constants: vec![] };
    let mut vm = VM::new(&bytecode);
    assert_eq!(vm.run(), Err(VmError::StackOverflow));
}

#[test]
fn vm_equality_on_strings() {
    let bytecode = Bytecode {
        instructions: [Opcode::Constant.make(&[0]), Opcode::Constant.make(&[1]), Opcode::OpEqual.make(&[]), Opcode::OpPop.make(&[])].concat(),
        constants: vec![Object::String(String::from("a")), Object::String(String::from("a"))],
    };
    let mut vm = VM::new(&bytecode);
    assert_eq!(vm.run(), Ok(()));
    assert_eq!(vm.last_popped_element(), Object::Boolean(true));
}

#[test]
fn vm_prefix_operations() {
    let bang = Bytecode {
        instructions: [Opcode::OpTrue.make(&[]), Opcode::OpBang.make(&[]), Opcode::OpPop.make(&[])].concat(),
        constants: vec![],
    };
    let mut vm = VM::new(&bang);
    assert_eq!(vm.run(), Ok(()));
    assert_eq!(vm.last_popped_element(), Object::Boolean(false));

    let bang_none = Bytecode {
        instructions: [Opcode::OpNone.make(&[]), Opcode::OpBang.make(&[]), Opcode::OpPop.make(&[])].concat(),
        constants: vec![],
    };
    let mut vm = VM::new(&bang_none);
    assert_eq!(vm.run(), Ok(()));
    assert_eq!(vm.last_popped_element(), Object::Boolean(true));

    let minus = Bytecode {
        instructions: [Opcode::Constant.make(&[0]), Opcode::OpMinus.make(&[]), Opcode::OpPop.make(&[])].concat(),
        constants: vec![Object::Number(5)],
    };
    let mut vm = VM::new(&minus);
    assert_eq!(vm.run(), Ok(()));
    assert_eq!(vm.last_popped_element(), Object::Number(-5));
}

#[test]
fn compiled_code_lists_as_whole_instructions() {
    let bytecode = compile("if (true) { 10 } else { 20 }; 3333; ");
    assert_eq!(
        format_instructions(&bytecode.instructions),
        "0000 OpTrue\n0001 OpJumpNotTruthy 10\n0004 OpConstant 0\n0007 OpJump 13\n0010 OpConstant 1\n0013 OpPop\n0014 OpConstant 2\n0017 OpPop\n"
    );
}

#[test]
fn compiled_run_agrees_with_evaluation() {
    let inputs = [
        "if (1 < 2) { 10 } else { 20 }",
        "if (1 > 2) { 10 } else { -20 }",
        "!(if (true) { false } else { true })",
        "(if (2 == 2) { 3 } else { 4 }) * 5 - -1",
        "(if (if (true) { false } else { true }) { 1 } else { 2 }) + 40",
    ];
    let expected = [Object::Number(10), Object::Number(-20), Object::Boolean(true), Object::Number(16), Object::Number(42)];
    for (i, input) in inputs.iter().enumerate() {
        let (r, last) = run(input);
        assert_eq!(r, Ok(()), "{}", input);
        assert_eq!(last, expected[i], "{}", input);
        let mut interner = Interner::new();
        let program = Parser::build_ast(input, &mut interner);
        let mut env = Environment::new(&mut interner);
        let value = program.eval_statements(&mut env, &mut interner);
        assert_eq!(value, expected[i], "{}", input);
    }
}
