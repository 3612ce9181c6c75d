use tlang::ast::{BinaryOp, DataType, Expression, FunctionData, LiteralType, Statement, UnaryOp};
use tlang::compiler::ast_flattener::{CompiledData, OpCode};
use tlang::compiler::compile;
use tlang::vm::{excecute, Machine, Outcome, Stack, Value, VmError};

fn int_lit(i: i64) -> Expression {
    Expression::Literal(LiteralType::Int(i))
}

fn float(f: f64) -> Expression {
    Expression::Literal(LiteralType::Float(f.to_bits()))
}

fn string(s: &str) -> Expression {
    Expression::Literal(LiteralType::String(s.to_string()))
}

fn bin(left: Expression, operator: BinaryOp, right: Expression) -> Expression {
    Expression::Binary { left: Box::new(left), operator, right: Box::new(right) }
}

fn code(opcodes: Vec<OpCode>) -> CompiledData {
    CompiledData { opcodes, vtables: Vec::new() }
}

fn push_int(i: i64) -> OpCode {
    OpCode::PushConst(LiteralType::Int(i))
}

/// Runs the code to its end, collecting what it prints; the error it stops on is
/// returned with the printed values.
fn run(data: &CompiledData) -> (Vec<Value>, VmError) {
    let mut machine = Machine::new();
    let mut printed = Vec::new();
    for _ in 0..10_000 {
        match excecute(data, &mut machine, 1_000) {
            Ok(Outcome::Printed(v)) => printed.push(v),
            Ok(Outcome::Paused) => {},
            Ok(Outcome::FloatOp { .. }) => panic!("unexpected floating-point instruction"),
            Err(e) => return (printed, e),
        }
    }
    panic!("the program did not stop");
}

fn run_compiled(program: Vec<Statement>) -> (Vec<Value>, VmError) {
    run(&compile(&program).unwrap())
}

#[test]
fn compiled_arithmetic_prints_its_value() {
    let e = bin(int_lit(2), BinaryOp::Add, bin(int_lit(3), BinaryOp::Multiply, int_lit(4)));
    let (printed, end) = run_compiled(vec![Statement::Print(e)]);
    assert_eq!(printed, vec![Value::Int(14)]);
    assert!(matches!(end, VmError::JumpOutOfBounds(6)));
}

#[test]
fn integer_division_truncates_toward_zero() {
    let (printed, _) = run_compiled(vec![Statement::Print(bin(int_lit(-7), BinaryOp::Divide, int_lit(2)))]);
    assert_eq!(printed, vec![Value::Int(-3)]);
}

#[test]
fn strings_concatenate_and_compare() {
    let (printed, _) = run_compiled(vec![
        Statement::Print(bin(string("ab"), BinaryOp::Add, string("c"))),
        Statement::Print(bin(string("apple"), BinaryOp::Less, string("banana"))),
        Statement::Print(bin(string("b"), BinaryOp::LessEqual, string("a"))),
        Statement::Print(bin(string("x"), BinaryOp::Equal, string("x"))),
    ]);
    assert_eq!(
        printed,
        vec![Value::String("abc".to_string()), Value::Bool(true), Value::Bool(false), Value::Bool(true)]
    );
}

#[test]
fn integer_comparisons() {
    let (printed, _) = run_compiled(vec![
        Statement::Print(bin(int_lit(2), BinaryOp::GreaterEqual, int_lit(3))),
        Statement::Print(bin(int_lit(2), BinaryOp::NotEqual, int_lit(3))),
        Statement::Print(bin(int_lit(3), BinaryOp::Greater, int_lit(2))),
    ]);
    assert_eq!(printed, vec![Value::Bool(false), Value::Bool(true), Value::Bool(true)]);
}

#[test]
fn if_else_runs_the_taken_branch_only() {
    let program = vec![Statement::IfElse {
        condition: bin(int_lit(1), BinaryOp::Less, int_lit(2)),
        block1: vec![Statement::Print(int_lit(1))],
        block2: vec![Statement::Print(int_lit(2))],
    }];
    let (printed, end) = run_compiled(program);
    assert_eq!(printed, vec![Value::Int(1)]);
    assert!(matches!(end, VmError::JumpOutOfBounds(11)));
}

#[test]
fn a_countdown_loop_prints_each_value() {
    let data = code(vec![
        push_int(3),
        OpCode::DefineGlobal,
        OpCode::GetGlobal(0),
        push_int(0),
        OpCode::Greater,
        OpCode::JumpIfFalse { index: 13, pop: true },
        OpCode::GetGlobal(0),
        OpCode::Print,
        OpCode::GetGlobal(0),
        push_int(1),
        OpCode::Subtract,
        OpCode::SetGlobal(0),
        OpCode::Jump(2),
    ]);
    let (printed, end) = run(&data);
    assert_eq!(printed, vec![Value::Int(3), Value::Int(2), Value::Int(1)]);
    assert!(matches!(end, VmError::JumpOutOfBounds(13)));
}

#[test]
fn addition_overflow_is_an_error() {
    let (printed, end) = run_compiled(vec![Statement::Print(bin(int_lit(i64::MAX), BinaryOp::Add, int_lit(1)))]);
    assert!(printed.is_empty());
    assert!(matches!(end, VmError::IntegerOverflow(OpCode::Add)));
}

#[test]
fn negating_the_smallest_integer_is_an_error() {
    let e = Expression::Unary { operator: UnaryOp::Negate, right: Box::new(int_lit(i64::MIN)) };
    let (_, end) = run_compiled(vec![Statement::Print(e)]);
    assert!(matches!(end, VmError::IntegerOverflow(OpCode::Negate)));
}

#[test]
fn division_by_zero_is_a_type_mismatch() {
    let (_, end) = run_compiled(vec![Statement::Print(bin(int_lit(1), BinaryOp::Divide, int_lit(0)))]);
    match end {
        VmError::TypeMismatchBinary { opcode, left, right } => {
            assert_eq!(opcode, OpCode::Divide);
            assert_eq!(left, Value::Int(1));
            assert_eq!(right, Value::Int(0));
        },
        e => panic!("unexpected {:?}", e),
    }
}

#[test]
fn float_arithmetic_is_handed_to_the_caller() {
    let data = compile(&[Statement::Print(bin(float(1.5), BinaryOp::Add, float(2.25)))]).unwrap();
    let mut machine = Machine::new();
    match excecute(&data, &mut machine, 100) {
        Ok(Outcome::FloatOp { opcode, left, right }) => {
            assert_eq!(opcode, OpCode::Add);
            assert_eq!(left, 1.5f64.to_bits());
            assert_eq!(right, 2.25f64.to_bits());
        },
        other => panic!("unexpected {:?}", other.map(|_| ())),
    }
    machine.push_result(Value::Float(3.75f64.to_bits())).unwrap();
    match excecute(&data, &mut machine, 100) {
        Ok(Outcome::Printed(v)) => assert_eq!(v, Value::Float(3.75f64.to_bits())),
        other => panic!("unexpected {:?}", other.map(|_| ())),
    }
}

#[test]
fn negating_a_float_flips_its_sign() {
    let e = Expression::Unary { operator: UnaryOp::Negate, right: Box::new(float(1.5)) };
    let (printed, _) = run_compiled(vec![Statement::Print(e)]);
    assert_eq!(printed, vec![Value::Float((-1.5f64).to_bits())]);
}

#[test]
fn values_of_different_types_are_unequal() {
    let data = code(vec![
        push_int(1),
        OpCode::PushConst(LiteralType::Null),
        OpCode::Equal,
        OpCode::Print,
        OpCode::PushConst(LiteralType::Bool(true)),
        OpCode::PushConst(LiteralType::String("true".to_string())),
        OpCode::NotEqual,
        OpCode::Print,
        OpCode::PushConst(LiteralType::Null),
        OpCode::PushConst(LiteralType::Null),
        OpCode::Equal,
        OpCode::Print,
    ]);
    let (printed, _) = run(&data);
    assert_eq!(printed, vec![Value::Bool(false), Value::Bool(true), Value::Bool(true)]);
}

#[test]
fn a_paused_run_resumes_where_it_stopped() {
    let data = code(vec![push_int(1), push_int(2), OpCode::Add, OpCode::Print]);
    let mut machine = Machine::new();
    assert!(matches!(excecute(&data, &mut machine, 2), Ok(Outcome::Paused)));
    match excecute(&data, &mut machine, 5) {
        Ok(Outcome::Printed(v)) => assert_eq!(v, Value::Int(3)),
        other => panic!("unexpected {:?}", other.map(|_| ())),
    }
    let mut fresh = Machine::new();
    match excecute(&data, &mut fresh, 7) {
        Ok(Outcome::Printed(v)) => assert_eq!(v, Value::Int(3)),
        other => panic!("unexpected {:?}", other.map(|_| ())),
    }
}

#[test]
fn a_finished_run_ends_the_same_with_more_budget() {
    let data = code(vec![OpCode::Print]);
    let mut a = Machine::new();
    let mut b = Machine::new();
    assert!(matches!(excecute(&data, &mut a, 1), Err(VmError::NoValueOnStack)));
    assert!(matches!(excecute(&data, &mut b, 100), Err(VmError::NoValueOnStack)));
}

#[test]
fn a_zero_budget_pauses_at_once() {
    let data = code(vec![OpCode::Print]);
    let mut machine = Machine::new();
    assert!(matches!(excecute(&data, &mut machine, 0), Ok(Outcome::Paused)));
}

#[test]
fn popping_an_empty_stack_is_an_error() {
    assert!(matches!(run(&code(vec![OpCode::Pop(1)])).1, VmError::NoValueOnStack));
}

#[test]
fn pushing_forever_overflows_the_stack() {
    let data = code(vec![push_int(1), OpCode::Jump(0)]);
    assert!(matches!(run(&data).1, VmError::StackOverflow));
}

#[test]
fn reading_past_the_stack_is_an_error() {
    assert!(matches!(run(&code(vec![OpCode::GetVar(5000)])).1, VmError::StackIndexOutOfBounds(5000)));
    assert!(matches!(run(&code(vec![push_int(1), OpCode::SetVar(1024)])).1, VmError::StackIndexOutOfBounds(1024)));
}

#[test]
fn an_undefined_global_is_an_error() {
    assert!(matches!(run(&code(vec![OpCode::GetGlobal(0)])).1, VmError::GlobalIndexOutOfBounds(0)));
    assert!(matches!(run(&code(vec![push_int(1), OpCode::SetGlobal(3)])).1, VmError::GlobalIndexOutOfBounds(3)));
}

#[test]
fn a_conditional_jump_needs_a_boolean() {
    match run(&code(vec![push_int(1), OpCode::JumpIfTrue { index: 0, pop: true }])).1 {
        VmError::TypeMismatchJump(v) => assert_eq!(v, Value::Int(1)),
        e => panic!("unexpected {:?}", e),
    }
}

#[test]
fn not_of_a_string_is_a_type_mismatch() {
    let data = code(vec![OpCode::PushConst(LiteralType::String("s".to_string())), OpCode::LNot]);
    match run(&data).1 {
        VmError::TypeMismatchUnary { opcode, operand } => {
            assert_eq!(opcode, OpCode::LNot);
            assert_eq!(operand, Value::String("s".to_string()));
        },
        e => panic!("unexpected {:?}", e),
    }
}

#[test]
fn jumping_outside_the_code_ends_the_run() {
    assert!(matches!(run(&code(vec![OpCode::Jump(100)])).1, VmError::JumpOutOfBounds(100)));
    assert!(matches!(run(&code(vec![])).1, VmError::JumpOutOfBounds(0)));
}

#[test]
fn a_jump_without_pop_keeps_the_condition() {
    let data = code(vec![
        OpCode::PushConst(LiteralType::Bool(false)),
        OpCode::JumpIfFalse { index: 3, pop: false },
        push_int(9),
        OpCode::Print,
    ]);
    assert_eq!(run(&data).0, vec![Value::Bool(false)]);
}

#[test]
fn locals_and_globals_are_read_back() {
    let data = code(vec![
        push_int(4),
        OpCode::GetVar(0),
        OpCode::Print,
        push_int(7),
        OpCode::DefineGlobal,
        OpCode::GetGlobal(0),
        OpCode::Print,
    ]);
    assert_eq!(run(&data).0, vec![Value::Int(4), Value::Int(7)]);
}

#[test]
fn calls_are_not_carried_out() {
    let program = vec![
        Statement::Function {
            name: "f".to_string(),
            data: FunctionData { data_type: DataType::Int, parameters: vec![], block: vec![Statement::Return(Some(int_lit(1)))] },
            should_override: false,
            is_static: false,
        },
        Statement::Print(Expression::Call { callee: Box::new(Expression::Variable("f".to_string())), parameters: vec![] }),
    ];
    assert!(matches!(run_compiled(program).1, VmError::UnsupportedOpCode(OpCode::Call { .. })));
}

#[test]
fn a_pushed_value_is_popped_back() {
    let mut stack = Stack::new();
    stack.push(Value::Int(5)).unwrap();
    stack.push(Value::String("x".to_string())).unwrap();
    assert_eq!(stack.pop().unwrap(), Value::String("x".to_string()));
    assert_eq!(stack.pop().unwrap(), Value::Int(5));
    assert!(matches!(stack.pop(), Err(VmError::NoValueOnStack)));
}

#[test]
fn a_binary_mismatch_leaves_both_operands_popped() {
    let data = code(vec![push_int(1), OpCode::PushConst(LiteralType::Bool(true)), OpCode::Add, OpCode::Print]);
    let mut machine = Machine::new();
    assert!(matches!(excecute(&data, &mut machine, 10), Err(VmError::TypeMismatchBinary { .. })));
    assert!(matches!(excecute(&data, &mut machine, 10), Err(VmError::NoValueOnStack)));
}

#[test]
fn a_failed_conditional_jump_leaves_its_operand() {
    let data = code(vec![push_int(1), OpCode::JumpIfTrue { index: 0, pop: true }, OpCode::Print]);
    let mut machine = Machine::new();
    assert!(matches!(excecute(&data, &mut machine, 10), Err(VmError::TypeMismatchJump(_))));
    match excecute(&data, &mut machine, 10) {
        Ok(Outcome::Printed(v)) => assert_eq!(v, Value::Int(1)),
        other => panic!("unexpected {:?}", other.map(|_| ())),
    }
}

#[test]
fn a_global_store_out_of_range_still_pops_its_value() {
    let data = code(vec![push_int(5), OpCode::SetGlobal(3), OpCode::Print]);
    let mut machine = Machine::new();
    assert!(matches!(excecute(&data, &mut machine, 10), Err(VmError::GlobalIndexOutOfBounds(3))));
    assert!(matches!(excecute(&data, &mut machine, 10), Err(VmError::NoValueOnStack)));
}

#[test]
fn mixed_operands_are_handed_back_unchanged() {
    let data = code(vec![push_int(1), OpCode::PushConst(LiteralType::String("a".to_string())), OpCode::Less]);
    match run(&data).1 {
        VmError::TypeMismatchBinary { opcode, left, right } => {
            assert_eq!(opcode, OpCode::Less);
            assert_eq!(left, Value::Int(1));
            assert_eq!(right, Value::String("a".to_string()));
        },
        e => panic!("unexpected {:?}", e),
    }
}
