use tlang::ast::{BinaryOp, DataType, Expression, FunctionData, LiteralType, Statement, UnaryOp};
use tlang::compiler::ast_flattener::{binary_op_of, flatten_ast, flatten_expression, literal_data_type, FlattenError, OpCode};
use tlang::compiler::tables::{ClassData, FuncEntry};
use tlang::compiler::compile;
use tlang::compiler::typing::{get_binary_type, is_compatible, is_subclass};

fn int_lit(i: i64) -> Expression {
    Expression::Literal(LiteralType::Int(i))
}

fn string(s: &str) -> Expression {
    Expression::Literal(LiteralType::String(s.to_string()))
}

fn var(name: &str) -> Expression {
    Expression::Variable(name.to_string())
}

fn bin(left: Expression, operator: BinaryOp, right: Expression) -> Expression {
    Expression::Binary { left: Box::new(left), operator, right: Box::new(right) }
}

fn declare(name: &str, data_type: DataType, value: Expression) -> Statement {
    Statement::Declaration { name: name.to_string(), value, data_type, is_static: false }
}

fn function(name: &str, data_type: DataType, parameters: Vec<(DataType, String)>, block: Vec<Statement>) -> Statement {
    Statement::Function {
        name: name.to_string(),
        data: FunctionData { data_type, parameters, block },
        should_override: false,
        is_static: false,
    }
}

#[test]
fn print_of_a_literal_is_push_then_print() {
    let data = compile(&[Statement::Print(int_lit(7))]).unwrap();
    assert_eq!(data.opcodes, vec![OpCode::PushConst(LiteralType::Int(7)), OpCode::Print]);
    assert!(data.vtables.is_empty());
}

#[test]
fn global_declaration_defines_then_reads_a_global() {
    let program = vec![declare("x", DataType::Int, int_lit(1)), Statement::Print(var("x"))];
    let data = compile(&program).unwrap();
    assert_eq!(
        data.opcodes,
        vec![OpCode::PushConst(LiteralType::Int(1)), OpCode::DefineGlobal, OpCode::GetGlobal(0), OpCode::Print]
    );
}

#[test]
fn expression_statement_pops_its_value() {
    let data = compile(&[Statement::Expression(bin(int_lit(1), BinaryOp::Add, int_lit(2)))]).unwrap();
    assert_eq!(
        data.opcodes,
        vec![
            OpCode::PushConst(LiteralType::Int(1)),
            OpCode::PushConst(LiteralType::Int(2)),
            OpCode::Add,
            OpCode::Pop(1),
        ]
    );
}

#[test]
fn if_else_jumps_around_each_branch() {
    let program = vec![Statement::IfElse {
        condition: Expression::Literal(LiteralType::Bool(true)),
        block1: vec![Statement::Print(int_lit(1))],
        block2: vec![Statement::Print(int_lit(2))],
    }];
    let data = compile(&program).unwrap();
    assert_eq!(
        data.opcodes,
        vec![
            OpCode::PushConst(LiteralType::Bool(true)),
            OpCode::JumpIfFalse { index: 6, pop: true },
            OpCode::PushConst(LiteralType::Int(1)),
            OpCode::Print,
            OpCode::Pop(0),
            OpCode::Jump(9),
            OpCode::PushConst(LiteralType::Int(2)),
            OpCode::Print,
            OpCode::Pop(0),
        ]
    );
}

#[test]
fn while_loop_jumps_back_to_its_condition() {
    let program = vec![Statement::While {
        condition: Expression::Literal(LiteralType::Bool(false)),
        block: vec![Statement::Break],
    }];
    let data = compile(&program).unwrap();
    assert_eq!(
        data.opcodes,
        vec![
            OpCode::PushConst(LiteralType::Bool(false)),
            OpCode::JumpIfFalse { index: 5, pop: true },
            OpCode::Pop(0),
            OpCode::Jump(5),
            OpCode::Jump(0),
        ]
    );
}

#[test]
fn compile_and_flatten_ast_agree() {
    let program = vec![declare("s", DataType::String, string("a")), Statement::Print(var("s"))];
    let a = compile(&program).unwrap();
    let b = flatten_ast(&program).unwrap();
    assert_eq!(a.opcodes, b.opcodes);
    assert_eq!(a.vtables, b.vtables);
}

#[test]
fn break_outside_loop_is_refused() {
    assert!(matches!(compile(&[Statement::Break]), Err(FlattenError::BreakOutsideLoop)));
}

#[test]
fn continue_outside_loop_is_refused() {
    assert!(matches!(compile(&[Statement::Continue]), Err(FlattenError::ContinueOutsideLoop)));
}

#[test]
fn return_outside_function_is_refused() {
    assert!(matches!(compile(&[Statement::Return(None)]), Err(FlattenError::ReturnOutsideFunction)));
}

#[test]
fn undeclared_variable_is_refused() {
    match compile(&[Statement::Print(var("y"))]) {
        Err(FlattenError::UndeclaredVariable(n)) => assert_eq!(n, "y"),
        other => panic!("unexpected {:?}", other.map(|d| d.opcodes)),
    }
}

#[test]
fn undeclared_function_is_refused() {
    let call = Expression::Call { callee: Box::new(var("f")), parameters: vec![] };
    match compile(&[Statement::Expression(call)]) {
        Err(FlattenError::UndeclaredFunction(n)) => assert_eq!(n, "f"),
        other => panic!("unexpected {:?}", other.map(|d| d.opcodes)),
    }
}

#[test]
fn redeclaring_a_global_is_shadowing() {
    let program = vec![declare("x", DataType::Int, int_lit(1)), declare("x", DataType::Int, int_lit(2))];
    match compile(&program) {
        Err(FlattenError::Shadowing(n)) => assert_eq!(n, "x"),
        other => panic!("unexpected {:?}", other.map(|d| d.opcodes)),
    }
}

#[test]
fn this_cannot_be_declared() {
    match compile(&[declare("this", DataType::Int, int_lit(1))]) {
        Err(FlattenError::ReservedKeyword(n)) => assert_eq!(n, "this"),
        other => panic!("unexpected {:?}", other.map(|d| d.opcodes)),
    }
}

#[test]
fn static_declaration_outside_class_is_refused() {
    let program = vec![Statement::Declaration {
        name: "x".to_string(),
        value: int_lit(1),
        data_type: DataType::Int,
        is_static: true,
    }];
    match compile(&program) {
        Err(FlattenError::StaticOutsideClass(n)) => assert_eq!(n, "x"),
        other => panic!("unexpected {:?}", other.map(|d| d.opcodes)),
    }
}

#[test]
fn declaration_with_a_value_of_another_type_is_refused() {
    match compile(&[declare("x", DataType::Int, string("s"))]) {
        Err(FlattenError::UnexpectedDeclarationValueType { variable, expected, received }) => {
            assert_eq!(variable, "x");
            assert_eq!(expected, DataType::Int);
            assert_eq!(received, DataType::String);
        },
        other => panic!("unexpected {:?}", other.map(|d| d.opcodes)),
    }
}

#[test]
fn nullable_declaration_accepts_null_and_its_inner_type() {
    let nullable = || DataType::Nullable(Box::new(DataType::Int));
    let program = vec![
        declare("a", nullable(), Expression::Literal(LiteralType::Null)),
        declare("b", nullable(), int_lit(3)),
    ];
    assert!(compile(&program).is_ok());
}

#[test]
fn adding_an_int_to_a_string_is_refused() {
    match compile(&[Statement::Print(bin(int_lit(1), BinaryOp::Add, string("a")))]) {
        Err(FlattenError::UnexpectedBinaryOpOperands { left, operator, right }) => {
            assert_eq!(left, DataType::Int);
            assert_eq!(operator, BinaryOp::Add);
            assert_eq!(right, DataType::String);
        },
        other => panic!("unexpected {:?}", other.map(|d| d.opcodes)),
    }
}

#[test]
fn not_of_an_int_is_refused() {
    let e = Expression::Unary { operator: UnaryOp::LNot, right: Box::new(int_lit(1)) };
    match compile(&[Statement::Print(e)]) {
        Err(FlattenError::UnexpectedUnaryOpOperands { operator, operand }) => {
            assert_eq!(operator, UnaryOp::LNot);
            assert_eq!(operand, DataType::Int);
        },
        other => panic!("unexpected {:?}", other.map(|d| d.opcodes)),
    }
}

#[test]
fn function_inside_a_block_is_refused() {
    let program = vec![Statement::Block(vec![function("f", DataType::Null, vec![], vec![])])];
    match compile(&program) {
        Err(FlattenError::FunctionDeclarationInsideScope(n)) => assert_eq!(n, "f"),
        other => panic!("unexpected {:?}", other.map(|d| d.opcodes)),
    }
}

#[test]
fn function_without_return_is_refused() {
    let program = vec![function("f", DataType::Int, vec![], vec![])];
    match compile(&program) {
        Err(FlattenError::MissingReturnStatement(n)) => assert_eq!(n, "f"),
        other => panic!("unexpected {:?}", other.map(|d| d.opcodes)),
    }
}

#[test]
fn call_with_too_many_arguments_is_refused() {
    let program = vec![
        function("f", DataType::Int, vec![], vec![Statement::Return(Some(int_lit(1)))]),
        Statement::Print(Expression::Call { callee: Box::new(var("f")), parameters: vec![int_lit(2)] }),
    ];
    match compile(&program) {
        Err(FlattenError::UnexpectedParameterCount { expected, received, .. }) => {
            assert_eq!(expected, 0);
            assert_eq!(received, 1);
        },
        other => panic!("unexpected {:?}", other.map(|d| d.opcodes)),
    }
}

#[test]
fn return_of_the_wrong_type_is_refused() {
    let program = vec![function("f", DataType::Int, vec![], vec![Statement::Return(Some(string("x")))])];
    match compile(&program) {
        Err(FlattenError::UnexpectedReturnValueType { func, expected, received }) => {
            assert_eq!(func, "f");
            assert_eq!(expected, DataType::Int);
            assert_eq!(received, DataType::String);
        },
        other => panic!("unexpected {:?}", other.map(|d| d.opcodes)),
    }
}

#[test]
fn class_with_a_method_gets_a_vtable_entry() {
    let program = vec![Statement::Class {
        name: "A".to_string(),
        block: vec![function("get", DataType::Int, vec![], vec![Statement::Return(Some(int_lit(1)))])],
        parent: None,
    }];
    let data = compile(&program).unwrap();
    assert_eq!(data.vtables.len(), 1);
    assert_eq!(data.vtables[0].len(), 1);
}

#[test]
fn class_cannot_extend_itself() {
    let program = vec![Statement::Class { name: "A".to_string(), block: vec![], parent: Some("A".to_string()) }];
    match compile(&program) {
        Err(FlattenError::ParentIsSelf(n)) => assert_eq!(n, "A"),
        other => panic!("unexpected {:?}", other.map(|d| d.opcodes)),
    }
}

#[test]
fn class_with_an_unknown_parent_is_refused() {
    let program = vec![Statement::Class { name: "A".to_string(), block: vec![], parent: Some("B".to_string()) }];
    match compile(&program) {
        Err(FlattenError::UndeclaredClass(n)) => assert_eq!(n, "B"),
        other => panic!("unexpected {:?}", other.map(|d| d.opcodes)),
    }
}

#[test]
fn class_inside_a_block_is_refused() {
    let program = vec![Statement::Block(vec![Statement::Class { name: "A".to_string(), block: vec![], parent: None }])];
    match compile(&program) {
        Err(FlattenError::ClassDeclarationInsideScope(n)) => assert_eq!(n, "A"),
        other => panic!("unexpected {:?}", other.map(|d| d.opcodes)),
    }
}

#[test]
fn every_jump_of_a_compiled_loop_stays_in_the_code() {
    let program = vec![
        declare("i", DataType::Int, int_lit(0)),
        Statement::While {
            condition: bin(var("i"), BinaryOp::Less, int_lit(3)),
            block: vec![
                Statement::If { condition: bin(var("i"), BinaryOp::Equal, int_lit(1)), block: vec![Statement::Continue] },
                Statement::Expression(Expression::Assignment {
                    target: Box::new(var("i")),
                    value: Box::new(bin(var("i"), BinaryOp::Add, int_lit(1))),
                }),
            ],
        },
    ];
    let data = compile(&program).unwrap();
    for op in &data.opcodes {
        match op {
            OpCode::Jump(i) | OpCode::JumpIfFalse { index: i, .. } | OpCode::JumpIfTrue { index: i, .. } => {
                assert!(*i <= data.opcodes.len())
            },
            _ => {},
        }
    }
}

#[test]
fn a_type_is_compatible_with_itself() {
    let classes = Vec::new();
    let t = DataType::Nullable(Box::new(DataType::String));
    assert!(is_compatible(&t, &t, &classes));
    assert!(is_compatible(&DataType::Int, &DataType::Int, &classes));
    assert!(!is_compatible(&DataType::Int, &DataType::Float, &classes));
}

#[test]
fn a_nullable_type_accepts_null() {
    let classes = Vec::new();
    let t = DataType::Nullable(Box::new(DataType::Bool));
    assert!(is_compatible(&t, &DataType::Null, &classes));
    assert!(is_compatible(&t, &DataType::Bool, &classes));
    assert!(!is_compatible(&DataType::Bool, &DataType::Null, &classes));
}

#[test]
fn a_class_is_its_own_subclass() {
    let classes = Vec::new();
    assert!(is_subclass(&"A".to_string(), &"A".to_string(), &classes));
    assert!(!is_subclass(&"A".to_string(), &"B".to_string(), &classes));
}

#[test]
fn equality_of_same_types_is_bool() {
    let classes = Vec::new();
    assert_eq!(get_binary_type(&DataType::String, &BinaryOp::Equal, &DataType::String, &classes), Ok(DataType::Bool));
    assert_eq!(get_binary_type(&DataType::Int, &BinaryOp::Divide, &DataType::Int, &classes), Ok(DataType::Int));
    assert_eq!(get_binary_type(&DataType::String, &BinaryOp::Less, &DataType::String, &classes), Ok(DataType::Bool));
    assert!(get_binary_type(&DataType::String, &BinaryOp::Subtract, &DataType::String, &classes).is_err());
}

fn class(name: &str, parent: Option<&str>, id: usize) -> ClassData {
    ClassData {
        name: name.to_string(),
        vars: Vec::new(),
        funcs: Vec::new(),
        vtable: Vec::new(),
        parent: parent.map(|p| p.to_string()),
        constructor: 0,
        id,
    }
}

#[test]
fn subclass_follows_parents_listed_after_the_child() {
    let classes = vec![class("C", Some("B"), 0), class("B", Some("A"), 1), class("A", None, 2)];
    assert!(is_subclass(&"C".to_string(), &"A".to_string(), &classes));
    assert!(is_subclass(&"C".to_string(), &"B".to_string(), &classes));
    assert!(!is_subclass(&"A".to_string(), &"C".to_string(), &classes));
    let c = DataType::Instance("C".to_string());
    let a = DataType::Instance("A".to_string());
    assert!(is_compatible(&a, &c, &classes));
    assert!(!is_compatible(&c, &a, &classes));
}

#[test]
fn an_undeclared_variable_leaves_the_code_unchanged() {
    let mut ops = vec![OpCode::Print];
    let r = flatten_expression(&var("y"), &mut ops, &Vec::new(), &Vec::new(), &Vec::new(), &Vec::new());
    assert!(matches!(r, Err(FlattenError::UndeclaredVariable(_))));
    assert_eq!(ops, vec![OpCode::Print]);
}

#[test]
fn a_mistyped_argument_leaves_its_own_code() {
    let funcs = vec![FuncEntry { name: "f".to_string(), index: 1, ret: DataType::Int, params: vec![DataType::Int] }];
    let call = Expression::Call {
        callee: Box::new(var("f")),
        parameters: vec![Expression::Literal(LiteralType::Bool(true))],
    };
    let mut ops = Vec::new();
    match flatten_expression(&call, &mut ops, &Vec::new(), &Vec::new(), &funcs, &Vec::new()) {
        Err(FlattenError::UnexpectedParameterType { expected, received, index, .. }) => {
            assert_eq!(expected, DataType::Int);
            assert_eq!(received, DataType::Bool);
            assert_eq!(index, 0);
        },
        other => panic!("unexpected {:?}", other),
    }
    assert_eq!(ops, vec![OpCode::PushConst(LiteralType::Bool(true))]);
}

#[test]
fn a_wrong_argument_count_compiles_no_argument() {
    let funcs = vec![FuncEntry { name: "f".to_string(), index: 1, ret: DataType::Int, params: vec![] }];
    let call = Expression::Call { callee: Box::new(var("f")), parameters: vec![int_lit(1)] };
    let mut ops = Vec::new();
    let r = flatten_expression(&call, &mut ops, &Vec::new(), &Vec::new(), &funcs, &Vec::new());
    assert!(matches!(r, Err(FlattenError::UnexpectedParameterCount { .. })));
    assert!(ops.is_empty());
}

#[test]
fn compiling_an_expression_keeps_the_code_before_it() {
    let mut ops = vec![OpCode::Print, OpCode::Pop(2)];
    let e = bin(Expression::Literal(LiteralType::Bool(true)), BinaryOp::LOr, Expression::Literal(LiteralType::Bool(false)));
    let t = flatten_expression(&e, &mut ops, &Vec::new(), &Vec::new(), &Vec::new(), &Vec::new()).unwrap();
    assert_eq!(t, DataType::Bool);
    assert_eq!(ops[0], OpCode::Print);
    assert_eq!(ops[1], OpCode::Pop(2));
    assert!(ops.len() > 2);
}


#[test]
fn every_call_and_vtable_entry_opens_a_body() {
    let class_a = Statement::Class {
        name: "A".to_string(),
        block: vec![function("get", DataType::Int, vec![], vec![Statement::Return(Some(int_lit(1)))])],
        parent: None,
    };
    let class_b = Statement::Class {
        name: "B".to_string(),
        block: vec![function("two", DataType::Int, vec![], vec![Statement::Return(Some(int_lit(2)))])],
        parent: Some("A".to_string()),
    };
    let program = vec![
        function("f", DataType::Int, vec![(DataType::Int, "x".to_string())], vec![Statement::Return(Some(var("x")))]),
        class_a,
        class_b,
        Statement::Print(Expression::Call { callee: Box::new(var("f")), parameters: vec![int_lit(3)] }),
        declare("b", DataType::Instance("A".to_string()), Expression::Call { callee: Box::new(var("B")), parameters: vec![] }),
    ];
    let data = compile(&program).unwrap();
    assert_eq!(data.vtables.len(), 2);
    assert_eq!(data.vtables[1].len(), 2);
    let mut calls = 0;
    for op in &data.opcodes {
        if let OpCode::Call { index, .. } = op {
            calls += 1;
            assert_eq!(data.opcodes[*index], OpCode::NewStack);
        }
    }
    assert!(calls >= 3);
    for table in &data.vtables {
        for entry in table {
            assert_eq!(data.opcodes[*entry], OpCode::NewStack);
        }
    }
}

#[test]
fn a_function_returning_in_both_branches_needs_no_final_return() {
    let both = Statement::IfElse {
        condition: Expression::Literal(LiteralType::Bool(true)),
        block1: vec![Statement::Return(Some(int_lit(1)))],
        block2: vec![Statement::Return(Some(int_lit(2)))],
    };
    assert!(compile(&[function("f", DataType::Int, vec![], vec![both])]).is_ok());
    let one = Statement::If {
        condition: Expression::Literal(LiteralType::Bool(true)),
        block: vec![Statement::Return(Some(int_lit(1)))],
    };
    match compile(&[function("g", DataType::Int, vec![], vec![one])]) {
        Err(FlattenError::MissingReturnStatement(n)) => assert_eq!(n, "g"),
        other => panic!("unexpected {:?}", other.map(|d| d.opcodes)),
    }
}

#[test]
fn instructions_map_to_operators() {
    assert_eq!(binary_op_of(&OpCode::Add), Some(BinaryOp::Add));
    assert_eq!(binary_op_of(&OpCode::GreaterEqual), Some(BinaryOp::GreaterEqual));
    assert_eq!(binary_op_of(&OpCode::NotEqual), Some(BinaryOp::NotEqual));
    assert_eq!(binary_op_of(&OpCode::Print), None);
    assert_eq!(binary_op_of(&OpCode::Jump(3)), None);
}

#[test]
fn literals_have_their_types() {
    assert_eq!(literal_data_type(&LiteralType::Bool(false)), DataType::Bool);
    assert_eq!(literal_data_type(&LiteralType::Int(4)), DataType::Int);
    assert_eq!(literal_data_type(&LiteralType::Float(0)), DataType::Float);
    assert_eq!(literal_data_type(&LiteralType::String("s".to_string())), DataType::String);
    assert_eq!(literal_data_type(&LiteralType::Null), DataType::Null);
}
