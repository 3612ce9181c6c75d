//! Flattening of the syntax tree into stack-machine code, with type checking.
use vstd::prelude::*;

use crate::ast::{
    FunctionData, expr_size, expr_targets_ok, exprs_size, exprs_targets_ok, lemma_expr_size_pos, lemma_exprs_size,
    lemma_exprs_targets_ok, BinaryOp, DataType, Expression,
    LiteralType, Statement, UnaryOp,
};
use crate::ast::{lemma_stmts_targets_ok, stmt_targets_ok, stmts_targets_ok};
use crate::compiler::semantics::{
    block_code, loop_body_code, stmt_code, stmts_code, FnCtx, StateV, patch_breaks, param_types, function_code,
    deeper, receiver, this_name, bind_params, function_body_code, for_loop_code, extends, class_count, program_code, initial_state, class_code, static_members, instance_members, inherit,
    args_code, jump_target, jumps_within, binary_opcode, expr_code, literal_type, opcode_operator, qualified, reports, short_jump,
    short_operator, unary_opcode, unary_type, Scope,
};
use crate::compiler::tables::{
    bindings_view, classes_view, contains, find_first, find_last, funcs_view, is_this,
    lemma_binding_keys, lemma_class_keys, lemma_func_keys, lemma_method_keys, methods_view,
    qualified_name, Binding, ClassData, ClassV, FuncEntry, FuncV, LoopStart, loops_view, this_string,
};
use crate::compiler::typing::{get_binary_type, is_compatible};

verus! {

/// One instruction of the stack machine.
#[derive(Debug, Clone, PartialEq)]
pub enum OpCode {
    PushConst(LiteralType),
    Pop(usize),
    LNot,
    Negate,
    Add,
    Subtract,
    Multiply,
    Divide,
    Equal,
    Greater,
    GreaterEqual,
    Less,
    LessEqual,
    NotEqual,
    JumpIfTrue { index: usize, pop: bool },
    JumpIfFalse { index: usize, pop: bool },
    Jump(usize),
    GetVar(usize),
    SetVar(usize),
    GetGlobal(usize),
    SetGlobal(usize),
    DefineGlobal,
    Call { index: usize, parameters: usize },
    CallVirtual { slot: usize, parameters: usize },
    Return,
    Print,
    GetMember(usize),
    SetMember(usize),
    NewStack,
    PopStack,
    NewInstance(usize),
}

impl OpCode {
    /// A copy of the instruction.
    pub fn copy(&self) -> (r: OpCode)
        ensures
            r == *self,
    {
        match self {
            OpCode::PushConst(l) => OpCode::PushConst(l.copy()),
            OpCode::Pop(n) => OpCode::Pop(*n),
            OpCode::LNot => OpCode::LNot,
            OpCode::Negate => OpCode::Negate,
            OpCode::Add => OpCode::Add,
            OpCode::Subtract => OpCode::Subtract,
            OpCode::Multiply => OpCode::Multiply,
            OpCode::Divide => OpCode::Divide,
            OpCode::Equal => OpCode::Equal,
            OpCode::Greater => OpCode::Greater,
            OpCode::GreaterEqual => OpCode::GreaterEqual,
            OpCode::Less => OpCode::Less,
            OpCode::LessEqual => OpCode::LessEqual,
            OpCode::NotEqual => OpCode::NotEqual,
            OpCode::JumpIfTrue { index, pop } => OpCode::JumpIfTrue { index: *index, pop: *pop },
            OpCode::JumpIfFalse { index, pop } => OpCode::JumpIfFalse { index: *index, pop: *pop },
            OpCode::Jump(i) => OpCode::Jump(*i),
            OpCode::GetVar(i) => OpCode::GetVar(*i),
            OpCode::SetVar(i) => OpCode::SetVar(*i),
            OpCode::GetGlobal(i) => OpCode::GetGlobal(*i),
            OpCode::SetGlobal(i) => OpCode::SetGlobal(*i),
            OpCode::DefineGlobal => OpCode::DefineGlobal,
            OpCode::Call { index, parameters } => OpCode::Call { index: *index, parameters: *parameters },
            OpCode::CallVirtual { slot, parameters } =>
                OpCode::CallVirtual { slot: *slot, parameters: *parameters },
            OpCode::Return => OpCode::Return,
            OpCode::Print => OpCode::Print,
            OpCode::GetMember(i) => OpCode::GetMember(*i),
            OpCode::SetMember(i) => OpCode::SetMember(*i),
            OpCode::NewStack => OpCode::NewStack,
            OpCode::PopStack => OpCode::PopStack,
            OpCode::NewInstance(i) => OpCode::NewInstance(*i),
        }
    }
}

/// Why a program was refused.
#[derive(Debug)]
pub enum FlattenError {
    UndeclaredVariable(String),
    UndeclaredFunction(String),
    UndeclaredClass(String),
    InvalidFunctionCallee(Box<Expression>),
    ContinueOutsideLoop,
    BreakOutsideLoop,
    Shadowing(String),
    FunctionDeclarationInsideScope(String),
    ClassDeclarationInsideScope(String),
    UnexpectedClassMember(Statement),
    UnexpectedOverride(String),
    UndeclaredClassVar(String),
    UndeclaredClassFunction(String),
    UnexpectedBinaryOpOpCode(OpCode),
    UnexpectedBinaryOpOperands { left: DataType, operator: BinaryOp, right: DataType },
    UnexpectedUnaryOpOperands { operator: UnaryOp, operand: DataType },
    UnexpectedParameterCount { callee: Box<Expression>, expected: usize, received: usize },
    ExpressionIsNotClass(Box<Expression>),
    StaticOutsideClass(String),
    UnexpectedParameterType { callee: Box<Expression>, expected: DataType, received: DataType, index: usize },
    UnexpectedDeclarationValueType { variable: String, expected: DataType, received: DataType },
    UnexpectedAssignmentValueType { variable: String, expected: DataType, received: DataType },
    UnexpectedReturnValueType { func: String, expected: DataType, received: DataType },
    ReturnOutsideFunction,
    MissingReturnStatement(String),
    UnpatchedConstructor(String),
    ParentIsSelf(String),
    UnexpectedOverrideSignature {
        name: String,
        expected: (DataType, Vec<DataType>),
        received: (DataType, Vec<DataType>),
    },
    ReservedKeyword(String),
    UnexpectedAssignmentTarget(Box<Expression>),
}

/// The compiled program: its code, and the vtable of each class by class id.
pub struct CompiledData {
    pub opcodes: Vec<OpCode>,
    pub vtables: Vec<Vec<usize>>,
}


/// The names visible to an expression, read from the compiler's tables.
pub open spec fn scope_of(
    globals: Seq<Binding>,
    vars: Seq<Binding>,
    funcs: Seq<FuncEntry>,
    classes: Seq<ClassData>,
) -> Scope {
    Scope {
        globals: bindings_view(globals),
        vars: bindings_view(vars),
        funcs: funcs_view(funcs),
        classes: classes_view(classes),
    }
}

/// `r` and the code `after` are what `expr_code` gives for `e` appended to `before`, on
/// success and on refusal alike.
pub open spec fn expr_outcome(
    sc: Scope,
    before: Seq<OpCode>,
    e: Expression,
    after: Seq<OpCode>,
    r: Result<DataType, FlattenError>,
) -> bool {
    match expr_code(sc, before, e) {
        Ok((o, d)) => r == Ok::<DataType, FlattenError>(d) && after == o,
        Err((v, o)) => r is Err && reports(r->Err_0, v) && after == o,
    }
}

/// Position `e` of the code holds the `NewStack` that opens a function body.
pub open spec fn lands(ops: Seq<OpCode>, e: int) -> bool {
    0 <= e < ops.len() && ops[e] is NewStack
}

/// Every `Call` of the code enters a function body at its `NewStack`.
pub open spec fn calls_land(ops: Seq<OpCode>) -> bool {
    forall|i: int| #![trigger ops[i]] 0 <= i < ops.len() && ops[i] is Call ==> lands(ops, ops[i]->Call_index as int)
}

/// Every function entry, constructor and vtable entry of the tables opens a body with a
/// `NewStack`, except a constructor not yet placed (0) and an entry at position `p`
/// whose body is about to be emitted.
pub open spec fn entries_land(ops: Seq<OpCode>, funcs: Seq<FuncV>, classes: Seq<ClassV>, p: int) -> bool {
    &&& forall|f: int| #![trigger funcs[f]] 0 <= f < funcs.len() ==> lands(ops, funcs[f].index as int) || funcs[f].index == p
    &&& forall|k: int| #![trigger classes[k]] 0 <= k < classes.len() ==> {
        &&& (classes[k].constructor == 0 || lands(ops, classes[k].constructor as int) || classes[k].constructor == p)
        &&& forall|j: int| 0 <= j < classes[k].vtable.len() ==> lands(ops, #[trigger] classes[k].vtable[j] as int)
            || classes[k].vtable[j] == p
    }
}

/// The operator that an arithmetic or comparison instruction computes.
pub fn binary_op_of(opcode: &OpCode) -> (r: Option<BinaryOp>)
    ensures
        r == opcode_operator(*opcode),
{
    match opcode {
        OpCode::Add => Some(BinaryOp::Add),
        OpCode::Subtract => Some(BinaryOp::Subtract),
        OpCode::Multiply => Some(BinaryOp::Multiply),
        OpCode::Divide => Some(BinaryOp::Divide),
        OpCode::Equal => Some(BinaryOp::Equal),
        OpCode::NotEqual => Some(BinaryOp::NotEqual),
        OpCode::Less => Some(BinaryOp::Less),
        OpCode::LessEqual => Some(BinaryOp::LessEqual),
        OpCode::Greater => Some(BinaryOp::Greater),
        OpCode::GreaterEqual => Some(BinaryOp::GreaterEqual),
        _ => None,
    }
}

/// The type of a literal.
pub fn literal_data_type(l: &LiteralType) -> (r: DataType)
    ensures
        r == literal_type(*l),
{
    match l {
        LiteralType::Bool(_) => DataType::Bool,
        LiteralType::Int(_) => DataType::Int,
        LiteralType::Float(_) => DataType::Float,
        LiteralType::String(_) => DataType::String,
        LiteralType::Null => DataType::Null,
    }
}

/// Flattens the arguments of a call, checking each against its declared type.
#[verifier::spinoff_prover]
fn flatten_args(
    callee: &Expression,
    args: &Vec<Expression>,
    expected: &Vec<DataType>,
    opcodes: &mut Vec<OpCode>,
    global_vars: &Vec<Binding>,
    vars: &Vec<Binding>,
    funcs: &Vec<FuncEntry>,
    classes: &Vec<ClassData>,
) -> (r: Result<(), FlattenError>)
    requires
        exprs_targets_ok(args@),
        args@.len() == expected@.len(),
    ensures
        match args_code(scope_of(global_vars@, vars@, funcs@, classes@), old(opcodes)@, *callee, args@, expected@, 0) {
            Ok(o) => r is Ok && final(opcodes)@ == o,
            Err((v, o)) => r is Err && reports(r->Err_0, v) && final(opcodes)@ == o,
        },
        r is Ok ==> final(opcodes)@.len() >= old(opcodes)@.len() + args@.len() && extends(old(opcodes)@, final(opcodes)@),
        r is Ok && jumps_within(old(opcodes)@) ==> jumps_within(final(opcodes)@),
        r is Ok && calls_land(old(opcodes)@) && entries_land(old(opcodes)@, funcs_view(funcs@), classes_view(classes@), -1)
            ==> calls_land(final(opcodes)@),
    decreases exprs_size(args@) + 1, 1int,
{
    let ghost sc = scope_of(global_vars@, vars@, funcs@, classes@);
    let ghost ops0 = opcodes@;
    let mut k: usize = 0;
    while k < args.len()
        invariant
            sc == scope_of(global_vars@, vars@, funcs@, classes@),
            ops0 == old(opcodes)@,
            exprs_targets_ok(args@),
            args@.len() == expected@.len(),
            k <= args@.len(),
            args_code(sc, ops0, *callee, args@, expected@, 0) == args_code(sc, opcodes@, *callee, args@, expected@, k as int),
            opcodes@.len() >= ops0.len() + k,
            extends(ops0, opcodes@),
            jumps_within(ops0) ==> jumps_within(opcodes@),
            calls_land(ops0) && entries_land(ops0, funcs_view(funcs@), classes_view(classes@), -1) ==> calls_land(opcodes@),
        decreases args@.len() - k,
    {
        proof {
            lemma_exprs_targets_ok(args@, k as int);
            lemma_exprs_size(args@, k as int);
        }
        let res = flatten_expression(&args[k], opcodes, global_vars, vars, funcs, classes);
        let d = match res {
            Ok(d) => d,
            Err(e) => return Err(e),
        };
        if !is_compatible(&expected[k], &d, classes) {
            return Err(FlattenError::UnexpectedParameterType {
                callee: Box::new(callee.copy()),
                expected: expected[k].copy(),
                received: d,
                index: k,
            });
        }
        k = k + 1;
    }
    Ok(())
}

/// Flattens an expression onto `opcodes` and returns its static type.
#[verifier::spinoff_prover]
pub fn flatten_expression(
    expression: &Expression,
    opcodes: &mut Vec<OpCode>,
    global_vars: &Vec<Binding>,
    vars: &Vec<Binding>,
    funcs: &Vec<FuncEntry>,
    classes: &Vec<ClassData>,
) -> (r: Result<DataType, FlattenError>)
    requires
        expr_targets_ok(*expression),
    ensures
        expr_outcome(scope_of(global_vars@, vars@, funcs@, classes@), old(opcodes)@, *expression, final(opcodes)@, r),
        r is Ok ==> final(opcodes)@.len() > old(opcodes)@.len() && extends(old(opcodes)@, final(opcodes)@),
        r is Ok && jumps_within(old(opcodes)@) ==> jumps_within(final(opcodes)@),
        r is Ok && calls_land(old(opcodes)@) && entries_land(old(opcodes)@, funcs_view(funcs@), classes_view(classes@), -1)
            ==> calls_land(final(opcodes)@),
    decreases expr_size(*expression), 2int,
{
    proof {
        lemma_binding_keys(global_vars@);
        lemma_binding_keys(vars@);
        lemma_func_keys(funcs@);
        lemma_class_keys(classes@);
    }
    match expression {
        Expression::Unary { operator, right } => {
            flatten_unary(operator, right, opcodes, global_vars, vars, funcs, classes)
        },
        Expression::Binary { left, operator, right } => {
            flatten_binary(left, operator, right, opcodes, global_vars, vars, funcs, classes)
        },
        Expression::Literal(l) => {
            opcodes.push(OpCode::PushConst(l.copy()));
            Ok(literal_data_type(l))
        },
        Expression::Variable(i) => {
            match find_last(vars, i) {
                Some(index) => {
                    opcodes.push(OpCode::GetVar(index));
                    Ok(vars[index].data_type.copy())
                },
                None => match find_last(global_vars, i) {
                    Some(index) => {
                        opcodes.push(OpCode::GetGlobal(index));
                        Ok(global_vars[index].data_type.copy())
                    },
                    None => Err(FlattenError::UndeclaredVariable(i.clone())),
                },
            }
        },
        Expression::Assignment { .. } => flatten_assignment(expression, opcodes, global_vars, vars, funcs, classes),
        Expression::Call { .. } => flatten_call(expression, opcodes, global_vars, vars, funcs, classes),
        Expression::MemberAccess { .. } => flatten_member_access(expression, opcodes, global_vars, vars, funcs, classes),
    }
}

/// Flattens an expression of the form `target = value`.
#[verifier::spinoff_prover]
fn flatten_assignment(
    expression: &Expression,
    opcodes: &mut Vec<OpCode>,
    global_vars: &Vec<Binding>,
    vars: &Vec<Binding>,
    funcs: &Vec<FuncEntry>,
    classes: &Vec<ClassData>,
) -> (r: Result<DataType, FlattenError>)
    requires
        expression is Assignment,
        expr_targets_ok(*expression),
    ensures
        expr_outcome(scope_of(global_vars@, vars@, funcs@, classes@), old(opcodes)@, *expression, final(opcodes)@, r),
        r is Ok ==> final(opcodes)@.len() > old(opcodes)@.len() && extends(old(opcodes)@, final(opcodes)@),
        r is Ok && jumps_within(old(opcodes)@) ==> jumps_within(final(opcodes)@),
        r is Ok && calls_land(old(opcodes)@) && entries_land(old(opcodes)@, funcs_view(funcs@), classes_view(classes@), -1)
            ==> calls_land(final(opcodes)@),
    decreases expr_size(*expression), 1int,
{
    proof {
        lemma_binding_keys(global_vars@);
        lemma_binding_keys(vars@);
        lemma_func_keys(funcs@);
        lemma_class_keys(classes@);
    }
    match expression {
        Expression::Assignment { target, value } => {
            assert(expr_size(**target) < expr_size(*expression));
            assert(expr_targets_ok(**target));
            match &**target {
                Expression::Variable(i) => {
                    if is_this(i) {
                        return Err(FlattenError::UnexpectedAssignmentTarget(Box::new(target.copy())));
                    }
                    let value_type = match flatten_expression(value, opcodes, global_vars, vars, funcs, classes) {
                        Ok(d) => d,
                        Err(e) => return Err(e),
                    };
                    match find_last(vars, i) {
                        Some(index) => {
                            if !is_compatible(&vars[index].data_type, &value_type, classes) {
                                return Err(FlattenError::UnexpectedAssignmentValueType {
                                    variable: i.clone(),
                                    expected: vars[index].data_type.copy(),
                                    received: value_type,
                                });
                            }
                            opcodes.push(OpCode::SetVar(index));
                        },
                        None => match find_last(global_vars, i) {
                            Some(index) => {
                                if !is_compatible(&global_vars[index].data_type, &value_type, classes) {
                                    return Err(FlattenError::UnexpectedAssignmentValueType {
                                        variable: i.clone(),
                                        expected: global_vars[index].data_type.copy(),
                                        received: value_type,
                                    });
                                }
                                opcodes.push(OpCode::SetGlobal(index));
                            },
                            None => return Err(FlattenError::UndeclaredVariable(i.clone())),
                        },
                    }
                    Ok(value_type)
                },
                Expression::MemberAccess { class, member } => {
                    if let Expression::Variable(name) = &**class {
                        if contains(classes, name) {
                            let qn = qualified_name(name, member);
                            match find_first(global_vars, &qn) {
                                Some(index) => {
                                    let d = match flatten_expression(value, opcodes, global_vars, vars, funcs, classes) {
                                        Ok(d) => d,
                                        Err(e) => return Err(e),
                                    };
                                    if !is_compatible(&global_vars[index].data_type, &d, classes) {
                                        return Err(FlattenError::UnexpectedAssignmentValueType {
                                            variable: qn,
                                            expected: global_vars[index].data_type.copy(),
                                            received: d,
                                        });
                                    }
                                    opcodes.push(OpCode::SetGlobal(index));
                                    return Ok(d);
                                },
                                None => return Err(FlattenError::UndeclaredClassVar(qn)),
                            }
                        }
                    }
                    let class_type = match flatten_expression(class, opcodes, global_vars, vars, funcs, classes) {
                        Ok(d) => d,
                        Err(e) => return Err(e),
                    };
                    if let DataType::Instance(name) = &class_type {
                        if let Some(ci) = find_first(classes, name) {
                            let class_data = &classes[ci];
                            proof {
                                lemma_binding_keys(class_data.vars@);
                            }
                            match find_first(&class_data.vars, member) {
                                Some(index) => {
                                    let d = match flatten_expression(value, opcodes, global_vars, vars, funcs, classes) {
                                        Ok(d) => d,
                                        Err(e) => return Err(e),
                                    };
                                    if !is_compatible(&class_data.vars[index].data_type, &d, classes) {
                                        return Err(FlattenError::UnexpectedAssignmentValueType {
                                            variable: qualified_name(name, member),
                                            expected: class_data.vars[index].data_type.copy(),
                                            received: d,
                                        });
                                    }
                                    opcodes.push(OpCode::SetMember(index));
                                    return Ok(d);
                                },
                                None => return Err(FlattenError::UndeclaredClassVar(qualified_name(name, member))),
                            }
                        }
                    }
                    Err(FlattenError::ExpressionIsNotClass(Box::new(class.copy())))
                },
                _ => Err(FlattenError::UnexpectedAssignmentTarget(Box::new(target.copy()))),
            }
        },
        _ => Err(FlattenError::ContinueOutsideLoop),
    }
}

/// Flattens an expression of the form `callee(arguments)`.
#[verifier::spinoff_prover]
fn flatten_call(
    expression: &Expression,
    opcodes: &mut Vec<OpCode>,
    global_vars: &Vec<Binding>,
    vars: &Vec<Binding>,
    funcs: &Vec<FuncEntry>,
    classes: &Vec<ClassData>,
) -> (r: Result<DataType, FlattenError>)
    requires
        expression is Call,
        expr_targets_ok(*expression),
    ensures
        expr_outcome(scope_of(global_vars@, vars@, funcs@, classes@), old(opcodes)@, *expression, final(opcodes)@, r),
        r is Ok ==> final(opcodes)@.len() > old(opcodes)@.len() && extends(old(opcodes)@, final(opcodes)@),
        r is Ok && jumps_within(old(opcodes)@) ==> jumps_within(final(opcodes)@),
        r is Ok && calls_land(old(opcodes)@) && entries_land(old(opcodes)@, funcs_view(funcs@), classes_view(classes@), -1)
            ==> calls_land(final(opcodes)@),
    decreases expr_size(*expression), 1int,
{
    proof {
        lemma_binding_keys(global_vars@);
        lemma_binding_keys(vars@);
        lemma_func_keys(funcs@);
        lemma_class_keys(classes@);
    }
    match expression {
        Expression::Call { callee, parameters } => {
            assert(expr_size(**callee) < expr_size(*expression));
            assert(expr_targets_ok(**callee));
            match &**callee {
                Expression::Variable(i) => {
                    if let Some(fi) = find_first(funcs, i) {
                        let f = &funcs[fi];
                        if parameters.len() != f.params.len() {
                            return Err(FlattenError::UnexpectedParameterCount {
                                callee: Box::new(callee.copy()),
                                expected: f.params.len(),
                                received: parameters.len(),
                            });
                        }
                        match flatten_args(callee, parameters, &f.params, opcodes, global_vars, vars, funcs, classes) {
                            Ok(()) => {},
                            Err(e) => return Err(e),
                        }
                        opcodes.push(OpCode::Call { index: f.index, parameters: parameters.len() });
                        Ok(f.ret.copy())
                    } else if let Some(ci) = find_first(classes, i) {
                        let c = &classes[ci];
                        if parameters.len() != 0 {
                            return Err(FlattenError::UnexpectedParameterCount {
                                callee: Box::new(callee.copy()),
                                expected: 0,
                                received: parameters.len(),
                            });
                        }
                        if c.constructor == 0 {
                            return Err(FlattenError::UnpatchedConstructor(i.clone()));
                        }
                        opcodes.push(OpCode::NewInstance(c.id));
                        opcodes.push(OpCode::Call { index: c.constructor, parameters: 1 });
                        Ok(DataType::Instance(i.clone()))
                    } else {
                        Err(FlattenError::UndeclaredFunction(i.clone()))
                    }
                },
                Expression::MemberAccess { class, member } => {
                    if let Expression::Variable(n) = &**class {
                        if contains(classes, n) {
                            let qn = qualified_name(n, member);
                            match find_first(funcs, &qn) {
                                Some(fi) => {
                                    let f = &funcs[fi];
                                    if parameters.len() != f.params.len() {
                                        return Err(FlattenError::UnexpectedParameterCount {
                                            callee: Box::new(callee.copy()),
                                            expected: f.params.len(),
                                            received: parameters.len(),
                                        });
                                    }
                                    match flatten_args(callee, parameters, &f.params, opcodes, global_vars, vars, funcs, classes) {
                                        Ok(()) => {},
                                        Err(e) => return Err(e),
                                    }
                                    opcodes.push(OpCode::Call { index: f.index, parameters: parameters.len() });
                                    return Ok(f.ret.copy());
                                },
                                None => return Err(FlattenError::UndeclaredClassFunction(qn)),
                            }
                        }
                    }
                    let class_type = match flatten_expression(class, opcodes, global_vars, vars, funcs, classes) {
                        Ok(d) => d,
                        Err(e) => return Err(e),
                    };
                    if let DataType::Instance(class_name) = &class_type {
                        if let Some(ci) = find_first(classes, class_name) {
                            let class_data = &classes[ci];
                            proof {
                                lemma_method_keys(class_data.funcs@);
                            }
                            match find_first(&class_data.funcs, member) {
                                Some(mi) => {
                                    let m = &class_data.funcs[mi];
                                    if parameters.len() != m.params.len() {
                                        return Err(FlattenError::UnexpectedParameterCount {
                                            callee: Box::new(callee.copy()),
                                            expected: m.params.len(),
                                            received: parameters.len(),
                                        });
                                    }
                                    match flatten_args(callee, parameters, &m.params, opcodes, global_vars, vars, funcs, classes) {
                                        Ok(()) => {},
                                        Err(e) => return Err(e),
                                    }
                                    assert(opcodes.len() >= parameters@.len() + 1);
                                    opcodes.push(OpCode::CallVirtual { slot: m.slot, parameters: parameters.len() + 1 });
                                    return Ok(m.ret.copy());
                                },
                                None => return Err(FlattenError::UndeclaredClassFunction(qualified_name(class_name, member))),
                            }
                        }
                        return Err(FlattenError::UndeclaredClass(class_name.clone()));
                    }
                    Err(FlattenError::ExpressionIsNotClass(Box::new(class.copy())))
                },
                _ => Err(FlattenError::InvalidFunctionCallee(Box::new(callee.copy()))),
            }
        },
        _ => Err(FlattenError::ContinueOutsideLoop),
    }
}

/// Flattens an expression of the form `object.member`.
#[verifier::spinoff_prover]
fn flatten_member_access(
    expression: &Expression,
    opcodes: &mut Vec<OpCode>,
    global_vars: &Vec<Binding>,
    vars: &Vec<Binding>,
    funcs: &Vec<FuncEntry>,
    classes: &Vec<ClassData>,
) -> (r: Result<DataType, FlattenError>)
    requires
        expression is MemberAccess,
        expr_targets_ok(*expression),
    ensures
        expr_outcome(scope_of(global_vars@, vars@, funcs@, classes@), old(opcodes)@, *expression, final(opcodes)@, r),
        r is Ok ==> final(opcodes)@.len() > old(opcodes)@.len() && extends(old(opcodes)@, final(opcodes)@),
        r is Ok && jumps_within(old(opcodes)@) ==> jumps_within(final(opcodes)@),
        r is Ok && calls_land(old(opcodes)@) && entries_land(old(opcodes)@, funcs_view(funcs@), classes_view(classes@), -1)
            ==> calls_land(final(opcodes)@),
    decreases expr_size(*expression), 1int,
{
    proof {
        lemma_binding_keys(global_vars@);
        lemma_binding_keys(vars@);
        lemma_func_keys(funcs@);
        lemma_class_keys(classes@);
    }
    match expression {
        Expression::MemberAccess { class, member } => {
            if let Expression::Variable(name) = &**class {
                if contains(classes, name) {
                    let qn = qualified_name(name, member);
                    match find_first(global_vars, &qn) {
                        Some(index) => {
                            opcodes.push(OpCode::GetGlobal(index));
                            return Ok(global_vars[index].data_type.copy());
                        },
                        None => return Err(FlattenError::UndeclaredClassVar(qn)),
                    }
                }
            }
            let class_type = match flatten_expression(class, opcodes, global_vars, vars, funcs, classes) {
                Ok(d) => d,
                Err(e) => return Err(e),
            };
            if let DataType::Instance(name) = &class_type {
                if let Some(ci) = find_first(classes, name) {
                    let class_data = &classes[ci];
                    proof {
                        lemma_binding_keys(class_data.vars@);
                    }
                    match find_first(&class_data.vars, member) {
                        Some(index) => {
                            opcodes.push(OpCode::GetMember(index));
                            return Ok(class_data.vars[index].data_type.copy());
                        },
                        None => return Err(FlattenError::UndeclaredClassVar(qualified_name(name, member))),
                    }
                }
            }
            Err(FlattenError::ExpressionIsNotClass(Box::new(class.copy())))
        },
        _ => Err(FlattenError::ContinueOutsideLoop),
    }
}

/// Flattens a unary expression: the operand, then `LNot` or `Negate`.
#[verifier::spinoff_prover]
fn flatten_unary(
    operator: &UnaryOp,
    right: &Box<Expression>,
    opcodes: &mut Vec<OpCode>,
    global_vars: &Vec<Binding>,
    vars: &Vec<Binding>,
    funcs: &Vec<FuncEntry>,
    classes: &Vec<ClassData>,
) -> (r: Result<DataType, FlattenError>)
    requires
        expr_targets_ok(**right),
    ensures
        expr_outcome(
            scope_of(global_vars@, vars@, funcs@, classes@),
            old(opcodes)@,
            Expression::Unary { operator: *operator, right: *right },
            final(opcodes)@,
            r,
        ),
        r is Ok ==> final(opcodes)@.len() > old(opcodes)@.len() && extends(old(opcodes)@, final(opcodes)@),
        r is Ok && jumps_within(old(opcodes)@) ==> jumps_within(final(opcodes)@),
        r is Ok && calls_land(old(opcodes)@) && entries_land(old(opcodes)@, funcs_view(funcs@), classes_view(classes@), -1)
            ==> calls_land(final(opcodes)@),
    decreases 1 + expr_size(**right), 1int,
{
    let operand_type = match flatten_expression(right, opcodes, global_vars, vars, funcs, classes) {
        Ok(t) => t,
        Err(e) => return Err(e),
    };
    let d = match (operator, &operand_type) {
        (UnaryOp::LNot, DataType::Bool) => DataType::Bool,
        (UnaryOp::Negate, DataType::Int) => DataType::Int,
        (UnaryOp::Negate, DataType::Float) => DataType::Float,
        _ => return Err(FlattenError::UnexpectedUnaryOpOperands { operator: *operator, operand: operand_type }),
    };
    opcodes.push(
        match operator {
            UnaryOp::LNot => OpCode::LNot,
            UnaryOp::Negate => OpCode::Negate,
        },
    );
    Ok(d)
}

/// Flattens a binary expression: `||` and `&&` short-circuit, the others evaluate both operands.
#[verifier::spinoff_prover]
fn flatten_binary(
    left: &Box<Expression>,
    operator: &BinaryOp,
    right: &Box<Expression>,
    opcodes: &mut Vec<OpCode>,
    global_vars: &Vec<Binding>,
    vars: &Vec<Binding>,
    funcs: &Vec<FuncEntry>,
    classes: &Vec<ClassData>,
) -> (r: Result<DataType, FlattenError>)
    requires
        expr_targets_ok(**left),
        expr_targets_ok(**right),
    ensures
        expr_outcome(
            scope_of(global_vars@, vars@, funcs@, classes@),
            old(opcodes)@,
            Expression::Binary { left: *left, operator: *operator, right: *right },
            final(opcodes)@,
            r,
        ),
        r is Ok ==> final(opcodes)@.len() > old(opcodes)@.len() && extends(old(opcodes)@, final(opcodes)@),
        r is Ok && jumps_within(old(opcodes)@) ==> jumps_within(final(opcodes)@),
        r is Ok && calls_land(old(opcodes)@) && entries_land(old(opcodes)@, funcs_view(funcs@), classes_view(classes@), -1)
            ==> calls_land(final(opcodes)@),
    decreases 1 + expr_size(**left) + expr_size(**right), 1int,
{
    match operator {
        BinaryOp::LOr => short_circuit_binary(left, right, true, opcodes, global_vars, vars, funcs, classes),
        BinaryOp::LAnd => short_circuit_binary(left, right, false, opcodes, global_vars, vars, funcs, classes),
        BinaryOp::Add => normal_binary(left, right, OpCode::Add, opcodes, global_vars, vars, funcs, classes),
        BinaryOp::Subtract => normal_binary(left, right, OpCode::Subtract, opcodes, global_vars, vars, funcs, classes),
        BinaryOp::Multiply => normal_binary(left, right, OpCode::Multiply, opcodes, global_vars, vars, funcs, classes),
        BinaryOp::Divide => normal_binary(left, right, OpCode::Divide, opcodes, global_vars, vars, funcs, classes),
        BinaryOp::Equal => normal_binary(left, right, OpCode::Equal, opcodes, global_vars, vars, funcs, classes),
        BinaryOp::Greater => normal_binary(left, right, OpCode::Greater, opcodes, global_vars, vars, funcs, classes),
        BinaryOp::GreaterEqual => normal_binary(left, right, OpCode::GreaterEqual, opcodes, global_vars, vars, funcs, classes),
        BinaryOp::Less => normal_binary(left, right, OpCode::Less, opcodes, global_vars, vars, funcs, classes),
        BinaryOp::LessEqual => normal_binary(left, right, OpCode::LessEqual, opcodes, global_vars, vars, funcs, classes),
        BinaryOp::NotEqual => normal_binary(left, right, OpCode::NotEqual, opcodes, global_vars, vars, funcs, classes),
    }
}


} // verus!
verus! {

/// Flattens a binary expression whose operands are both evaluated.
#[verifier::spinoff_prover]
fn normal_binary(
    left: &Box<Expression>,
    right: &Box<Expression>,
    opcode: OpCode,
    opcodes: &mut Vec<OpCode>,
    global_vars: &Vec<Binding>,
    vars: &Vec<Binding>,
    funcs: &Vec<FuncEntry>,
    classes: &Vec<ClassData>,
) -> (r: Result<DataType, FlattenError>)
    requires
        expr_targets_ok(**left),
        expr_targets_ok(**right),
    ensures
        ({
            let sc = scope_of(global_vars@, vars@, funcs@, classes@);
            match expr_code(sc, old(opcodes)@, **left) {
                Err((x, o)) => r is Err && reports(r->Err_0, x) && final(opcodes)@ == o,
                Ok((o1, l)) => match expr_code(sc, o1, **right) {
                    Err((x, o)) => r is Err && reports(r->Err_0, x) && final(opcodes)@ == o,
                    Ok((o2, rt)) => match opcode_operator(opcode) {
                        None => r is Err && reports(r->Err_0, crate::compiler::semantics::Refusal::UnexpectedBinaryOpOpCode(opcode))
                            && final(opcodes)@ == o2,
                        Some(op) => match crate::compiler::typing::binary_type(sc.classes, l, op, rt) {
                            None => r is Err && reports(
                                r->Err_0,
                                crate::compiler::semantics::Refusal::UnexpectedBinaryOpOperands { left: l, operator: op, right: rt },
                            ) && final(opcodes)@ == o2,
                            Some(d) => r == Ok::<DataType, FlattenError>(d) && final(opcodes)@ == o2.push(opcode),
                        },
                    },
                },
            }
        }),
        r is Ok ==> final(opcodes)@.len() > old(opcodes)@.len() && extends(old(opcodes)@, final(opcodes)@),
        r is Ok && jumps_within(old(opcodes)@) ==> jumps_within(final(opcodes)@),
        r is Ok && calls_land(old(opcodes)@) && entries_land(old(opcodes)@, funcs_view(funcs@), classes_view(classes@), -1)
            ==> calls_land(final(opcodes)@),
    decreases 1 + expr_size(**left) + expr_size(**right), 0int,
{
    proof {
        lemma_expr_size_pos(**left);
        lemma_expr_size_pos(**right);
    }
    let l = match flatten_expression(left, opcodes, global_vars, vars, funcs, classes) {
        Ok(d) => d,
        Err(e) => return Err(e),
    };
    let rt = match flatten_expression(right, opcodes, global_vars, vars, funcs, classes) {
        Ok(d) => d,
        Err(e) => return Err(e),
    };
    let operator = match binary_op_of(&opcode) {
        Some(op) => op,
        None => return Err(FlattenError::UnexpectedBinaryOpOpCode(opcode.copy())),
    };
    let d = match get_binary_type(&l, &operator, &rt, classes) {
        Ok(d) => d,
        Err(_) => return Err(FlattenError::UnexpectedBinaryOpOperands { left: l, operator, right: rt }),
    };
    opcodes.push(opcode);
    Ok(d)
}

/// Flattens `||` (`jump_on` true) or `&&` (false): the right operand is skipped
/// when the left one decides.
#[verifier::spinoff_prover]
fn short_circuit_binary(
    left: &Box<Expression>,
    right: &Box<Expression>,
    jump_on: bool,
    opcodes: &mut Vec<OpCode>,
    global_vars: &Vec<Binding>,
    vars: &Vec<Binding>,
    funcs: &Vec<FuncEntry>,
    classes: &Vec<ClassData>,
) -> (r: Result<DataType, FlattenError>)
    requires
        expr_targets_ok(**left),
        expr_targets_ok(**right),
    ensures
        ({
            let sc = scope_of(global_vars@, vars@, funcs@, classes@);
            match expr_code(sc, old(opcodes)@, **left) {
                Err((x, o)) => r is Err && reports(r->Err_0, x) && final(opcodes)@ == o,
                Ok((o1, l)) => if !(l is Bool) {
                    r is Err && reports(
                        r->Err_0,
                        crate::compiler::semantics::Refusal::UnexpectedBinaryOpOperands {
                            left: l,
                            operator: short_operator(jump_on),
                            right: DataType::Bool,
                        },
                    ) && final(opcodes)@ == o1
                } else {
                    let start = o1.len() as int;
                    let o2 = o1.push(short_jump(jump_on, 0)).push(OpCode::Pop(1));
                    match expr_code(sc, o2, **right) {
                        Err((x, o)) => r is Err && reports(r->Err_0, x) && final(opcodes)@ == o,
                        Ok((o3, rt)) => if !(rt is Bool) {
                            r is Err && reports(
                                r->Err_0,
                                crate::compiler::semantics::Refusal::UnexpectedBinaryOpOperands {
                                    left: l,
                                    operator: short_operator(jump_on),
                                    right: rt,
                                },
                            ) && final(opcodes)@ == o3
                        } else {
                            r == Ok::<DataType, FlattenError>(DataType::Bool)
                                && final(opcodes)@ == o3.update(start, short_jump(jump_on, o3.len() as usize))
                        },
                    }
                },
            }
        }),
        r is Ok ==> final(opcodes)@.len() > old(opcodes)@.len() && extends(old(opcodes)@, final(opcodes)@),
        r is Ok && jumps_within(old(opcodes)@) ==> jumps_within(final(opcodes)@),
        r is Ok && calls_land(old(opcodes)@) && entries_land(old(opcodes)@, funcs_view(funcs@), classes_view(classes@), -1)
            ==> calls_land(final(opcodes)@),
    decreases 1 + expr_size(**left) + expr_size(**right), 0int,
{
    proof {
        lemma_expr_size_pos(**left);
        lemma_expr_size_pos(**right);
    }
    let l = match flatten_expression(left, opcodes, global_vars, vars, funcs, classes) {
        Ok(d) => d,
        Err(e) => return Err(e),
    };
    let operator = if jump_on { BinaryOp::LOr } else { BinaryOp::LAnd };
    match l {
        DataType::Bool => {},
        _ => return Err(FlattenError::UnexpectedBinaryOpOperands { left: l, operator, right: DataType::Bool }),
    }
    let start_index: usize = opcodes.len();
    opcodes.push(if jump_on { OpCode::JumpIfTrue { index: 0, pop: false } } else { OpCode::JumpIfFalse { index: 0, pop: false } });
    opcodes.push(OpCode::Pop(1));
    let rt = match flatten_expression(right, opcodes, global_vars, vars, funcs, classes) {
        Ok(d) => d,
        Err(e) => return Err(e),
    };
    match rt {
        DataType::Bool => {},
        _ => return Err(FlattenError::UnexpectedBinaryOpOperands { left: l, operator, right: rt }),
    }
    let end: usize = opcodes.len();
    opcodes[start_index] = if jump_on { OpCode::JumpIfTrue { index: end, pop: false } } else { OpCode::JumpIfFalse { index: end, pop: false } };
    Ok(DataType::Bool)
}


} // verus!

verus! {

/// Everything flattening reads and writes.
pub struct Flattener {
    pub opcodes: Vec<OpCode>,
    pub global_vars: Vec<Binding>,
    pub vars: Vec<Binding>,
    pub funcs: Vec<FuncEntry>,
    pub classes: Vec<ClassData>,
    pub loop_starts: Vec<LoopStart>,
}

impl View for Flattener {
    type V = StateV;

    open spec fn view(&self) -> StateV {
        StateV {
            ops: self.opcodes@,
            globals: bindings_view(self.global_vars@),
            vars: bindings_view(self.vars@),
            funcs: funcs_view(self.funcs@),
            classes: classes_view(self.classes@),
            loops: loops_view(self.loop_starts@),
        }
    }
}

/// The state is consistent: pending loops refer to live locals and to emitted code,
/// each class sits at its id and its methods at slots of its vtable.
pub open spec fn wf(st: StateV) -> bool {
    wf_at(st, -1)
}

/// The state is consistent, except that an entry at position `p` may still wait for the
/// body it opens.
pub open spec fn wf_at(st: StateV, p: int) -> bool {
    &&& entries_land(st.ops, st.funcs, st.classes, p)
    &&& calls_land(st.ops)
    &&& jumps_within(st.ops)
    &&& forall|i: int| #![trigger st.loops[i]] 0 <= i < st.loops.len() ==> {
        &&& st.loops[i].vars_len <= st.vars.len()
        &&& st.loops[i].start <= st.ops.len()
        &&& forall|j: int| 0 <= j < st.loops[i].breaks.len() ==> st.loops[i].start <= #[trigger] st.loops[i].breaks[j] < st.ops.len()
            && st.ops[st.loops[i].breaks[j] as int] is Jump
    }
    &&& forall|k: int| #![trigger st.classes[k]] 0 <= k < st.classes.len() ==> {
        &&& st.classes[k].id == k
        &&& forall|m: int| 0 <= m < st.classes[k].funcs.len() ==> #[trigger] st.classes[k].funcs[m].slot
            < st.classes[k].vtable.len()
    }
}

/// Rewriting an instruction that is neither a `Call` nor a `NewStack` with another such
/// instruction, a jump keeping a jump, keeps the state consistent when the new target lies
/// within the code.
proof fn lemma_wf_patch(st: StateV, i: int, op: OpCode)
    requires
        wf(st),
        0 <= i < st.ops.len(),
        !(st.ops[i] is NewStack) && !(st.ops[i] is Call),
        !(op is NewStack) && !(op is Call),
        st.ops[i] is Jump ==> op is Jump,
        jump_target(op) matches Some(t) ==> t <= st.ops.len(),
    ensures
        wf(StateV { ops: st.ops.update(i, op), ..st }),
{
    let ops2 = st.ops.update(i, op);
    assert(jumps_within(ops2)) by {
        assert forall|k: int| 0 <= k < ops2.len() implies match #[trigger] jump_target(ops2[k]) {
            Some(t) => t <= ops2.len(),
            None => true,
        } by {
            if k != i {
                assert(ops2[k] == st.ops[k]);
            }
        }
    }
}

/// What a statement leaves in place: code is only appended to (no earlier instruction
/// changes), locals and classes only grow, the enclosing loops stay.
pub open spec fn frame(a: StateV, b: StateV) -> bool {
    &&& b.ops.len() >= a.ops.len()
    &&& extends(a.ops, b.ops)
    &&& b.vars.len() >= a.vars.len()
    &&& b.classes.len() >= a.classes.len()
    &&& b.loops.len() == a.loops.len()
    &&& forall|i: int| #![trigger b.loops[i]] 0 <= i < b.loops.len() ==> b.loops[i].start == a.loops[i].start
        && b.loops[i].vars_len == a.loops[i].vars_len
}

pub open spec fn fd_view(fd: Option<(&String, &DataType)>) -> FnCtx {
    match fd {
        Some((n, d)) => Some((n@, *d)),
        None => None,
    }
}

/// `r` and the state `after` are what `stmt_code` gives for `s` from `before`, on success
/// and on refusal alike.
pub open spec fn stmt_outcome(before: StateV, s: Statement, depth: usize, fd: FnCtx, after: StateV, r: Result<bool, FlattenError>) -> bool {
    &&& match stmt_code(before, s, depth, fd) {
        Ok((st, b)) => r == Ok::<bool, FlattenError>(b) && after == st,
        Err((v, t)) => r is Err && reports(r->Err_0, v) && after == t,
    }
    &&& r is Ok ==> class_step(before, s, depth, fd, after, r->Ok_0)
}

/// Every class has its constructor placed.
pub open spec fn constructed(cs: Seq<ClassV>) -> bool {
    forall|k: int| 0 <= k < cs.len() ==> #[trigger] cs[k].constructor != 0
}

/// What a compiled statement does to the class table and what it may flag: only a class
/// declaration, and only at the top level, adds a class; outside a function nothing
/// certainly returns; `break` and `continue` compile only inside a loop.
pub open spec fn class_step(before: StateV, s: Statement, depth: usize, fd: FnCtx, after: StateV, flag: bool) -> bool {
    &&& if s is Class {
        after.classes.len() == before.classes.len() + 1
    } else {
        after.classes == before.classes
    }
    &&& constructed(before.classes) ==> constructed(after.classes)
    &&& s is Class ==> depth == 0
    &&& fd is None ==> !flag
    &&& (s is Break || s is Continue) ==> before.loops.len() > 0
}

/// Flattens statements in order, stopping after one that certainly returns or after
/// `break`/`continue`; the second flag tells whether it stopped so.
#[verifier::spinoff_prover]
fn flatten_statements(
    statements: &[Statement],
    st: &mut Flattener,
    depth: usize,
    func_data: Option<(&String, &DataType)>,
) -> (r: Result<(bool, bool), FlattenError>)
    requires
        stmts_targets_ok(statements@),
        wf(old(st)@),
        depth == 0 ==> old(st)@.loops.len() == 0,
        depth == 0 ==> constructed(old(st)@.classes),
    ensures
        match stmts_code(old(st)@, statements@, depth, fd_view(func_data)) {
            Ok((s2, r2, t2)) => r == Ok::<(bool, bool), FlattenError>((r2, t2)) && final(st)@ == s2,
            Err((v, t)) => r is Err && reports(r->Err_0, v) && final(st)@ == t,
        },
        r is Ok ==> frame(old(st)@, final(st)@) && wf(final(st)@),
        r is Ok && depth != 0 ==> final(st)@.classes == old(st)@.classes,
        r is Ok && depth == 0 ==> constructed(final(st)@.classes),
        r is Ok && !r->Ok_0.1 ==> final(st)@.classes.len() == old(st)@.classes.len() + class_count(statements@),
        r is Ok && func_data is None ==> !r->Ok_0.0 && (old(st)@.loops.len() == 0 ==> !r->Ok_0.1),
    decreases statements@, 0int, 0int,
{
    let ghost fd = fd_view(func_data);
    let ghost st0 = st@;
    let mut r: bool = false;
    let mut i: usize = 0;
    assert(statements@.subrange(0, statements@.len() as int) =~= statements@);
    assert(statements@.subrange(0, 0) =~= Seq::<Statement>::empty());
    while i < statements.len()
        invariant
            fd == fd_view(func_data),
            st0 == old(st)@,
            stmts_targets_ok(statements@),
            i <= statements@.len(),
            stmts_code(st0, statements@, depth, fd) == stmts_code(st@, statements@.subrange(i as int, statements@.len() as int), depth, fd),
            wf(st@),
            depth == 0 ==> st@.loops.len() == 0,
            frame(st0, st@),
            !r,
            depth != 0 ==> st@.classes == st0.classes,
            depth == 0 ==> constructed(st@.classes),
            st@.classes.len() == st0.classes.len() + class_count(statements@.subrange(0, i as int)),
        decreases statements@.len() - i,
    {
        proof {
            lemma_stmts_targets_ok(statements@, i as int);
            let rest = statements@.subrange(i as int, statements@.len() as int);
            assert(rest[0] == statements@[i as int]);
            assert(rest.subrange(1, rest.len() as int) =~= statements@.subrange(i + 1, statements@.len() as int));
        }
        let ghost before = st@;
        r = match flatten_statement(&statements[i], st, depth, func_data) {
            Ok(b) => b,
            Err(e) => return Err(e),
        };
        if r || matches!(statements[i], Statement::Break | Statement::Continue) {
            return Ok((r, true));
        }
        proof {
            assert(statements@.subrange(0, i + 1).drop_last() =~= statements@.subrange(0, i as int));
        }
        i = i + 1;
    }
    proof {
        assert(statements@.subrange(i as int, statements@.len() as int).len() == 0);
    }
    Ok((r, false))
}

/// Flattens a block: its statements one level deeper, then pops the locals it declared
/// (unless it ended in a jump).
#[verifier::spinoff_prover]
fn flatten_block(
    statements: &[Statement],
    st: &mut Flattener,
    depth: usize,
    func_data: Option<(&String, &DataType)>,
) -> (r: Result<bool, FlattenError>)
    requires
        stmts_targets_ok(statements@),
        wf(old(st)@),
    ensures
        match block_code(old(st)@, statements@, depth, fd_view(func_data)) {
            Ok((s2, b)) => r == Ok::<bool, FlattenError>(b) && final(st)@ == s2,
            Err((v, t)) => r is Err && reports(r->Err_0, v) && final(st)@ == t,
        },
        r is Ok ==> frame(old(st)@, final(st)@) && wf(final(st)@) && final(st)@.vars.len() == old(st)@.vars.len(),
        r is Ok ==> final(st)@.classes == old(st)@.classes,
        r is Ok && func_data is None ==> !r->Ok_0,
    decreases statements@, 1int, 0int,
{
    let start_index: usize = st.vars.len();
    let inner: usize = if depth < usize::MAX { depth + 1 } else { depth };
    let (r, t) = match flatten_statements(statements, st, inner, func_data) {
        Ok(rt) => rt,
        Err(e) => return Err(e),
    };
    let ghost st1 = st@;
    if !t {
        let n: usize = st.vars.len() - start_index;
        st.opcodes.push(OpCode::Pop(n));
    }
    let ghost vars1 = st.vars@;
    st.vars.truncate(start_index);
    proof {
        assert(bindings_view(st.vars@) =~= bindings_view(vars1).subrange(0, start_index as int));
        assert(st1.vars == bindings_view(vars1));
    }
    Ok(r)
}

/// Flattens a statement of the form `if (condition) { ... }`.
#[verifier::spinoff_prover]
#[verifier::rlimit(100)]
fn flatten_if_then(
    statement: &Statement,
    st: &mut Flattener,
    depth: usize,
    func_data: Option<(&String, &DataType)>,
) -> (r: Result<bool, FlattenError>)
    requires
        statement is If,
        stmt_targets_ok(*statement),
        wf(old(st)@),
        depth == 0 ==> old(st)@.loops.len() == 0,
    ensures
        stmt_outcome(old(st)@, *statement, depth, fd_view(func_data), final(st)@, r),
        r is Ok ==> frame(old(st)@, final(st)@) && wf(final(st)@),
    decreases *statement, 1int, 0int,
{
    match statement {
        Statement::If { condition, block } => {
            match flatten_expression(condition, &mut st.opcodes, &st.global_vars, &st.vars, &st.funcs, &st.classes) {
                Ok(_) => {},
                Err(e) => return Err(e),
            }
            let start_index: usize = st.opcodes.len();
            st.opcodes.push(OpCode::JumpIfFalse { index: 0, pop: true });
            match flatten_block(block.as_slice(), st, depth, func_data) {
                Ok(_) => {},
                Err(e) => return Err(e),
            }
            let end: usize = st.opcodes.len();
            st.opcodes.set(start_index, OpCode::JumpIfFalse { index: end, pop: true });
            Ok(false)
        },
        _ => Err(FlattenError::ContinueOutsideLoop),
    }
}

/// Flattens a statement of the form `if (condition) { ... } else { ... }`.
#[verifier::spinoff_prover]
#[verifier::rlimit(100)]
fn flatten_if_else(
    statement: &Statement,
    st: &mut Flattener,
    depth: usize,
    func_data: Option<(&String, &DataType)>,
) -> (r: Result<bool, FlattenError>)
    requires
        statement is IfElse,
        stmt_targets_ok(*statement),
        wf(old(st)@),
        depth == 0 ==> old(st)@.loops.len() == 0,
    ensures
        stmt_outcome(old(st)@, *statement, depth, fd_view(func_data), final(st)@, r),
        r is Ok ==> frame(old(st)@, final(st)@) && wf(final(st)@),
    decreases *statement, 1int, 0int,
{
    match statement {
        Statement::IfElse { condition, block1, block2 } => {
            match flatten_expression(condition, &mut st.opcodes, &st.global_vars, &st.vars, &st.funcs, &st.classes) {
                Ok(_) => {},
                Err(e) => return Err(e),
            }
            let start_index_1: usize = st.opcodes.len();
            st.opcodes.push(OpCode::JumpIfFalse { index: 0, pop: true });
            let r_1 = match flatten_block(block1.as_slice(), st, depth, func_data) {
                Ok(b) => b,
                Err(e) => return Err(e),
            };
            let r_2 = match flatten_else_branch(block2, st, depth, func_data, start_index_1) {
                Ok(b) => b,
                Err(e) => return Err(e),
            };
            Ok(r_1 && r_2)
        },
        _ => Err(FlattenError::ContinueOutsideLoop),
    }
}

/// Flattens the `else` branch of an `if` whose condition jump stands at `cond`: a jump
/// that ends the `then` branch, the condition jump pointed past it, the branch itself,
/// and that jump pointed past the branch.
#[verifier::spinoff_prover]
#[verifier::rlimit(100)]
fn flatten_else_branch(
    block: &Vec<Statement>,
    st: &mut Flattener,
    depth: usize,
    func_data: Option<(&String, &DataType)>,
    cond: usize,
) -> (r: Result<bool, FlattenError>)
    requires
        stmts_targets_ok(block@),
        wf(old(st)@),
        cond < old(st)@.ops.len(),
        old(st)@.ops[cond as int] is JumpIfFalse,
    ensures
        ({
            let o3 = old(st)@.ops.push(OpCode::Jump(0));
            let o4 = o3.update(cond as int, OpCode::JumpIfFalse { index: o3.len() as usize, pop: true });
            match block_code(StateV { ops: o4, ..old(st)@ }, block@, depth, fd_view(func_data)) {
                Ok((s3, b)) => r == Ok::<bool, FlattenError>(b) && final(st)@ == (StateV {
                    ops: s3.ops.update(old(st)@.ops.len() as int, OpCode::Jump(s3.ops.len() as usize)),
                    ..s3
                }),
                Err((v, t)) => r is Err && reports(r->Err_0, v) && final(st)@ == t,
            }
        }),
        r is Ok ==> frame(StateV { ops: old(st)@.ops.subrange(0, cond as int), ..old(st)@ }, final(st)@)
            && final(st)@.ops.len() >= old(st)@.ops.len() && wf(final(st)@),
        r is Ok ==> final(st)@.classes == old(st)@.classes,
        r is Ok && func_data is None ==> !r->Ok_0,
    decreases block@, 1int, 1int,
{
    let ghost ops0 = st.opcodes@;
    let skip: usize = st.opcodes.len();
    st.opcodes.push(OpCode::Jump(0));
    let mid: usize = st.opcodes.len();
    proof {
        lemma_wf_patch(st@, cond as int, OpCode::JumpIfFalse { index: mid, pop: true });
    }
    st.opcodes.set(cond, OpCode::JumpIfFalse { index: mid, pop: true });
    let r = match flatten_block(block.as_slice(), st, depth, func_data) {
        Ok(b) => b,
        Err(e) => return Err(e),
    };
    let end: usize = st.opcodes.len();
    let ghost ops1 = st.opcodes@;
    proof {
        lemma_wf_patch(st@, skip as int, OpCode::Jump(end));
    }
    st.opcodes.set(skip, OpCode::Jump(end));
    assert(extends(ops0.subrange(0, cond as int), st.opcodes@)) by {
        assert(forall|i: int| 0 <= i < cond ==> #[trigger] ops1[i] == ops0[i]);
    }
    Ok(r)
}

/// Flattens a statement of the form `return value;`.
#[verifier::spinoff_prover]
#[verifier::rlimit(100)]
fn flatten_return(
    statement: &Statement,
    st: &mut Flattener,
    depth: usize,
    func_data: Option<(&String, &DataType)>,
) -> (r: Result<bool, FlattenError>)
    requires
        statement is Return,
        stmt_targets_ok(*statement),
        wf(old(st)@),
        depth == 0 ==> old(st)@.loops.len() == 0,
    ensures
        stmt_outcome(old(st)@, *statement, depth, fd_view(func_data), final(st)@, r),
        r is Ok ==> frame(old(st)@, final(st)@) && wf(final(st)@),
    decreases *statement, 1int, 0int,
{
    match statement {
        Statement::Return(expression) => {
            let (fname, rt) = match func_data {
                Some(data) => data,
                None => return Err(FlattenError::ReturnOutsideFunction),
            };
            match expression {
                Some(e) => {
                    let d = match flatten_expression(e, &mut st.opcodes, &st.global_vars, &st.vars, &st.funcs, &st.classes) {
                        Ok(d) => d,
                        Err(e) => return Err(e),
                    };
                    if !is_compatible(rt, &d, &st.classes) {
                        return Err(FlattenError::UnexpectedReturnValueType { func: fname.clone(), expected: rt.copy(), received: d });
                    }
                },
                None => {
                    if !is_compatible(rt, &DataType::Null, &st.classes) {
                        return Err(FlattenError::UnexpectedReturnValueType {
                            func: fname.clone(),
                            expected: rt.copy(),
                            received: DataType::Null,
                        });
                    }
                    st.opcodes.push(OpCode::PushConst(LiteralType::Null));
                },
            }
            st.opcodes.push(OpCode::PopStack);
            st.opcodes.push(OpCode::Return);
            Ok(true)
        },
        _ => Err(FlattenError::ContinueOutsideLoop),
    }
}

/// Flattens a statement of the form `continue;`.
#[verifier::spinoff_prover]
fn flatten_continue(
    statement: &Statement,
    st: &mut Flattener,
    depth: usize,
    func_data: Option<(&String, &DataType)>,
) -> (r: Result<bool, FlattenError>)
    requires
        statement is Continue,
        stmt_targets_ok(*statement),
        wf(old(st)@),
        depth == 0 ==> old(st)@.loops.len() == 0,
    ensures
        stmt_outcome(old(st)@, *statement, depth, fd_view(func_data), final(st)@, r),
        r is Ok ==> frame(old(st)@, final(st)@) && wf(final(st)@),
    decreases *statement, 1int, 0int,
{
    match statement {
        Statement::Continue => {
            let n = st.loop_starts.len();
            if n == 0 {
                return Err(FlattenError::ContinueOutsideLoop);
            }
            let start_index = st.loop_starts[n - 1].start;
            let vars_len = st.loop_starts[n - 1].vars_len;
            assert(st@.loops[n - 1].vars_len <= st@.vars.len());
            let count: usize = st.vars.len() - vars_len;
            st.opcodes.push(OpCode::Pop(count));
            st.opcodes.push(OpCode::Jump(start_index));
            Ok(false)
        },
        _ => Err(FlattenError::ContinueOutsideLoop),
    }
}

/// Flattens a statement of the form `break;`.
#[verifier::spinoff_prover]
fn flatten_break(
    statement: &Statement,
    st: &mut Flattener,
    depth: usize,
    func_data: Option<(&String, &DataType)>,
) -> (r: Result<bool, FlattenError>)
    requires
        statement is Break,
        stmt_targets_ok(*statement),
        wf(old(st)@),
        depth == 0 ==> old(st)@.loops.len() == 0,
    ensures
        stmt_outcome(old(st)@, *statement, depth, fd_view(func_data), final(st)@, r),
        r is Ok ==> frame(old(st)@, final(st)@) && wf(final(st)@),
    decreases *statement, 1int, 0int,
{
    match statement {
        Statement::Break => {
            if st.loop_starts.len() == 0 {
                return Err(FlattenError::BreakOutsideLoop);
            }
            let n = st.loop_starts.len();
            assert(st@.loops[n - 1].vars_len <= st@.vars.len());
            let count: usize = st.vars.len() - st.loop_starts[n - 1].vars_len;
            st.opcodes.push(OpCode::Pop(count));
            let ghost loops0 = st.loop_starts@;
            let mut innermost = st.loop_starts.pop().unwrap();
            let at: usize = st.opcodes.len();
            innermost.breaks.push(at);
            st.loop_starts.push(innermost);
            st.opcodes.push(OpCode::Jump(0));
            proof {
                let l = loops_view(loops0)[n - 1];
                let l2 = crate::compiler::tables::LoopV { breaks: l.breaks.push(at), ..l };
                assert(loops_view(st.loop_starts@) =~= loops_view(loops0).update(n - 1, l2));
            }
            Ok(false)
        },
        _ => Err(FlattenError::ContinueOutsideLoop),
    }
}

/// Flattens a statement of the form `while (condition) { ... }`.
#[verifier::spinoff_prover]
#[verifier::rlimit(100)]
fn flatten_while_loop(
    statement: &Statement,
    st: &mut Flattener,
    depth: usize,
    func_data: Option<(&String, &DataType)>,
) -> (r: Result<bool, FlattenError>)
    requires
        statement is While,
        stmt_targets_ok(*statement),
        wf(old(st)@),
        depth == 0 ==> old(st)@.loops.len() == 0,
    ensures
        stmt_outcome(old(st)@, *statement, depth, fd_view(func_data), final(st)@, r),
        r is Ok ==> frame(old(st)@, final(st)@) && wf(final(st)@),
    decreases *statement, 1int, 0int,
{
    match statement {
        Statement::While { condition, block } => {
            let start_index: usize = st.opcodes.len();
            match flatten_expression(condition, &mut st.opcodes, &st.global_vars, &st.vars, &st.funcs, &st.classes) {
                Ok(_) => {},
                Err(e) => return Err(e),
            }
            let jump_index: usize = st.opcodes.len();
            st.opcodes.push(OpCode::JumpIfFalse { index: 0, pop: true });
            let vars_len = st.vars.len();
            let breaks = match flatten_loop_body(block, st, depth, func_data, start_index, vars_len) {
                Ok(b) => b,
                Err(e) => return Err(e),
            };
            st.opcodes.push(OpCode::Jump(start_index));
            let end: usize = st.opcodes.len();
            st.opcodes.set(jump_index, OpCode::JumpIfFalse { index: end, pop: true });
            patch_jumps(&mut st.opcodes, &breaks, end, start_index);
            Ok(false)
        },
        _ => Err(FlattenError::ContinueOutsideLoop),
    }
}

/// Flattens a statement of the form `for (initializer; condition; update) { ... }`.
#[verifier::spinoff_prover]
#[verifier::rlimit(100)]
fn flatten_for_loop(
    statement: &Statement,
    st: &mut Flattener,
    depth: usize,
    func_data: Option<(&String, &DataType)>,
) -> (r: Result<bool, FlattenError>)
    requires
        statement is For,
        stmt_targets_ok(*statement),
        wf(old(st)@),
        depth == 0 ==> old(st)@.loops.len() == 0,
    ensures
        stmt_outcome(old(st)@, *statement, depth, fd_view(func_data), final(st)@, r),
        r is Ok ==> frame(old(st)@, final(st)@) && wf(final(st)@),
    decreases *statement, 1int, 0int,
{
    match statement {
        Statement::For { initializer, condition, update, block } => {
            let outer_vars_len: usize = st.vars.len();
            let inner_depth: usize = if depth < usize::MAX { depth + 1 } else { depth };
            match flatten_statement(initializer, st, inner_depth, func_data) {
                Ok(_) => {},
                Err(e) => return Err(e),
            }
            flatten_for_rest(condition, update, block, st, depth, func_data, outer_vars_len)
        },
        _ => Err(FlattenError::ContinueOutsideLoop),
    }
}

/// The rest of a `for` loop after its initializer: the update behind a jump that skips
/// it on entry, the condition, and the body; then the loop's locals are dropped.
#[verifier::spinoff_prover]
#[verifier::rlimit(100)]
fn flatten_for_rest(
    condition: &Expression,
    update: &Expression,
    block: &Vec<Statement>,
    st: &mut Flattener,
    depth: usize,
    func_data: Option<(&String, &DataType)>,
    outer_vars_len: usize,
) -> (r: Result<bool, FlattenError>)
    requires
        expr_targets_ok(*condition),
        expr_targets_ok(*update),
        stmts_targets_ok(block@),
        wf(old(st)@),
        outer_vars_len <= old(st)@.vars.len(),
        forall|i: int| 0 <= i < old(st)@.loops.len() ==> #[trigger] old(st)@.loops[i].vars_len <= outer_vars_len,
        depth == 0 ==> old(st)@.loops.len() == 0,
    ensures
        match for_loop_code(old(st)@, *condition, *update, block@, depth, fd_view(func_data), outer_vars_len as nat) {
            Ok((s2, b)) => r == Ok::<bool, FlattenError>(b) && final(st)@ == s2,
            Err((v, t)) => r is Err && reports(r->Err_0, v) && final(st)@ == t,
        },
        r is Ok ==> frame(StateV { vars: final(st)@.vars, ..old(st)@ }, final(st)@) && wf(final(st)@)
            && final(st)@.vars.len() == outer_vars_len,
        r is Ok ==> final(st)@.classes == old(st)@.classes,
    decreases block@, 1int, 2int,
{
            let ghost st1 = st@;
            let inner_vars_len: usize = st.vars.len();
            let skip_index: usize = st.opcodes.len();
            st.opcodes.push(OpCode::Jump(0));
            assert(crate::compiler::semantics::scope(st1) == scope_of(st.global_vars@, st.vars@, st.funcs@, st.classes@));
            match flatten_expression(update, &mut st.opcodes, &st.global_vars, &st.vars, &st.funcs, &st.classes) {
                Ok(_) => {},
                Err(e) => {
                    assert(st@ == StateV { ops: st.opcodes@, ..st1 });
                    return Err(e);
                },
            }
            st.opcodes.push(OpCode::Pop(1));
            let after_update: usize = st.opcodes.len();
            st.opcodes.set(skip_index, OpCode::Jump(after_update));
            match flatten_expression(condition, &mut st.opcodes, &st.global_vars, &st.vars, &st.funcs, &st.classes) {
                Ok(_) => {},
                Err(e) => {
                    assert(st@ == StateV { ops: st.opcodes@, ..st1 });
                    return Err(e);
                },
            }
            let jump_index: usize = st.opcodes.len();
            st.opcodes.push(OpCode::JumpIfFalse { index: 0, pop: true });
            let breaks = match flatten_loop_body(block, st, depth, func_data, skip_index + 1, inner_vars_len) {
                Ok(b) => b,
                Err(e) => return Err(e),
            };
            st.opcodes.push(OpCode::Jump(skip_index + 1));
            let end: usize = st.opcodes.len();
            st.opcodes.set(jump_index, OpCode::JumpIfFalse { index: end, pop: true });
            let count: usize = st.vars.len() - outer_vars_len;
            st.opcodes.push(OpCode::Pop(count));
            let ghost vars1 = st.vars@;
            st.vars.truncate(outer_vars_len);
            proof {
                assert(bindings_view(st.vars@) =~= bindings_view(vars1).subrange(0, outer_vars_len as int));
            }
            let last: usize = st.opcodes.len() - 1;
            patch_jumps(&mut st.opcodes, &breaks, last, skip_index + 1);
            Ok(false)
}

/// Flattens a statement of the form `let name: type = value;`.
#[verifier::spinoff_prover]
fn flatten_declaration(
    statement: &Statement,
    st: &mut Flattener,
    depth: usize,
    func_data: Option<(&String, &DataType)>,
) -> (r: Result<bool, FlattenError>)
    requires
        statement is Declaration,
        stmt_targets_ok(*statement),
        wf(old(st)@),
        depth == 0 ==> old(st)@.loops.len() == 0,
    ensures
        stmt_outcome(old(st)@, *statement, depth, fd_view(func_data), final(st)@, r),
        r is Ok ==> frame(old(st)@, final(st)@) && wf(final(st)@),
    decreases *statement, 1int, 0int,
{
    match statement {
        Statement::Declaration { name, value, data_type, is_static } => {
            if is_this(name) {
                return Err(FlattenError::ReservedKeyword(name.clone()));
            }
            if *is_static {
                return Err(FlattenError::StaticOutsideClass(name.clone()));
            }
            proof {
                lemma_binding_keys(st.global_vars@);
                lemma_binding_keys(st.vars@);
                lemma_func_keys(st.funcs@);
                lemma_class_keys(st.classes@);
            }
            if depth == 0 && contains(&st.global_vars, name) || depth != 0 && contains(&st.vars, name)
                || contains(&st.funcs, name) || contains(&st.classes, name) {
                return Err(FlattenError::Shadowing(name.clone()));
            }
            let d = match flatten_expression(value, &mut st.opcodes, &st.global_vars, &st.vars, &st.funcs, &st.classes) {
                Ok(d) => d,
                Err(e) => return Err(e),
            };
            if !is_compatible(data_type, &d, &st.classes) {
                return Err(FlattenError::UnexpectedDeclarationValueType {
                    variable: name.clone(),
                    expected: data_type.copy(),
                    received: d,
                });
            }
            if depth != 0 {
                st.vars.push(Binding { name: name.clone(), data_type: data_type.copy() });
                proof {
                    assert(bindings_view(st.vars@) =~= bindings_view(old(st).vars@).push(
                        crate::compiler::tables::BindingV { name: name@, ty: *data_type },
                    ));
                }
            } else {
                st.opcodes.push(OpCode::DefineGlobal);
                st.global_vars.push(Binding { name: name.clone(), data_type: data_type.copy() });
                proof {
                    assert(bindings_view(st.global_vars@) =~= bindings_view(old(st).global_vars@).push(
                        crate::compiler::tables::BindingV { name: name@, ty: *data_type },
                    ));
                }
            }
            Ok(false)
        },
        _ => Err(FlattenError::ContinueOutsideLoop),
    }
}

/// Flattens a statement of the form `fn name(parameters) -> type { ... }`.
#[verifier::spinoff_prover]
#[verifier::rlimit(100)]
fn flatten_function_statement(
    statement: &Statement,
    st: &mut Flattener,
    depth: usize,
    func_data: Option<(&String, &DataType)>,
) -> (r: Result<bool, FlattenError>)
    requires
        statement is Function,
        stmt_targets_ok(*statement),
        wf(old(st)@),
        depth == 0 ==> old(st)@.loops.len() == 0,
    ensures
        stmt_outcome(old(st)@, *statement, depth, fd_view(func_data), final(st)@, r),
        r is Ok ==> frame(old(st)@, final(st)@) && wf(final(st)@),
    decreases *statement, 1int, 0int,
{
    match statement {
        Statement::Function { name, data, should_override, is_static } => {
            if *is_static {
                return Err(FlattenError::StaticOutsideClass(name.clone()));
            }
            if depth != 0 {
                return Err(FlattenError::FunctionDeclarationInsideScope(name.clone()));
            }
            proof {
                lemma_binding_keys(st.global_vars@);
                lemma_func_keys(st.funcs@);
                lemma_class_keys(st.classes@);
            }
            if contains(&st.funcs, name) || contains(&st.global_vars, name) || contains(&st.classes, name) {
                return Err(FlattenError::Shadowing(name.clone()));
            }
            if *should_override {
                return Err(FlattenError::UnexpectedOverride(name.clone()));
            }
            let jump_index: usize = st.opcodes.len();
            st.opcodes.push(OpCode::Jump(0));
            let index: usize = st.opcodes.len();
            let entry = FuncEntry {
                name: name.clone(),
                index,
                ret: data.data_type.copy(),
                params: parameter_types(&data.parameters),
            };
            st.funcs.push(entry);
            proof {
                assert(funcs_view(st.funcs@) =~= funcs_view(old(st).funcs@).push(entry@));
            }
            match flatten_function(name, data, jump_index, st, depth, None) {
                Ok(()) => Ok(false),
                Err(e) => Err(e),
            }
        },
        _ => Err(FlattenError::ContinueOutsideLoop),
    }
}

/// Flattens `expression;` (its value dropped) or `print expression;`.
#[verifier::spinoff_prover]
#[verifier::rlimit(100)]
fn flatten_simple(
    statement: &Statement,
    st: &mut Flattener,
    depth: usize,
    func_data: Option<(&String, &DataType)>,
) -> (r: Result<bool, FlattenError>)
    requires
        statement is Expression || statement is Print,
        stmt_targets_ok(*statement),
        wf(old(st)@),
    ensures
        stmt_outcome(old(st)@, *statement, depth, fd_view(func_data), final(st)@, r),
        r is Ok ==> frame(old(st)@, final(st)@) && wf(final(st)@),
{
    let (expression, last) = match statement {
        Statement::Expression(e) => (e, OpCode::Pop(1)),
        Statement::Print(e) => (e, OpCode::Print),
        _ => return Err(FlattenError::ContinueOutsideLoop),
    };
    match flatten_expression(expression, &mut st.opcodes, &st.global_vars, &st.vars, &st.funcs, &st.classes) {
        Ok(_) => {},
        Err(e) => return Err(e),
    }
    st.opcodes.push(last);
    Ok(false)
}

/// Flattens one statement; the flag tells whether it certainly returns.
#[verifier::spinoff_prover]
#[verifier::rlimit(100)]
fn flatten_statement(
    statement: &Statement,
    st: &mut Flattener,
    depth: usize,
    func_data: Option<(&String, &DataType)>,
) -> (r: Result<bool, FlattenError>)
    requires
        stmt_targets_ok(*statement),
        wf(old(st)@),
        depth == 0 ==> old(st)@.loops.len() == 0,
        depth == 0 ==> constructed(old(st)@.classes),
    ensures
        stmt_outcome(old(st)@, *statement, depth, fd_view(func_data), final(st)@, r),
        r is Ok ==> frame(old(st)@, final(st)@) && wf(final(st)@),
    decreases *statement, 2int, 0int,
{
    match statement {
        Statement::Block(statements) => flatten_block(statements.as_slice(), st, depth, func_data),
        Statement::Expression(_) | Statement::Print(_) => flatten_simple(statement, st, depth, func_data),
        Statement::If { .. } => flatten_if_then(statement, st, depth, func_data),
        Statement::IfElse { .. } => flatten_if_else(statement, st, depth, func_data),
        Statement::Return(_) => flatten_return(statement, st, depth, func_data),
        Statement::Continue => flatten_continue(statement, st, depth, func_data),
        Statement::Break => flatten_break(statement, st, depth, func_data),
        Statement::While { .. } => flatten_while_loop(statement, st, depth, func_data),
        Statement::For { .. } => flatten_for_loop(statement, st, depth, func_data),
        Statement::Declaration { .. } => flatten_declaration(statement, st, depth, func_data),
        Statement::Function { .. } => flatten_function_statement(statement, st, depth, func_data),
        Statement::Class { name, block, parent } => match flatten_class(name, block, parent, st, depth) {
            Ok(()) => Ok(false),
            Err(e) => Err(e),
        },
    }
}


/// Flattens a loop body with the loop (`start`, `vars_len`) pending, then drops the loop
/// and hands back its `break` jumps.
#[verifier::spinoff_prover]
fn flatten_loop_body(
    block: &Vec<Statement>,
    st: &mut Flattener,
    depth: usize,
    func_data: Option<(&String, &DataType)>,
    start: usize,
    vars_len: usize,
) -> (r: Result<Vec<usize>, FlattenError>)
    requires
        stmts_targets_ok(block@),
        wf(old(st)@),
        vars_len <= old(st)@.vars.len(),
        start <= old(st)@.ops.len(),
    ensures
        match loop_body_code(old(st)@, block@, depth, fd_view(func_data), start, vars_len) {
            Ok((s2, breaks)) => r is Ok && final(st)@ == s2 && r->Ok_0@ == breaks,
            Err((v, t)) => r is Err && reports(r->Err_0, v) && final(st)@ == t,
        },
        r is Ok ==> frame(old(st)@, final(st)@) && wf(final(st)@) && final(st)@.vars.len() == old(st)@.vars.len()
            && forall|j: int| 0 <= j < r->Ok_0@.len() ==> start <= #[trigger] r->Ok_0@[j] < final(st)@.ops.len(),
        r is Ok ==> forall|j: int| 0 <= j < r->Ok_0@.len() ==> final(st)@.ops[#[trigger] r->Ok_0@[j] as int] is Jump,
        r is Ok ==> final(st)@.classes == old(st)@.classes,
    decreases block@, 1int, 1int,
{
    let ghost loops0 = st.loop_starts@;
    let fresh = LoopStart { start, vars_len, breaks: Vec::new() };
    st.loop_starts.push(fresh);
    proof {
        assert(loops_view(st.loop_starts@) =~= loops_view(loops0).push(fresh@));
    }
    match flatten_block(block.as_slice(), st, depth, func_data) {
        Ok(_) => {},
        Err(e) => return Err(e),
    }
    let ghost loops2 = st.loop_starts@;
    let innermost = st.loop_starts.pop().unwrap();
    proof {
        assert(loops_view(st.loop_starts@) =~= loops_view(loops2).subrange(0, loops2.len() - 1));
        assert(loops_view(loops2)[loops2.len() - 1] == innermost@);
    }
    Ok(innermost.breaks)
}

/// Points each pending `break` at `target`.
fn patch_jumps(opcodes: &mut Vec<OpCode>, breaks: &Vec<usize>, target: usize, low: usize)
    requires
        forall|j: int| 0 <= j < breaks@.len() ==> low <= #[trigger] breaks@[j] < old(opcodes)@.len(),
        forall|j: int| 0 <= j < breaks@.len() ==> old(opcodes)@[#[trigger] breaks@[j] as int] is Jump,
    ensures
        forall|i: int| 0 <= i < old(opcodes)@.len() ==> #[trigger] final(opcodes)@[i] == old(opcodes)@[i] || (old(opcodes)@[i] is Jump
            && final(opcodes)@[i] is Jump),
        calls_land(old(opcodes)@) ==> calls_land(final(opcodes)@),
        forall|i: int| 0 <= i < low ==> #[trigger] final(opcodes)@[i] == old(opcodes)@[i],
        final(opcodes)@ == patch_breaks(old(opcodes)@, breaks@, target),
        final(opcodes)@.len() == old(opcodes)@.len(),
        jumps_within(old(opcodes)@) && target <= old(opcodes)@.len() ==> jumps_within(final(opcodes)@),
{
    let ghost ops0 = opcodes@;
    let mut k: usize = 0;
    assert(breaks@.subrange(0, breaks@.len() as int) =~= breaks@);
    while k < breaks.len()
        invariant
            ops0 == old(opcodes)@,
            k <= breaks@.len(),
            opcodes@.len() == ops0.len(),
            forall|j: int| 0 <= j < breaks@.len() ==> low <= #[trigger] breaks@[j] < ops0.len(),
            forall|i: int| 0 <= i < low ==> #[trigger] opcodes@[i] == ops0[i],
            forall|i: int| 0 <= i < ops0.len() ==> #[trigger] opcodes@[i] == ops0[i] || (ops0[i] is Jump && opcodes@[i] is Jump),
            forall|j: int| 0 <= j < breaks@.len() ==> ops0[#[trigger] breaks@[j] as int] is Jump,
            calls_land(ops0) ==> calls_land(opcodes@),
            patch_breaks(ops0, breaks@, target) == patch_breaks(opcodes@, breaks@.subrange(k as int, breaks@.len() as int), target),
            jumps_within(ops0) && target <= ops0.len() ==> jumps_within(opcodes@),
        decreases breaks@.len() - k,
    {
        proof {
            let rest = breaks@.subrange(k as int, breaks@.len() as int);
            assert(rest[0] == breaks@[k as int]);
            assert(rest.subrange(1, rest.len() as int) =~= breaks@.subrange(k + 1, breaks@.len() as int));
        }
        opcodes.set(breaks[k], OpCode::Jump(target));
        k = k + 1;
    }
    proof {
        assert(breaks@.subrange(k as int, breaks@.len() as int).len() == 0);
    }
}

/// The types of a parameter list.
fn parameter_types(params: &Vec<(DataType, String)>) -> (r: Vec<DataType>)
    ensures
        r@ == param_types(params@),
{
    let mut out: Vec<DataType> = Vec::new();
    let mut k: usize = 0;
    while k < params.len()
        invariant
            k <= params@.len(),
            out@ =~= param_types(params@).subrange(0, k as int),
        decreases params@.len() - k,
    {
        out.push(params[k].0.copy());
        k = k + 1;
    }
    assert(param_types(params@).subrange(0, k as int) =~= param_types(params@));
    out
}

/// Flattens a function body behind the placeholder jump at `jump_index`, which is
/// patched to skip the body.
#[verifier::spinoff_prover]
#[verifier::rlimit(100)]
fn flatten_function(
    name: &String,
    data: &FunctionData,
    jump_index: usize,
    st: &mut Flattener,
    depth: usize,
    class_name: Option<&String>,
) -> (r: Result<(), FlattenError>)
    requires
        stmts_targets_ok(data.block@),
        wf_at(old(st)@, old(st)@.ops.len() as int),
        old(st)@.loops.len() == 0,
        jump_index < old(st)@.ops.len(),
        old(st)@.ops[jump_index as int] is Jump,
    ensures
        match function_code(old(st)@, name@, *data, jump_index as int, depth, opt_string(class_name)) {
            Ok(s2) => r is Ok && final(st)@ == s2,
            Err((v, t)) => r is Err && reports(r->Err_0, v) && final(st)@ == t,
        },
        r is Ok ==> frame(StateV { ops: old(st)@.ops.subrange(0, jump_index as int), ..old(st)@ }, final(st)@)
            && final(st)@.ops.len() >= old(st)@.ops.len() && wf(final(st)@),
        r is Ok ==> final(st)@.classes == old(st)@.classes,
    decreases data.block@, 2int, 0int,
{
    let mut func_vars: Vec<Binding> = Vec::new();
    if let Some(n) = class_name {
        func_vars.push(Binding { name: this_string(), data_type: DataType::Instance(n.clone()) });
    }
    let ghost this_vars: Seq<crate::compiler::tables::BindingV> = match opt_string(class_name) {
        Some(n) => seq![receiver(n)],
        None => seq![],
    };
    assert(bindings_view(func_vars@) =~= this_vars);
    let ghost st0 = st@;
    let mut k: usize = 0;
    proof {
        lemma_func_keys(st.funcs@);
        lemma_class_keys(st.classes@);
    }
    while k < data.parameters.len()
        invariant
            st@ == st0,
            st0 == old(st)@,
            this_vars == (match opt_string(class_name) {
                Some(n) => seq![receiver(n)],
                None => Seq::<crate::compiler::tables::BindingV>::empty(),
            }),
            k <= data.parameters@.len(),
            bind_params(st0.funcs, st0.classes, this_vars, data.parameters@, 0)
                == bind_params(st0.funcs, st0.classes, bindings_view(func_vars@), data.parameters@, k as int),
        decreases data.parameters@.len() - k,
    {
        let (data_type, pname) = &data.parameters[k];
        proof {
            lemma_binding_keys(func_vars@);
            lemma_func_keys(st.funcs@);
            lemma_class_keys(st.classes@);
        }
        if is_this(pname) {
            assert(bind_params(st0.funcs, st0.classes, bindings_view(func_vars@), data.parameters@, k as int)
                == Err::<Seq<crate::compiler::tables::BindingV>, crate::compiler::semantics::Refusal>(crate::compiler::semantics::Refusal::ReservedKeyword(pname@)));
            return Err(FlattenError::ReservedKeyword(pname.clone()));
        }
        if contains(&func_vars, pname) || contains(&st.funcs, pname) || contains(&st.classes, pname) {
            assert(bind_params(st0.funcs, st0.classes, bindings_view(func_vars@), data.parameters@, k as int)
                == Err::<Seq<crate::compiler::tables::BindingV>, crate::compiler::semantics::Refusal>(crate::compiler::semantics::Refusal::Shadowing(pname@)));
            return Err(FlattenError::Shadowing(pname.clone()));
        }
        let ghost fv = func_vars@;
        func_vars.push(Binding { name: pname.clone(), data_type: data_type.copy() });
        proof {
            assert(bindings_view(func_vars@) =~= bindings_view(fv).push(crate::compiler::tables::BindingV { name: pname@, ty: *data_type }));
        }
        k = k + 1;
    }
    flatten_function_body(name, data, jump_index, st, depth, func_vars)
}

/// Flattens a function body with its locals `func_vars`, then patches the placeholder
/// jump at `jump_index` to skip it.
#[verifier::spinoff_prover]
#[verifier::rlimit(100)]
fn flatten_function_body(
    name: &String,
    data: &FunctionData,
    jump_index: usize,
    st: &mut Flattener,
    depth: usize,
    func_vars: Vec<Binding>,
) -> (r: Result<(), FlattenError>)
    requires
        stmts_targets_ok(data.block@),
        wf_at(old(st)@, old(st)@.ops.len() as int),
        old(st)@.loops.len() == 0,
        jump_index < old(st)@.ops.len(),
        old(st)@.ops[jump_index as int] is Jump,
    ensures
        match function_body_code(old(st)@, name@, *data, jump_index as int, depth, bindings_view(func_vars@)) {
            Ok(s2) => r is Ok && final(st)@ == s2,
            Err((v, t)) => r is Err && reports(r->Err_0, v) && final(st)@ == t,
        },
        r is Ok ==> frame(StateV { ops: old(st)@.ops.subrange(0, jump_index as int), ..old(st)@ }, final(st)@)
            && final(st)@.ops.len() >= old(st)@.ops.len() && wf(final(st)@),
        r is Ok ==> final(st)@.classes == old(st)@.classes,
    decreases data.block@, 1int, 2int,
{
    let mut func_vars = func_vars;
    let ghost ops0 = st.opcodes@;
    st.opcodes.push(OpCode::NewStack);
    std::mem::swap(&mut st.vars, &mut func_vars);
    let res = flatten_block(data.block.as_slice(), st, depth, Some((name, &data.data_type)));
    std::mem::swap(&mut st.vars, &mut func_vars);
    let r = match res {
        Ok(r) => r,
        Err(e) => return Err(e),
    };
    assert(forall|i: int| 0 <= i < jump_index ==> #[trigger] st.opcodes@[i] == ops0[i]);
    if !r {
        match data.data_type {
            DataType::Null | DataType::Nullable(_) => {},
            _ => return Err(FlattenError::MissingReturnStatement(name.clone())),
        }
        st.opcodes.push(OpCode::PushConst(LiteralType::Null));
        st.opcodes.push(OpCode::PopStack);
        st.opcodes.push(OpCode::Return);
    }
    let end: usize = st.opcodes.len();
    let ghost ops1 = st.opcodes@;
    st.opcodes.set(jump_index, OpCode::Jump(end));
    assert(extends(ops0.subrange(0, jump_index as int), st.opcodes@)) by {
        assert(forall|i: int| 0 <= i < jump_index ==> #[trigger] ops1[i] == ops0[i]);
    }
    Ok(())
}

/// Flattens a class declaration: its static members first, then a constructor that runs
/// the parent's constructor and the member initializers, with the methods in between.
#[verifier::spinoff_prover]
#[verifier::rlimit(100)]
fn flatten_class(
    name: &String,
    block: &Vec<Statement>,
    parent: &Option<String>,
    st: &mut Flattener,
    depth: usize,
) -> (r: Result<(), FlattenError>)
    requires
        stmts_targets_ok(block@),
        wf(old(st)@),
        depth == 0 ==> constructed(old(st)@.classes),
        depth == 0 ==> old(st)@.loops.len() == 0,
    ensures
        match class_code(old(st)@, *name, block@, *parent, depth) {
            Ok(s2) => r is Ok && final(st)@ == s2,
            Err((v, t)) => r is Err && reports(r->Err_0, v) && final(st)@ == t,
        },
        r is Ok ==> frame(old(st)@, final(st)@) && wf(final(st)@),
        r is Ok ==> final(st)@.classes.len() == old(st)@.classes.len() + 1 && constructed(final(st)@.classes),
    decreases block@, 2int, 0int,
{
    if depth != 0 {
        return Err(FlattenError::ClassDeclarationInsideScope(name.clone()));
    }
    proof {
        lemma_binding_keys(st.global_vars@);
        lemma_func_keys(st.funcs@);
        lemma_class_keys(st.classes@);
    }
    if contains(&st.classes, name) || contains(&st.global_vars, name) || contains(&st.funcs, name) {
        return Err(FlattenError::Shadowing(name.clone()));
    }
    if let Some(n) = parent {
        if *n == *name {
            return Err(FlattenError::ParentIsSelf(name.clone()));
        }
    }
    let id: usize = st.classes.len();
    let fresh = ClassData {
        name: name.clone(),
        vars: Vec::new(),
        funcs: Vec::new(),
        vtable: Vec::new(),
        parent: match parent {
            Some(n) => Some(n.clone()),
            None => None,
        },
        constructor: 0,
        id,
    };
    let ghost classes0 = st.classes@;
    st.classes.push(fresh);
    proof {
        assert(classes_view(st.classes@) =~= classes_view(classes0).push(fresh@));
        assert(fresh@.vars =~= Seq::<crate::compiler::tables::BindingV>::empty());
        assert(fresh@.funcs =~= Seq::<crate::compiler::tables::MethodV>::empty());
    }
    match flatten_static_members(name, block, st, depth) {
        Ok(()) => {},
        Err(e) => return Err(e),
    }
    let jump_index: usize = st.opcodes.len();
    match inherit_members(st, id, parent) {
        Ok(()) => {},
        Err(e) => return Err(e),
    }
    st.opcodes.push(OpCode::Jump(0));
    let constructor: usize = st.opcodes.len();
    set_constructor(&mut st.classes, id, constructor);
    st.opcodes.push(OpCode::NewStack);
    if let Some(n) = parent {
        proof {
            lemma_class_keys(st.classes@);
        }
        if let Some(pk) = find_first(&st.classes, n) {
            st.opcodes.push(OpCode::GetVar(0));
            let parent_constructor = st.classes[pk].constructor;
            st.opcodes.push(OpCode::Call { index: parent_constructor, parameters: 1 });
            st.opcodes.push(OpCode::Pop(1));
        }
    }
    match flatten_instance_members(name, id, block, st, depth) {
        Ok(()) => {},
        Err(e) => return Err(e),
    }
    st.opcodes.push(OpCode::GetVar(0));
    st.opcodes.push(OpCode::PopStack);
    st.opcodes.push(OpCode::Return);
    let end: usize = st.opcodes.len();
    st.opcodes.set(jump_index, OpCode::Jump(end));
    Ok(())
}

/// Sets the entry point of the constructor of class `id`.
fn set_constructor(classes: &mut Vec<ClassData>, id: usize, constructor: usize)
    requires
        id < old(classes)@.len(),
    ensures
        classes_view(final(classes)@) == classes_view(old(classes)@).update(
            id as int,
            crate::compiler::tables::ClassV { constructor, ..classes_view(old(classes)@)[id as int] },
        ),
{
    let mut c = classes.remove(id);
    c.constructor = constructor;
    classes.insert(id, c);
    proof {
        assert(classes_view(classes@) =~= classes_view(old(classes)@).update(
            id as int,
            crate::compiler::tables::ClassV { constructor, ..classes_view(old(classes)@)[id as int] },
        ));
    }
}

/// Class `id` takes over the member variables, methods (now overridable) and vtable of
/// its parent, if it has one.
#[verifier::spinoff_prover]
fn inherit_members(st: &mut Flattener, id: usize, parent: &Option<String>) -> (r: Result<(), FlattenError>)
    requires
        id < old(st)@.classes.len(),
        wf(old(st)@),
    ensures
        match inherit(old(st)@.classes, id as int, *parent) {
            Ok(cs) => r is Ok && final(st)@ == StateV { classes: cs, ..old(st)@ },
            Err(v) => r is Err && reports(r->Err_0, v) && final(st)@ == old(st)@,
        },
        r is Ok ==> wf(final(st)@),
        r is Ok ==> final(st)@.classes.len() == old(st)@.classes.len(),
        r is Ok ==> forall|k: int| 0 <= k < old(st)@.classes.len() ==> #[trigger] final(st)@.classes[k].constructor
            == old(st)@.classes[k].constructor && (k != id ==> final(st)@.classes[k] == old(st)@.classes[k]),
{
    let n = match parent {
        Some(n) => n,
        None => return Ok(()),
    };
    proof {
        lemma_class_keys(st.classes@);
    }
    let pk = match find_first(&st.classes, n) {
        Some(pk) => pk,
        None => return Err(FlattenError::UndeclaredClass(n.clone())),
    };
    let ghost cs0 = classes_view(st.classes@);
    let vars = copy_bindings(&st.classes[pk].vars);
    let funcs = copy_methods_overridable(&st.classes[pk].funcs);
    let vtable = copy_indices(&st.classes[pk].vtable);
    let mut c = st.classes.remove(id);
    c.vars = vars;
    c.funcs = funcs;
    c.vtable = vtable;
    st.classes.insert(id, c);
    proof {
        let p = cs0[pk as int];
        assert(cs0[pk as int] == p);
        assert(forall|m: int| 0 <= m < p.funcs.len() ==> #[trigger] p.funcs[m].slot < p.vtable.len());
        let nc = crate::compiler::tables::ClassV {
            vars: p.vars,
            funcs: p.funcs.map_values(|m: crate::compiler::tables::MethodV| crate::compiler::tables::MethodV { overridable: true, ..m }),
            vtable: p.vtable,
            ..cs0[id as int]
        };
        assert(forall|m: int| 0 <= m < nc.funcs.len() ==> #[trigger] nc.funcs[m].slot < nc.vtable.len());
        assert(nc.id == id);
        assert(classes_view(st.classes@) =~= cs0.update(
            id as int,
            crate::compiler::tables::ClassV {
                vars: p.vars,
                funcs: p.funcs.map_values(|m: crate::compiler::tables::MethodV| crate::compiler::tables::MethodV { overridable: true, ..m }),
                vtable: p.vtable,
                ..cs0[id as int]
            },
        ));
        let cs = classes_view(st.classes@);
        assert forall|k: int| 0 <= k < cs.len() implies {
            &&& (#[trigger] cs[k]).id == k
            &&& forall|m: int| 0 <= m < cs[k].funcs.len() ==> #[trigger] cs[k].funcs[m].slot < cs[k].vtable.len()
        } by {
            if k == id {
                assert(cs[k] == nc);
            } else {
                assert(cs[k] == cs0[k]);
                assert(old(st)@.classes[k] == cs0[k]);
            }
        }
        assert(st@.loops == old(st)@.loops);
        assert(st@.vars == old(st)@.vars);
        assert(st@.ops == old(st)@.ops);
        assert(wf(st@));
    }
    Ok(())
}

fn copy_bindings(v: &Vec<Binding>) -> (r: Vec<Binding>)
    ensures
        bindings_view(r@) == bindings_view(v@),
{
    let mut out: Vec<Binding> = Vec::new();
    let mut k: usize = 0;
    while k < v.len()
        invariant
            k <= v@.len(),
            bindings_view(out@) =~= bindings_view(v@).subrange(0, k as int),
        decreases v@.len() - k,
    {
        let b = Binding { name: v[k].name.clone(), data_type: v[k].data_type.copy() };
        let ghost o0 = out@;
        out.push(b);
        proof {
            assert(bindings_view(out@) =~= bindings_view(o0).push(b@));
            assert(bindings_view(v@).subrange(0, k + 1) =~= bindings_view(v@).subrange(0, k as int).push(b@));
        }
        k = k + 1;
    }
    assert(bindings_view(v@).subrange(0, k as int) =~= bindings_view(v@));
    out
}

fn copy_types(v: &Vec<DataType>) -> (r: Vec<DataType>)
    ensures
        r@ == v@,
{
    let mut out: Vec<DataType> = Vec::new();
    let mut k: usize = 0;
    while k < v.len()
        invariant
            k <= v@.len(),
            out@ =~= v@.subrange(0, k as int),
        decreases v@.len() - k,
    {
        out.push(v[k].copy());
        k = k + 1;
    }
    assert(v@.subrange(0, k as int) =~= v@);
    out
}

fn copy_indices(v: &Vec<usize>) -> (r: Vec<usize>)
    ensures
        r@ == v@,
{
    let mut out: Vec<usize> = Vec::new();
    let mut k: usize = 0;
    while k < v.len()
        invariant
            k <= v@.len(),
            out@ =~= v@.subrange(0, k as int),
        decreases v@.len() - k,
    {
        out.push(v[k]);
        k = k + 1;
    }
    assert(v@.subrange(0, k as int) =~= v@);
    out
}

/// A copy of the methods, each marked overridable.
fn copy_methods_overridable(v: &Vec<crate::compiler::tables::MethodEntry>) -> (r: Vec<crate::compiler::tables::MethodEntry>)
    ensures
        methods_view(r@) == methods_view(v@).map_values(
            |m: crate::compiler::tables::MethodV| crate::compiler::tables::MethodV { overridable: true, ..m },
        ),
{
    let mut out: Vec<crate::compiler::tables::MethodEntry> = Vec::new();
    let mut k: usize = 0;
    let ghost target = methods_view(v@).map_values(
        |m: crate::compiler::tables::MethodV| crate::compiler::tables::MethodV { overridable: true, ..m },
    );
    while k < v.len()
        invariant
            k <= v@.len(),
            target == methods_view(v@).map_values(
                |m: crate::compiler::tables::MethodV| crate::compiler::tables::MethodV { overridable: true, ..m },
            ),
            methods_view(out@) =~= target.subrange(0, k as int),
        decreases v@.len() - k,
    {
        let m = &v[k];
        let e = crate::compiler::tables::MethodEntry {
            name: m.name.clone(),
            slot: m.slot,
            ret: m.ret.copy(),
            params: copy_types(&m.params),
            overridable: true,
        };
        let ghost o0 = out@;
        out.push(e);
        proof {
            assert(methods_view(out@) =~= methods_view(o0).push(e@));
            assert(target.subrange(0, k + 1) =~= target.subrange(0, k as int).push(e@));
        }
        k = k + 1;
    }
    assert(target.subrange(0, k as int) =~= target);
    out
}

/// Flattens the static members of class `cname`: variables become globals and
/// functions free functions, both under the name `cname.member`.
#[verifier::spinoff_prover]
fn flatten_static_members(cname: &String, block: &Vec<Statement>, st: &mut Flattener, depth: usize) -> (r: Result<(), FlattenError>)
    requires
        stmts_targets_ok(block@),
        wf(old(st)@),
        old(st)@.loops.len() == 0,
    ensures
        match static_members(old(st)@, *cname, block@, 0, depth) {
            Ok(s2) => r is Ok && final(st)@ == s2,
            Err((v, t)) => r is Err && reports(r->Err_0, v) && final(st)@ == t,
        },
        r is Ok ==> frame(old(st)@, final(st)@) && wf(final(st)@),
        r is Ok ==> final(st)@.classes == old(st)@.classes,
    decreases block@, 1int, 0int,
{
    let ghost st0 = st@;
    let mut k: usize = 0;
    while k < block.len()
        invariant
            st0 == old(st)@,
            stmts_targets_ok(block@),
            k <= block@.len(),
            static_members(st0, *cname, block@, 0, depth) == static_members(st@, *cname, block@, k as int, depth),
            wf(st@),
            st@.loops.len() == 0,
            frame(st0, st@),
            st@.classes == st0.classes,
        decreases block@.len() - k,
    {
        proof {
            lemma_stmts_targets_ok(block@, k as int);
            lemma_binding_keys(st.global_vars@);
            lemma_func_keys(st.funcs@);
        }
        match &block[k] {
            Statement::Declaration { name: vn, value, data_type, is_static: true } => {
                let qn = qualified_name(cname, vn);
                if contains(&st.global_vars, &qn) || contains(&st.funcs, &qn) {
                    return Err(FlattenError::Shadowing(vn.clone()));
                }
                let d = match flatten_expression(value, &mut st.opcodes, &st.global_vars, &st.vars, &st.funcs, &st.classes) {
                    Ok(d) => d,
                    Err(e) => return Err(e),
                };
                if !is_compatible(data_type, &d, &st.classes) {
                    return Err(FlattenError::UnexpectedDeclarationValueType { variable: qn, expected: data_type.copy(), received: d });
                }
                st.opcodes.push(OpCode::DefineGlobal);
                let ghost g0 = st.global_vars@;
                let b = Binding { name: qn, data_type: data_type.copy() };
                st.global_vars.push(b);
                proof {
                    assert(bindings_view(st.global_vars@) =~= bindings_view(g0).push(b@));
                }
            },
            Statement::Function { name: fname, data, should_override, is_static: true } => {
                let qn = qualified_name(cname, fname);
                if *should_override {
                    return Err(FlattenError::UnexpectedOverride(qn));
                }
                if contains(&st.funcs, &qn) || contains(&st.global_vars, &qn) {
                    return Err(FlattenError::Shadowing(fname.clone()));
                }
                let jump_index: usize = st.opcodes.len();
                st.opcodes.push(OpCode::Jump(0));
                let index: usize = st.opcodes.len();
                let entry = FuncEntry { name: qn, index, ret: data.data_type.copy(), params: parameter_types(&data.parameters) };
                let ghost f0 = st.funcs@;
                st.funcs.push(entry);
                proof {
                    assert(funcs_view(st.funcs@) =~= funcs_view(f0).push(entry@));
                    assert(decreases_to!(block@ => block@[k as int]));
                }
                match flatten_function(fname, data, jump_index, st, depth, None) {
                    Ok(()) => {},
                    Err(e) => return Err(e),
                }
            },
            _ => {},
        }
        k = k + 1;
    }
    Ok(())
}

/// Whether the method types `a` are those of the parameter list.
fn same_types(a: &Vec<DataType>, params: &Vec<(DataType, String)>) -> (r: bool)
    ensures
        r == (a@.len() == params@.len() && forall|j: int| 0 <= j < a@.len() ==> crate::ast::ty_eq(#[trigger] a@[j], params@[j].0)),
{
    if a.len() != params.len() {
        return false;
    }
    let mut k: usize = 0;
    while k < a.len()
        invariant
            a@.len() == params@.len(),
            k <= a@.len(),
            forall|j: int| 0 <= j < k ==> crate::ast::ty_eq(#[trigger] a@[j], params@[j].0),
        decreases a@.len() - k,
    {
        if !a[k].same_as(&params[k].0) {
            return false;
        }
        k = k + 1;
    }
    true
}

/// Flattens the instance member at position `k` of the class body; `instance_members`
/// from `k` on is then `instance_members` of the new state from `k + 1` on.
#[verifier::spinoff_prover]
#[verifier::rlimit(100)]
fn flatten_instance_member(
    cname: &String,
    id: usize,
    block: &Vec<Statement>,
    k: usize,
    self_reference_vars: &Vec<Binding>,
    st: &mut Flattener,
    depth: usize,
) -> (r: Result<(), FlattenError>)
    requires
        stmts_targets_ok(block@),
        wf(old(st)@),
        old(st)@.loops.len() == 0,
        id < old(st)@.classes.len(),
        k < block@.len(),
        bindings_view(self_reference_vars@) == seq![receiver(*cname)],
    ensures
        r is Ok ==> instance_members(old(st)@, *cname, id as int, block@, k as int, depth)
            == instance_members(final(st)@, *cname, id as int, block@, k + 1, depth),
        r is Ok ==> frame(old(st)@, final(st)@) && wf(final(st)@) && id < final(st)@.classes.len(),
        r is Ok ==> final(st)@.classes.len() == old(st)@.classes.len(),
        r is Ok ==> forall|k: int| 0 <= k < old(st)@.classes.len() ==> #[trigger] final(st)@.classes[k].constructor
            == old(st)@.classes[k].constructor,
        r is Err ==> instance_members(old(st)@, *cname, id as int, block@, k as int, depth) is Err && reports(
            r->Err_0,
            instance_members(old(st)@, *cname, id as int, block@, k as int, depth)->Err_0.0,
        ) && final(st)@ == instance_members(old(st)@, *cname, id as int, block@, k as int, depth)->Err_0.1,
    decreases block@, 0int, 0int,
{
    proof {
        lemma_stmts_targets_ok(block@, k as int);
        lemma_binding_keys(st.global_vars@);
        lemma_func_keys(st.funcs@);
        lemma_binding_keys(st.classes@[id as int].vars@);
        lemma_method_keys(st.classes@[id as int].funcs@);
    }
    match &block[k] {
        Statement::Declaration { name: vn, value, data_type, is_static: false } => {
            let qn = qualified_name(cname, vn);
            if contains(&st.classes[id].vars, vn) || contains(&st.classes[id].funcs, vn) || contains(&st.global_vars, &qn)
                || contains(&st.funcs, &qn) {
                return Err(FlattenError::Shadowing(vn.clone()));
            }
            st.opcodes.push(OpCode::GetVar(0));
            let d = match flatten_expression(value, &mut st.opcodes, &st.global_vars, self_reference_vars, &st.funcs, &st.classes) {
                Ok(d) => d,
                Err(e) => return Err(e),
            };
            if !is_compatible(data_type, &d, &st.classes) {
                return Err(FlattenError::UnexpectedDeclarationValueType { variable: qn, expected: data_type.copy(), received: d });
            }
            let n: usize = st.classes[id].vars.len();
            st.opcodes.push(OpCode::SetMember(n));
            st.opcodes.push(OpCode::Pop(1));
            let ghost cs0 = st.classes@;
            let mut c = st.classes.remove(id);
            let ghost v0 = c.vars@;
            let b = Binding { name: vn.clone(), data_type: data_type.copy() };
            c.vars.push(b);
            st.classes.insert(id, c);
            proof {
                assert(bindings_view(c.vars@) =~= bindings_view(v0).push(b@));
                assert(classes_view(st.classes@) =~= classes_view(cs0).update(id as int, c@));
            }
            Ok(())
        },
        Statement::Function { name: fname, data, should_override, is_static: false } => {
            let entry = find_first(&st.classes[id].funcs, fname);
            let overridable = match entry {
                Some(m) => st.classes[id].funcs[m].overridable,
                None => false,
            };
            let qn = qualified_name(cname, fname);
            if (entry.is_some() && (!*should_override || !overridable)) || contains(&st.classes[id].vars, fname)
                || contains(&st.global_vars, &qn) || contains(&st.funcs, &qn) {
                return Err(FlattenError::Shadowing(fname.clone()));
            }
            if *should_override && entry.is_none() {
                return Err(FlattenError::UnexpectedOverride(fname.clone()));
            }
            if let Some(m) = entry {
                let base = &st.classes[id].funcs[m];
                if !is_compatible(&base.ret, &data.data_type, &st.classes) || !same_types(&base.params, &data.parameters) {
                    return Err(FlattenError::UnexpectedOverrideSignature {
                        name: qn,
                        expected: (base.ret.copy(), copy_types(&base.params)),
                        received: (data.data_type.copy(), parameter_types(&data.parameters)),
                    });
                }
            }
            let jump_index: usize = st.opcodes.len();
            st.opcodes.push(OpCode::Jump(0));
            let entry_point: usize = st.opcodes.len();
            let ghost cs0 = st.classes@;
            proof {
                assert(st@.classes[id as int].id == id);
            }
            let mut c = st.classes.remove(id);
            let slot: usize = match entry {
                Some(m) => {
                    let s = c.funcs[m].slot;
                    c.vtable.set(s, entry_point);
                    s
                },
                None => {
                    c.vtable.push(entry_point);
                    c.vtable.len() - 1
                },
            };
            let method = crate::compiler::tables::MethodEntry {
                name: fname.clone(),
                slot,
                ret: data.data_type.copy(),
                params: parameter_types(&data.parameters),
                overridable: false,
            };
            let ghost fs0 = c.funcs@;
            match entry {
                Some(m) => c.funcs.set(m, method),
                None => c.funcs.push(method),
            }
            st.classes.insert(id, c);
            proof {
                match entry {
                    Some(m) => assert(methods_view(c.funcs@) =~= methods_view(fs0).update(m as int, method@)),
                    None => assert(methods_view(c.funcs@) =~= methods_view(fs0).push(method@)),
                }
                assert(classes_view(st.classes@) =~= classes_view(cs0).update(id as int, c@));
                assert(decreases_to!(block@ => block@[k as int]));
            }
            flatten_function(fname, data, jump_index, st, depth, Some(cname))
        },
        Statement::Declaration { is_static: true, .. } => Ok(()),
        Statement::Function { is_static: true, .. } => Ok(()),
        other => Err(FlattenError::UnexpectedClassMember(other.copy())),
    }
}

/// Flattens the instance members of class `cname` (at position `id`): variable
/// initializers into the constructor, methods into the vtable.
#[verifier::spinoff_prover]
fn flatten_instance_members(
    cname: &String,
    id: usize,
    block: &Vec<Statement>,
    st: &mut Flattener,
    depth: usize,
) -> (r: Result<(), FlattenError>)
    requires
        stmts_targets_ok(block@),
        wf(old(st)@),
        old(st)@.loops.len() == 0,
        id < old(st)@.classes.len(),
    ensures
        match instance_members(old(st)@, *cname, id as int, block@, 0, depth) {
            Ok(s2) => r is Ok && final(st)@ == s2,
            Err((v, t)) => r is Err && reports(r->Err_0, v) && final(st)@ == t,
        },
        r is Ok ==> frame(old(st)@, final(st)@) && wf(final(st)@),
        r is Ok ==> final(st)@.classes.len() == old(st)@.classes.len(),
        r is Ok ==> forall|k: int| 0 <= k < old(st)@.classes.len() ==> #[trigger] final(st)@.classes[k].constructor
            == old(st)@.classes[k].constructor,
    decreases block@, 1int, 0int,
{
    let ghost st0 = st@;
    let self_reference_vars: Vec<Binding> = vec![Binding { name: this_string(), data_type: DataType::Instance(cname.clone()) }];
    assert(bindings_view(self_reference_vars@) =~= seq![receiver(*cname)]);
    let mut k: usize = 0;
    while k < block.len()
        invariant
            st0 == old(st)@,
            stmts_targets_ok(block@),
            k <= block@.len(),
            id < st@.classes.len(),
            bindings_view(self_reference_vars@) == seq![receiver(*cname)],
            instance_members(st0, *cname, id as int, block@, 0, depth) == instance_members(st@, *cname, id as int, block@, k as int, depth),
            wf(st@),
            st@.loops.len() == 0,
            frame(st0, st@),
            st@.classes.len() == st0.classes.len(),
            forall|c: int| 0 <= c < st0.classes.len() ==> #[trigger] st@.classes[c].constructor == st0.classes[c].constructor,
        decreases block@.len() - k,
    {
        match flatten_instance_member(cname, id, block, k, &self_reference_vars, st, depth) {
            Ok(()) => {},
            Err(e) => return Err(e),
        }
        k = k + 1;
    }
    Ok(())
}

/// The vtables of a compiled program, each as a sequence of entry points.
pub open spec fn vtables_view(v: Seq<Vec<usize>>) -> Seq<Seq<usize>> {
    v.map_values(|t: Vec<usize>| t@)
}

/// Flattens a whole program: its statements at the top level, then the vtable of each
/// class in the order the classes were declared.
#[verifier::spinoff_prover]
pub fn flatten_ast(statements: &[Statement]) -> (r: Result<CompiledData, FlattenError>)
    requires
        stmts_targets_ok(statements@),
    ensures
        match program_code(statements@) {
            Ok((ops, vts)) => r is Ok && r->Ok_0.opcodes@ == ops && vtables_view(r->Ok_0.vtables@) == vts,
            Err(v) => r is Err && reports(r->Err_0, v),
        },
        r is Ok ==> jumps_within(r->Ok_0.opcodes@),
        r is Ok ==> r->Ok_0.vtables@.len() == class_count(statements@),
        r is Ok ==> calls_land(r->Ok_0.opcodes@),
        r is Ok ==> forall|k: int, j: int|
            0 <= k < r->Ok_0.vtables@.len() && 0 <= j < r->Ok_0.vtables@[k]@.len() ==> lands(
                r->Ok_0.opcodes@,
                #[trigger] r->Ok_0.vtables@[k]@[j] as int,
            ),
{
    let mut st = Flattener {
        opcodes: Vec::new(),
        global_vars: Vec::new(),
        vars: Vec::new(),
        funcs: Vec::new(),
        classes: Vec::new(),
        loop_starts: Vec::new(),
    };
    proof {
        assert(st@.ops =~= initial_state().ops);
        assert(st@.globals =~= initial_state().globals);
        assert(st@.vars =~= initial_state().vars);
        assert(st@.funcs =~= initial_state().funcs);
        assert(st@.classes =~= initial_state().classes);
        assert(st@.loops =~= initial_state().loops);
        assert(jumps_within(st.opcodes@));
    }
    flatten_statements(statements, &mut st, 0, None)?;
    let mut vtables: Vec<Vec<usize>> = Vec::new();
    let mut i: usize = 0;
    while i < st.classes.len()
        invariant
            i <= st.classes@.len(),
            vtables@.len() == i,
            forall|k: int| 0 <= k < i ==> #[trigger] vtables@[k]@ == st.classes@[k].vtable@,
        decreases st.classes@.len() - i,
    {
        vtables.push(copy_indices(&st.classes[i].vtable));
        i = i + 1;
    }
    proof {
        assert(vtables_view(vtables@) =~= st@.classes.map_values(|c: ClassV| c.vtable));
        assert forall|k: int, j: int| 0 <= k < vtables@.len() && 0 <= j < vtables@[k]@.len() implies lands(
            st.opcodes@,
            #[trigger] vtables@[k]@[j] as int,
        ) by {
            assert(st@.classes[k].vtable == st.classes@[k].vtable@);
            assert(st@.classes[k].vtable[j] == vtables@[k]@[j]);
        }
    }
    Ok(CompiledData { opcodes: st.opcodes, vtables })
}

pub open spec fn opt_string(o: Option<&String>) -> Option<String> {
    match o {
        Some(s) => Some(*s),
        None => None,
    }
}


} // verus!
