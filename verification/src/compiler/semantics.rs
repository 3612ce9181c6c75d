//! What flattening produces: the code and the tables after each construct,
//! or the reason the program is refused.
use vstd::prelude::*;

use crate::ast::{
    expr_eq, stmt_eq, ty_eq, BinaryOp, DataType, Expression, FunctionData, LiteralType, Statement,
    UnaryOp,
};
use crate::compiler::ast_flattener::{FlattenError, OpCode};
use crate::compiler::tables::{
    binding_keys, class_keys, first_match, func_keys, has, last_match, method_keys, opt_name,
    BindingV, ClassV, FuncV, LoopV, MethodV,
};
use crate::compiler::typing::{binary_type, compat};

verus! {

/// A refusal as a value: names are their characters, the offending syntax is
/// the expression or statement of the input.
pub enum Refusal {
    UndeclaredVariable(Seq<char>),
    UndeclaredFunction(Seq<char>),
    UndeclaredClass(Seq<char>),
    InvalidFunctionCallee(Expression),
    ContinueOutsideLoop,
    BreakOutsideLoop,
    Shadowing(Seq<char>),
    FunctionDeclarationInsideScope(Seq<char>),
    ClassDeclarationInsideScope(Seq<char>),
    UnexpectedClassMember(Statement),
    UnexpectedOverride(Seq<char>),
    UndeclaredClassVar(Seq<char>),
    UndeclaredClassFunction(Seq<char>),
    UnexpectedBinaryOpOpCode(OpCode),
    UnexpectedBinaryOpOperands { left: DataType, operator: BinaryOp, right: DataType },
    UnexpectedUnaryOpOperands { operator: UnaryOp, operand: DataType },
    UnexpectedParameterCount { callee: Expression, expected: usize, received: usize },
    ExpressionIsNotClass(Expression),
    StaticOutsideClass(Seq<char>),
    UnexpectedParameterType { callee: Expression, expected: DataType, received: DataType, index: usize },
    UnexpectedDeclarationValueType { variable: Seq<char>, expected: DataType, received: DataType },
    UnexpectedAssignmentValueType { variable: Seq<char>, expected: DataType, received: DataType },
    UnexpectedReturnValueType { func: Seq<char>, expected: DataType, received: DataType },
    ReturnOutsideFunction,
    MissingReturnStatement(Seq<char>),
    UnpatchedConstructor(Seq<char>),
    ParentIsSelf(Seq<char>),
    UnexpectedOverrideSignature {
        name: Seq<char>,
        expected: (DataType, Seq<DataType>),
        received: (DataType, Seq<DataType>),
    },
    ReservedKeyword(Seq<char>),
    UnexpectedAssignmentTarget(Expression),
}

/// The error value `e` reports the refusal `v`.
pub open spec fn reports(e: FlattenError, v: Refusal) -> bool {
    match (e, v) {
        (FlattenError::UndeclaredVariable(a), Refusal::UndeclaredVariable(b)) => a@ == b,
        (FlattenError::UndeclaredFunction(a), Refusal::UndeclaredFunction(b)) => a@ == b,
        (FlattenError::UndeclaredClass(a), Refusal::UndeclaredClass(b)) => a@ == b,
        (FlattenError::InvalidFunctionCallee(a), Refusal::InvalidFunctionCallee(b)) => expr_eq(*a, b),
        (FlattenError::ContinueOutsideLoop, Refusal::ContinueOutsideLoop) => true,
        (FlattenError::BreakOutsideLoop, Refusal::BreakOutsideLoop) => true,
        (FlattenError::Shadowing(a), Refusal::Shadowing(b)) => a@ == b,
        (FlattenError::FunctionDeclarationInsideScope(a), Refusal::FunctionDeclarationInsideScope(b)) => a@ == b,
        (FlattenError::ClassDeclarationInsideScope(a), Refusal::ClassDeclarationInsideScope(b)) => a@ == b,
        (FlattenError::UnexpectedClassMember(a), Refusal::UnexpectedClassMember(b)) => stmt_eq(a, b),
        (FlattenError::UnexpectedOverride(a), Refusal::UnexpectedOverride(b)) => a@ == b,
        (FlattenError::UndeclaredClassVar(a), Refusal::UndeclaredClassVar(b)) => a@ == b,
        (FlattenError::UndeclaredClassFunction(a), Refusal::UndeclaredClassFunction(b)) => a@ == b,
        (FlattenError::UnexpectedBinaryOpOpCode(a), Refusal::UnexpectedBinaryOpOpCode(b)) => a == b,
        (
            FlattenError::UnexpectedBinaryOpOperands { left: l1, operator: o1, right: r1 },
            Refusal::UnexpectedBinaryOpOperands { left: l2, operator: o2, right: r2 },
        ) => l1 == l2 && o1 == o2 && r1 == r2,
        (
            FlattenError::UnexpectedUnaryOpOperands { operator: o1, operand: d1 },
            Refusal::UnexpectedUnaryOpOperands { operator: o2, operand: d2 },
        ) => o1 == o2 && d1 == d2,
        (
            FlattenError::UnexpectedParameterCount { callee: c1, expected: e1, received: r1 },
            Refusal::UnexpectedParameterCount { callee: c2, expected: e2, received: r2 },
        ) => expr_eq(*c1, c2) && e1 == e2 && r1 == r2,
        (FlattenError::ExpressionIsNotClass(a), Refusal::ExpressionIsNotClass(b)) => expr_eq(*a, b),
        (FlattenError::StaticOutsideClass(a), Refusal::StaticOutsideClass(b)) => a@ == b,
        (
            FlattenError::UnexpectedParameterType { callee: c1, expected: e1, received: r1, index: i1 },
            Refusal::UnexpectedParameterType { callee: c2, expected: e2, received: r2, index: i2 },
        ) => expr_eq(*c1, c2) && e1 == e2 && r1 == r2 && i1 == i2,
        (
            FlattenError::UnexpectedDeclarationValueType { variable: v1, expected: e1, received: r1 },
            Refusal::UnexpectedDeclarationValueType { variable: v2, expected: e2, received: r2 },
        ) => v1@ == v2 && e1 == e2 && r1 == r2,
        (
            FlattenError::UnexpectedAssignmentValueType { variable: v1, expected: e1, received: r1 },
            Refusal::UnexpectedAssignmentValueType { variable: v2, expected: e2, received: r2 },
        ) => v1@ == v2 && e1 == e2 && r1 == r2,
        (
            FlattenError::UnexpectedReturnValueType { func: f1, expected: e1, received: r1 },
            Refusal::UnexpectedReturnValueType { func: f2, expected: e2, received: r2 },
        ) => f1@ == f2 && e1 == e2 && r1 == r2,
        (FlattenError::ReturnOutsideFunction, Refusal::ReturnOutsideFunction) => true,
        (FlattenError::MissingReturnStatement(a), Refusal::MissingReturnStatement(b)) => a@ == b,
        (FlattenError::UnpatchedConstructor(a), Refusal::UnpatchedConstructor(b)) => a@ == b,
        (FlattenError::ParentIsSelf(a), Refusal::ParentIsSelf(b)) => a@ == b,
        (
            FlattenError::UnexpectedOverrideSignature { name: n1, expected: e1, received: r1 },
            Refusal::UnexpectedOverrideSignature { name: n2, expected: e2, received: r2 },
        ) => n1@ == n2 && e1.0 == e2.0 && e1.1@ == e2.1 && r1.0 == r2.0 && r1.1@ == r2.1,
        (FlattenError::ReservedKeyword(a), Refusal::ReservedKeyword(b)) => a@ == b,
        (FlattenError::UnexpectedAssignmentTarget(a), Refusal::UnexpectedAssignmentTarget(b)) => expr_eq(*a, b),
        _ => false,
    }
}

/// The reserved name of the receiver inside methods.
pub open spec fn this_name() -> Seq<char> {
    seq!['t', 'h', 'i', 's']
}

/// The global name of a static member: `class.member`.
pub open spec fn qualified(class: Seq<char>, member: Seq<char>) -> Seq<char> {
    class + seq!['.'] + member
}

/// The names visible to an expression.
pub struct Scope {
    pub globals: Seq<BindingV>,
    pub vars: Seq<BindingV>,
    pub funcs: Seq<FuncV>,
    pub classes: Seq<ClassV>,
}

/// Everything flattening reads and writes.
pub struct StateV {
    pub ops: Seq<OpCode>,
    pub globals: Seq<BindingV>,
    pub vars: Seq<BindingV>,
    pub funcs: Seq<FuncV>,
    pub classes: Seq<ClassV>,
    pub loops: Seq<LoopV>,
}

pub open spec fn scope(st: StateV) -> Scope {
    Scope { globals: st.globals, vars: st.vars, funcs: st.funcs, classes: st.classes }
}

/// The function a statement stands in, if any: its name and declared return type.
pub type FnCtx = Option<(Seq<char>, DataType)>;

pub open spec fn literal_type(l: LiteralType) -> DataType {
    match l {
        LiteralType::Bool(_) => DataType::Bool,
        LiteralType::Int(_) => DataType::Int,
        LiteralType::Float(_) => DataType::Float,
        LiteralType::String(_) => DataType::String,
        LiteralType::Null => DataType::Null,
    }
}

pub open spec fn unary_type(op: UnaryOp, t: DataType) -> Option<DataType> {
    match (op, t) {
        (UnaryOp::LNot, DataType::Bool) => Some(DataType::Bool),
        (UnaryOp::Negate, DataType::Int) => Some(DataType::Int),
        (UnaryOp::Negate, DataType::Float) => Some(DataType::Float),
        _ => None,
    }
}

pub open spec fn unary_opcode(op: UnaryOp) -> OpCode {
    match op {
        UnaryOp::LNot => OpCode::LNot,
        UnaryOp::Negate => OpCode::Negate,
    }
}

/// The instruction of a binary operator that evaluates both operands.
pub open spec fn binary_opcode(op: BinaryOp) -> OpCode {
    match op {
        BinaryOp::Add => OpCode::Add,
        BinaryOp::Subtract => OpCode::Subtract,
        BinaryOp::Multiply => OpCode::Multiply,
        BinaryOp::Divide => OpCode::Divide,
        BinaryOp::Equal => OpCode::Equal,
        BinaryOp::Greater => OpCode::Greater,
        BinaryOp::GreaterEqual => OpCode::GreaterEqual,
        BinaryOp::Less => OpCode::Less,
        BinaryOp::LessEqual => OpCode::LessEqual,
        BinaryOp::NotEqual => OpCode::NotEqual,
        BinaryOp::LOr => OpCode::Equal,
        BinaryOp::LAnd => OpCode::Equal,
    }
}

/// The operator that an arithmetic or comparison instruction computes.
pub open spec fn opcode_operator(op: OpCode) -> Option<BinaryOp> {
    match op {
        OpCode::Add => Some(BinaryOp::Add),
        OpCode::Subtract => Some(BinaryOp::Subtract),
        OpCode::Multiply => Some(BinaryOp::Multiply),
        OpCode::Divide => Some(BinaryOp::Divide),
        OpCode::Equal => Some(BinaryOp::Equal),
        OpCode::NotEqual => Some(BinaryOp::NotEqual),
        OpCode::Less => Some(BinaryOp::Less),
        OpCode::LessEqual => Some(BinaryOp::LessEqual),
        OpCode::Greater => Some(BinaryOp::Greater),
        OpCode::GreaterEqual => Some(BinaryOp::GreaterEqual),
        _ => None,
    }
}

/// The ten arithmetic and comparison instructions are exactly the ones with an operator,
/// each the operator of the same name, whose instruction it is in turn; `&&` and `||`
/// are never the operator of an instruction.
pub proof fn law_opcode_operator(op: OpCode)
    ensures
        opcode_operator(op) is Some <==> (op is Add || op is Subtract || op is Multiply || op is Divide || op is Equal
            || op is NotEqual || op is Less || op is LessEqual || op is Greater || op is GreaterEqual),
        opcode_operator(op) matches Some(b) ==> !(b is LAnd) && !(b is LOr) && binary_opcode(b) == op,
{
}

/// Every literal has a type: booleans `Bool`, integers `Int`, floats `Float`, strings
/// `String` and `null` the type `Null`.
pub proof fn law_literal_type(l: LiteralType)
    ensures
        l is Bool <==> literal_type(l) is Bool,
        l is Int <==> literal_type(l) is Int,
        l is Float <==> literal_type(l) is Float,
        l is String <==> literal_type(l) is String,
        l is Null <==> literal_type(l) is Null,
{
}

/// Two integer operands compile, in order, to the code of each followed by the operator's
/// instruction: arithmetic gives an integer, a comparison a boolean.
pub proof fn law_integer_operator_code(sc: Scope, ops: Seq<OpCode>, e1: Expression, e2: Expression, op: BinaryOp)
    requires
        expr_code(sc, ops, e1) matches Ok((_, t)) && t is Int,
        expr_code(sc, expr_code(sc, ops, e1)->Ok_0.0, e2) matches Ok((_, t)) && t is Int,
    ensures
        ({
            let o2 = expr_code(sc, expr_code(sc, ops, e1)->Ok_0.0, e2)->Ok_0.0;
            let code = expr_code(sc, ops, Expression::Binary { left: Box::new(e1), operator: op, right: Box::new(e2) });
            &&& op is Add ==> code == Ok::<(Seq<OpCode>, DataType), (Refusal, Seq<OpCode>)>((o2.push(OpCode::Add), DataType::Int))
            &&& op is Subtract ==> code == Ok::<(Seq<OpCode>, DataType), (Refusal, Seq<OpCode>)>(
                (o2.push(OpCode::Subtract), DataType::Int),
            )
            &&& op is Multiply ==> code == Ok::<(Seq<OpCode>, DataType), (Refusal, Seq<OpCode>)>(
                (o2.push(OpCode::Multiply), DataType::Int),
            )
            &&& op is Divide ==> code == Ok::<(Seq<OpCode>, DataType), (Refusal, Seq<OpCode>)>((o2.push(OpCode::Divide), DataType::Int))
            &&& op is Less ==> code == Ok::<(Seq<OpCode>, DataType), (Refusal, Seq<OpCode>)>((o2.push(OpCode::Less), DataType::Bool))
            &&& op is LessEqual ==> code == Ok::<(Seq<OpCode>, DataType), (Refusal, Seq<OpCode>)>(
                (o2.push(OpCode::LessEqual), DataType::Bool),
            )
            &&& op is Greater ==> code == Ok::<(Seq<OpCode>, DataType), (Refusal, Seq<OpCode>)>(
                (o2.push(OpCode::Greater), DataType::Bool),
            )
            &&& op is GreaterEqual ==> code == Ok::<(Seq<OpCode>, DataType), (Refusal, Seq<OpCode>)>(
                (o2.push(OpCode::GreaterEqual), DataType::Bool),
            )
            &&& op is Equal ==> code == Ok::<(Seq<OpCode>, DataType), (Refusal, Seq<OpCode>)>((o2.push(OpCode::Equal), DataType::Bool))
            &&& op is NotEqual ==> code == Ok::<(Seq<OpCode>, DataType), (Refusal, Seq<OpCode>)>(
                (o2.push(OpCode::NotEqual), DataType::Bool),
            )
        }),
{
    crate::compiler::typing::law_compat_reflexive(sc.classes, DataType::Int);
}

/// `!` applies to a boolean and `-` to an integer or a float, keeping the type; any
/// other operand is refused. The operand's code is followed by the operator's instruction.
pub proof fn law_unary_code(sc: Scope, ops: Seq<OpCode>, e: Expression, op: UnaryOp)
    requires
        expr_code(sc, ops, e) is Ok,
    ensures
        ({
            let (o, t) = expr_code(sc, ops, e)->Ok_0;
            let code = expr_code(sc, ops, Expression::Unary { operator: op, right: Box::new(e) });
            &&& op is LNot && t is Bool ==> code == Ok::<(Seq<OpCode>, DataType), (Refusal, Seq<OpCode>)>((o.push(OpCode::LNot), DataType::Bool))
            &&& op is Negate && t is Int ==> code == Ok::<(Seq<OpCode>, DataType), (Refusal, Seq<OpCode>)>(
                (o.push(OpCode::Negate), DataType::Int),
            )
            &&& op is Negate && t is Float ==> code == Ok::<(Seq<OpCode>, DataType), (Refusal, Seq<OpCode>)>(
                (o.push(OpCode::Negate), DataType::Float),
            )
            &&& !(op is LNot && t is Bool) && !(op is Negate && (t is Int || t is Float)) ==> code is Err
        }),
{
}

/// The conditional jump of `||` (on true) or `&&` (on false) that keeps its operand.
pub open spec fn short_jump(jump_on: bool, index: usize) -> OpCode {
    if jump_on {
        OpCode::JumpIfTrue { index, pop: false }
    } else {
        OpCode::JumpIfFalse { index, pop: false }
    }
}

pub open spec fn short_operator(jump_on: bool) -> BinaryOp {
    if jump_on {
        BinaryOp::LOr
    } else {
        BinaryOp::LAnd
    }
}

/// The code and type of an expression appended to `ops`; when it is refused, the refusal
/// and the code emitted up to that point.
pub open spec fn expr_code(sc: Scope, ops: Seq<OpCode>, e: Expression) -> Result<(Seq<OpCode>, DataType), (Refusal, Seq<OpCode>)>
    decreases e, 0int,
{
    match e {
        Expression::Unary { operator, right } => match expr_code(sc, ops, *right) {
            Err(x) => Err(x),
            Ok((o, t)) => match unary_type(operator, t) {
                None => Err((Refusal::UnexpectedUnaryOpOperands { operator, operand: t }, o)),
                Some(d) => Ok((o.push(unary_opcode(operator)), d)),
            },
        },
        Expression::Binary { left, operator, right } => if operator is LOr || operator is LAnd {
            let jump_on = operator is LOr;
            match expr_code(sc, ops, *left) {
                Err(x) => Err(x),
                Ok((o1, l)) => if !(l is Bool) {
                    Err((Refusal::UnexpectedBinaryOpOperands { left: l, operator: short_operator(jump_on), right: DataType::Bool }, o1))
                } else {
                    let start = o1.len() as int;
                    let o2 = o1.push(short_jump(jump_on, 0)).push(OpCode::Pop(1));
                    match expr_code(sc, o2, *right) {
                        Err(x) => Err(x),
                        Ok((o3, r)) => if !(r is Bool) {
                            Err((Refusal::UnexpectedBinaryOpOperands { left: l, operator: short_operator(jump_on), right: r }, o3))
                        } else {
                            Ok((o3.update(start, short_jump(jump_on, o3.len() as usize)), DataType::Bool))
                        },
                    }
                },
            }
        } else {
            let opcode = binary_opcode(operator);
            match expr_code(sc, ops, *left) {
                Err(x) => Err(x),
                Ok((o1, l)) => match expr_code(sc, o1, *right) {
                    Err(x) => Err(x),
                    Ok((o2, r)) => match opcode_operator(opcode) {
                        None => Err((Refusal::UnexpectedBinaryOpOpCode(opcode), o2)),
                        Some(op) => match binary_type(sc.classes, l, op, r) {
                            None => Err((Refusal::UnexpectedBinaryOpOperands { left: l, operator: op, right: r }, o2)),
                            Some(d) => Ok((o2.push(opcode), d)),
                        },
                    },
                },
            }
        },
        Expression::Assignment { target, value } => match *target {
            Expression::Variable(i) => if i@ == this_name() {
                Err((Refusal::UnexpectedAssignmentTarget(*target), ops))
            } else {
                match expr_code(sc, ops, *value) {
                    Err(x) => Err(x),
                    Ok((o1, vt)) => match last_match(binding_keys(sc.vars), i@) {
                        Some(idx) => {
                            let d = sc.vars[idx].ty;
                            if !compat(sc.classes, d, vt) {
                                Err((Refusal::UnexpectedAssignmentValueType { variable: i@, expected: d, received: vt }, o1))
                            } else {
                                Ok((o1.push(OpCode::SetVar(idx as usize)), vt))
                            }
                        },
                        None => match last_match(binding_keys(sc.globals), i@) {
                            Some(idx) => {
                                let d = sc.globals[idx].ty;
                                if !compat(sc.classes, d, vt) {
                                    Err((Refusal::UnexpectedAssignmentValueType { variable: i@, expected: d, received: vt }, o1))
                                } else {
                                    Ok((o1.push(OpCode::SetGlobal(idx as usize)), vt))
                                }
                            },
                            None => Err((Refusal::UndeclaredVariable(i@), o1)),
                        },
                    },
                }
            },
            Expression::MemberAccess { class, member } => if (*class) is Variable && has(
                class_keys(sc.classes),
                (*class)->Variable_0@,
            ) {
                let qn = qualified((*class)->Variable_0@, member@);
                match first_match(binding_keys(sc.globals), qn) {
                    Some(index) => match expr_code(sc, ops, *value) {
                        Err(x) => Err(x),
                        Ok((o1, d)) => if !compat(sc.classes, sc.globals[index].ty, d) {
                            Err((Refusal::UnexpectedAssignmentValueType { variable: qn, expected: sc.globals[index].ty, received: d }, o1))
                        } else {
                            Ok((o1.push(OpCode::SetGlobal(index as usize)), d))
                        },
                    },
                    None => Err((Refusal::UndeclaredClassVar(qn), ops)),
                }
            } else {
                match expr_code(sc, ops, *class) {
                    Err(x) => Err(x),
                    Ok((o1, ct)) => match ct {
                        DataType::Instance(cn) => match first_match(class_keys(sc.classes), cn@) {
                            Some(ci) => {
                                let cd = sc.classes[ci];
                                match first_match(binding_keys(cd.vars), member@) {
                                    Some(index) => match expr_code(sc, o1, *value) {
                                        Err(x) => Err(x),
                                        Ok((o2, d)) => if !compat(sc.classes, cd.vars[index].ty, d) {
                                            Err((Refusal::UnexpectedAssignmentValueType {
                                                variable: qualified(cn@, member@),
                                                expected: cd.vars[index].ty,
                                                received: d,
                                            }, o2))
                                        } else {
                                            Ok((o2.push(OpCode::SetMember(index as usize)), d))
                                        },
                                    },
                                    None => Err((Refusal::UndeclaredClassVar(qualified(cn@, member@)), o1)),
                                }
                            },
                            None => Err((Refusal::ExpressionIsNotClass(*class), o1)),
                        },
                        _ => Err((Refusal::ExpressionIsNotClass(*class), o1)),
                    },
                }
            },
            _ => Err((Refusal::UnexpectedAssignmentTarget(*target), ops)),
        },
        Expression::Literal(l) => Ok((ops.push(OpCode::PushConst(l)), literal_type(l))),
        Expression::Call { callee, parameters } => match *callee {
            Expression::Variable(i) => match first_match(func_keys(sc.funcs), i@) {
                Some(fi) => {
                    let f = sc.funcs[fi];
                    if parameters@.len() != f.params.len() {
                        Err((Refusal::UnexpectedParameterCount {
                            callee: *callee,
                            expected: f.params.len() as usize,
                            received: parameters@.len() as usize,
                        }, ops))
                    } else {
                        match args_code(sc, ops, *callee, parameters@, f.params, 0) {
                            Err(x) => Err(x),
                            Ok(o1) => Ok((o1.push(OpCode::Call { index: f.index, parameters: parameters@.len() as usize }), f.ret)),
                        }
                    }
                },
                None => match first_match(class_keys(sc.classes), i@) {
                    Some(ci) => {
                        let c = sc.classes[ci];
                        if parameters@.len() != 0 {
                            Err((Refusal::UnexpectedParameterCount {
                                callee: *callee,
                                expected: 0,
                                received: parameters@.len() as usize,
                            }, ops))
                        } else if c.constructor == 0 {
                            Err((Refusal::UnpatchedConstructor(i@), ops))
                        } else {
                            Ok((
                                ops.push(OpCode::NewInstance(c.id)).push(OpCode::Call { index: c.constructor, parameters: 1 }),
                                DataType::Instance(i),
                            ))
                        }
                    },
                    None => Err((Refusal::UndeclaredFunction(i@), ops)),
                },
            },
            Expression::MemberAccess { class, member } => if (*class) is Variable && has(
                class_keys(sc.classes),
                (*class)->Variable_0@,
            ) {
                let qn = qualified((*class)->Variable_0@, member@);
                match first_match(func_keys(sc.funcs), qn) {
                    Some(fi) => {
                        let f = sc.funcs[fi];
                        if parameters@.len() != f.params.len() {
                            Err((Refusal::UnexpectedParameterCount {
                                callee: *callee,
                                expected: f.params.len() as usize,
                                received: parameters@.len() as usize,
                            }, ops))
                        } else {
                            match args_code(sc, ops, *callee, parameters@, f.params, 0) {
                                Err(x) => Err(x),
                                Ok(o1) => Ok((o1.push(OpCode::Call { index: f.index, parameters: parameters@.len() as usize }), f.ret)),
                            }
                        }
                    },
                    None => Err((Refusal::UndeclaredClassFunction(qn), ops)),
                }
            } else {
                match expr_code(sc, ops, *class) {
                    Err(x) => Err(x),
                    Ok((o1, ct)) => match ct {
                        DataType::Instance(cn) => match first_match(class_keys(sc.classes), cn@) {
                            Some(ci) => {
                                let cd = sc.classes[ci];
                                match first_match(method_keys(cd.funcs), member@) {
                                    Some(mi) => {
                                        let m = cd.funcs[mi];
                                        if parameters@.len() != m.params.len() {
                                            Err((Refusal::UnexpectedParameterCount {
                                                callee: *callee,
                                                expected: m.params.len() as usize,
                                                received: parameters@.len() as usize,
                                            }, o1))
                                        } else {
                                            match args_code(sc, o1, *callee, parameters@, m.params, 0) {
                                                Err(x) => Err(x),
                                                Ok(o2) => Ok((
                                                    o2.push(OpCode::CallVirtual { slot: m.slot, parameters: (parameters@.len() + 1) as usize }),
                                                    m.ret,
                                                )),
                                            }
                                        }
                                    },
                                    None => Err((Refusal::UndeclaredClassFunction(qualified(cn@, member@)), o1)),
                                }
                            },
                            None => Err((Refusal::UndeclaredClass(cn@), o1)),
                        },
                        _ => Err((Refusal::ExpressionIsNotClass(*class), o1)),
                    },
                }
            },
            _ => Err((Refusal::InvalidFunctionCallee(*callee), ops)),
        },
        Expression::MemberAccess { class, member } => if (*class) is Variable && has(
            class_keys(sc.classes),
            (*class)->Variable_0@,
        ) {
            let qn = qualified((*class)->Variable_0@, member@);
            match first_match(binding_keys(sc.globals), qn) {
                Some(index) => Ok((ops.push(OpCode::GetGlobal(index as usize)), sc.globals[index].ty)),
                None => Err((Refusal::UndeclaredClassVar(qn), ops)),
            }
        } else {
            match expr_code(sc, ops, *class) {
                Err(x) => Err(x),
                Ok((o1, ct)) => match ct {
                    DataType::Instance(n) => match first_match(class_keys(sc.classes), n@) {
                        Some(ci) => {
                            let cd = sc.classes[ci];
                            match first_match(binding_keys(cd.vars), member@) {
                                Some(index) => Ok((o1.push(OpCode::GetMember(index as usize)), cd.vars[index].ty)),
                                None => Err((Refusal::UndeclaredClassVar(qualified(n@, member@)), o1)),
                            }
                        },
                        None => Err((Refusal::ExpressionIsNotClass(*class), o1)),
                    },
                    _ => Err((Refusal::ExpressionIsNotClass(*class), o1)),
                },
            }
        },
        Expression::Variable(i) => match last_match(binding_keys(sc.vars), i@) {
            Some(idx) => Ok((ops.push(OpCode::GetVar(idx as usize)), sc.vars[idx].ty)),
            None => match last_match(binding_keys(sc.globals), i@) {
                Some(idx) => Ok((ops.push(OpCode::GetGlobal(idx as usize)), sc.globals[idx].ty)),
                None => Err((Refusal::UndeclaredVariable(i@), ops)),
            },
        },
    }
}

/// The code of the arguments from position `k` on, each checked against its declared type;
/// when one is refused, the refusal and the code emitted up to that point.
pub open spec fn args_code(
    sc: Scope,
    ops: Seq<OpCode>,
    callee: Expression,
    args: Seq<Expression>,
    expected: Seq<DataType>,
    k: int,
) -> Result<Seq<OpCode>, (Refusal, Seq<OpCode>)>
    decreases args, args.len() - k,
{
    if 0 <= k < args.len() {
        match expr_code(sc, ops, args[k]) {
            Err(x) => Err(x),
            Ok((o1, d)) => if !compat(sc.classes, expected[k], d) {
                Err((Refusal::UnexpectedParameterType { callee, expected: expected[k], received: d, index: k as usize }, o1))
            } else {
                args_code(sc, o1, callee, args, expected, k + 1)
            },
        }
    } else {
        Ok(ops)
    }
}

/// `b` is `a` with code appended: no instruction of `a` changes.
pub open spec fn extends(a: Seq<OpCode>, b: Seq<OpCode>) -> bool {
    a.len() <= b.len() && forall|i: int| #![trigger b[i]] 0 <= i < a.len() ==> b[i] == a[i]
}

/// Where a jump instruction sends control, if the instruction is a jump.
pub open spec fn jump_target(op: OpCode) -> Option<usize> {
    match op {
        OpCode::Jump(i) => Some(i),
        OpCode::JumpIfTrue { index, pop } => Some(index),
        OpCode::JumpIfFalse { index, pop } => Some(index),
        _ => None,
    }
}

/// Every jump of the code lands within it or just past its end.
pub open spec fn jumps_within(ops: Seq<OpCode>) -> bool {
    forall|i: int| 0 <= i < ops.len() ==> match #[trigger] jump_target(ops[i]) {
        Some(t) => t <= ops.len(),
        None => true,
    }
}

/// The depth of the statements of a nested block.
pub open spec fn deeper(depth: usize) -> usize {
    if depth < usize::MAX {
        (depth + 1) as usize
    } else {
        depth
    }
}

/// Points each pending `break` (a position in the code) at `target`.
pub open spec fn patch_breaks(ops: Seq<OpCode>, breaks: Seq<usize>, target: usize) -> Seq<OpCode>
    decreases breaks.len(),
{
    if breaks.len() == 0 {
        ops
    } else {
        patch_breaks(ops.update(breaks[0] as int, OpCode::Jump(target)), breaks.subrange(1, breaks.len() as int), target)
    }
}

/// The types of a parameter list.
pub open spec fn param_types(ps: Seq<(DataType, String)>) -> Seq<DataType> {
    ps.map_values(|p: (DataType, String)| p.0)
}

/// The receiver of a method of class `cname`.
pub open spec fn receiver(cname: String) -> BindingV {
    BindingV { name: this_name(), ty: DataType::Instance(cname) }
}

/// The locals of a function body: its parameters from position `k` on, after `fvars`.
pub open spec fn bind_params(
    funcs: Seq<FuncV>,
    classes: Seq<ClassV>,
    fvars: Seq<BindingV>,
    params: Seq<(DataType, String)>,
    k: int,
) -> Result<Seq<BindingV>, Refusal>
    decreases params.len() - k,
{
    if 0 <= k < params.len() {
        let (dt, pname) = params[k];
        if pname@ == this_name() {
            Err(Refusal::ReservedKeyword(pname@))
        } else if has(binding_keys(fvars), pname@) || has(func_keys(funcs), pname@) || has(class_keys(classes), pname@) {
            Err(Refusal::Shadowing(pname@))
        } else {
            bind_params(funcs, classes, fvars.push(BindingV { name: pname@, ty: dt }), params, k + 1)
        }
    } else {
        Ok(fvars)
    }
}

/// The tables of class `id` after it takes over the members of its parent.
pub open spec fn inherit(cs: Seq<ClassV>, id: int, parent: Option<String>) -> Result<Seq<ClassV>, Refusal> {
    match parent {
        None => Ok(cs),
        Some(n) => match first_match(class_keys(cs), n@) {
            None => Err(Refusal::UndeclaredClass(n@)),
            Some(pk) => {
                let p = cs[pk];
                Ok(cs.update(id, ClassV {
                    vars: p.vars,
                    funcs: p.funcs.map_values(|m: MethodV| MethodV { overridable: true, ..m }),
                    vtable: p.vtable,
                    ..cs[id]
                }))
            },
        },
    }
}

/// The outcome of a single statement: the new state, and whether it certainly returns;
/// when it is refused, the refusal and the state as compilation left it.
pub open spec fn stmt_code(st: StateV, s: Statement, depth: usize, fd: FnCtx) -> Result<(StateV, bool), (Refusal, StateV)>
    decreases s, 0int, 0int,
{
    match s {
        Statement::Block(b) => block_code(st, b@, depth, fd),
        Statement::Expression(e) => match expr_code(scope(st), st.ops, e) {
            Err((x, o)) => Err((x, StateV { ops: o, ..st })),
            Ok((o, _)) => Ok((StateV { ops: o.push(OpCode::Pop(1)), ..st }, false)),
        },
        Statement::If { condition, block } => match expr_code(scope(st), st.ops, condition) {
            Err((x, o)) => Err((x, StateV { ops: o, ..st })),
            Ok((o1, _)) => {
                let start = o1.len() as int;
                match block_code(StateV { ops: o1.push(OpCode::JumpIfFalse { index: 0, pop: true }), ..st }, block@, depth, fd) {
                    Err(x) => Err(x),
                    Ok((st2, _)) => Ok((
                        StateV {
                            ops: st2.ops.update(start, OpCode::JumpIfFalse { index: st2.ops.len() as usize, pop: true }),
                            ..st2
                        },
                        false,
                    )),
                }
            },
        },
        Statement::IfElse { condition, block1, block2 } => match expr_code(scope(st), st.ops, condition) {
            Err((x, o)) => Err((x, StateV { ops: o, ..st })),
            Ok((o1, _)) => {
                let s1 = o1.len() as int;
                match block_code(StateV { ops: o1.push(OpCode::JumpIfFalse { index: 0, pop: true }), ..st }, block1@, depth, fd) {
                    Err(x) => Err(x),
                    Ok((st2, r1)) => {
                        let s2 = st2.ops.len() as int;
                        let o3 = st2.ops.push(OpCode::Jump(0));
                        let o4 = o3.update(s1, OpCode::JumpIfFalse { index: o3.len() as usize, pop: true });
                        match block_code(StateV { ops: o4, ..st2 }, block2@, depth, fd) {
                            Err(x) => Err(x),
                            Ok((st3, r2)) => Ok((
                                StateV { ops: st3.ops.update(s2, OpCode::Jump(st3.ops.len() as usize)), ..st3 },
                                r1 && r2,
                            )),
                        }
                    },
                }
            },
        },
        Statement::Return(value) => match fd {
            None => Err((Refusal::ReturnOutsideFunction, st)),
            Some((fname, rt)) => {
                let code: Result<Seq<OpCode>, (Refusal, StateV)> = match value {
                    Some(e) => match expr_code(scope(st), st.ops, e) {
                        Err((x, o)) => Err((x, StateV { ops: o, ..st })),
                        Ok((o, d)) => if !compat(st.classes, rt, d) {
                            Err((Refusal::UnexpectedReturnValueType { func: fname, expected: rt, received: d }, StateV { ops: o, ..st }))
                        } else {
                            Ok(o)
                        },
                    },
                    None => if !compat(st.classes, rt, DataType::Null) {
                        Err((Refusal::UnexpectedReturnValueType { func: fname, expected: rt, received: DataType::Null }, st))
                    } else {
                        Ok(st.ops.push(OpCode::PushConst(LiteralType::Null)))
                    },
                };
                match code {
                    Err(x) => Err(x),
                    Ok(o) => Ok((StateV { ops: o.push(OpCode::PopStack).push(OpCode::Return), ..st }, true)),
                }
            },
        },
        Statement::Continue => if st.loops.len() == 0 {
            Err((Refusal::ContinueOutsideLoop, st))
        } else {
            let l = st.loops.last();
            Ok((
                StateV {
                    ops: st.ops.push(OpCode::Pop((st.vars.len() - l.vars_len) as usize)).push(OpCode::Jump(l.start)),
                    ..st
                },
                false,
            ))
        },
        Statement::Break => if st.loops.len() == 0 {
            Err((Refusal::BreakOutsideLoop, st))
        } else {
            let l = st.loops.last();
            let o1 = st.ops.push(OpCode::Pop((st.vars.len() - l.vars_len) as usize));
            let l2 = LoopV { breaks: l.breaks.push(o1.len() as usize), ..l };
            Ok((
                StateV {
                    ops: o1.push(OpCode::Jump(0)),
                    loops: st.loops.update(st.loops.len() - 1, l2),
                    ..st
                },
                false,
            ))
        },
        Statement::While { condition, block } => {
            let start = st.ops.len();
            match expr_code(scope(st), st.ops, condition) {
                Err((x, o)) => Err((x, StateV { ops: o, ..st })),
                Ok((o1, _)) => {
                    let j = o1.len() as int;
                    let st1 = StateV { ops: o1.push(OpCode::JumpIfFalse { index: 0, pop: true }), ..st };
                    match loop_body_code(st1, block@, depth, fd, start as usize, st.vars.len() as usize) {
                        Err(x) => Err(x),
                        Ok((st2, breaks)) => {
                            let o2 = st2.ops.push(OpCode::Jump(start as usize));
                            let o3 = o2.update(j, OpCode::JumpIfFalse { index: o2.len() as usize, pop: true });
                            Ok((StateV { ops: patch_breaks(o3, breaks, o3.len() as usize), ..st2 }, false))
                        },
                    }
                },
            }
        },
        Statement::For { initializer, condition, update, block } => match stmt_code(st, *initializer, deeper(depth), fd) {
            Err(x) => Err(x),
            Ok((st1, _)) => for_loop_code(st1, condition, update, block@, depth, fd, st.vars.len()),
        },
        Statement::Print(e) => match expr_code(scope(st), st.ops, e) {
            Err((x, o)) => Err((x, StateV { ops: o, ..st })),
            Ok((o, _)) => Ok((StateV { ops: o.push(OpCode::Print), ..st }, false)),
        },
        Statement::Declaration { name, value, data_type, is_static } => if name@ == this_name() {
            Err((Refusal::ReservedKeyword(name@), st))
        } else if is_static {
            Err((Refusal::StaticOutsideClass(name@), st))
        } else if (depth == 0 && has(binding_keys(st.globals), name@)) || (depth != 0 && has(binding_keys(st.vars), name@))
            || has(func_keys(st.funcs), name@) || has(class_keys(st.classes), name@) {
            Err((Refusal::Shadowing(name@), st))
        } else {
            match expr_code(scope(st), st.ops, value) {
                Err((x, o)) => Err((x, StateV { ops: o, ..st })),
                Ok((o, d)) => if !compat(st.classes, data_type, d) {
                    Err((Refusal::UnexpectedDeclarationValueType { variable: name@, expected: data_type, received: d }, StateV { ops: o, ..st }))
                } else if depth != 0 {
                    Ok((StateV { ops: o, vars: st.vars.push(BindingV { name: name@, ty: data_type }), ..st }, false))
                } else {
                    Ok((
                        StateV {
                            ops: o.push(OpCode::DefineGlobal),
                            globals: st.globals.push(BindingV { name: name@, ty: data_type }),
                            ..st
                        },
                        false,
                    ))
                },
            }
        },
        Statement::Function { name, data, should_override, is_static } => if is_static {
            Err((Refusal::StaticOutsideClass(name@), st))
        } else if depth != 0 {
            Err((Refusal::FunctionDeclarationInsideScope(name@), st))
        } else if has(func_keys(st.funcs), name@) || has(binding_keys(st.globals), name@) || has(class_keys(st.classes), name@) {
            Err((Refusal::Shadowing(name@), st))
        } else if should_override {
            Err((Refusal::UnexpectedOverride(name@), st))
        } else {
            let o1 = st.ops.push(OpCode::Jump(0));
            let f = FuncV { name: name@, index: o1.len() as usize, ret: data.data_type, params: param_types(data.parameters@) };
            match function_code(StateV { ops: o1, funcs: st.funcs.push(f), ..st }, name@, data, st.ops.len() as int, depth, None) {
                Err(x) => Err(x),
                Ok(st2) => Ok((st2, false)),
            }
        },
        Statement::Class { name, block, parent } => match class_code(st, name, block@, parent, depth) {
            Err(x) => Err(x),
            Ok(st2) => Ok((st2, false)),
        },
    }
}

/// The rest of a `for` loop once its initializer has run from a state with `outer`
/// locals: the update (skipped on entry), the condition, then the body.
pub open spec fn for_loop_code(
    st1: StateV,
    condition: Expression,
    update: Expression,
    block: Seq<Statement>,
    depth: usize,
    fd: FnCtx,
    outer: nat,
) -> Result<(StateV, bool), (Refusal, StateV)>
    decreases block, 1int, 2int,
{
    let inner = st1.vars.len();
    let skip = st1.ops.len();
    match expr_code(scope(st1), st1.ops.push(OpCode::Jump(0)), update) {
        Err((x, o)) => Err((x, StateV { ops: o, ..st1 })),
        Ok((o2, _)) => {
            let o3 = o2.push(OpCode::Pop(1));
            let o4 = o3.update(skip as int, OpCode::Jump(o3.len() as usize));
            match expr_code(scope(st1), o4, condition) {
                Err((x, o)) => Err((x, StateV { ops: o, ..st1 })),
                Ok((o5, _)) => {
                    let j = o5.len() as int;
                    let st3 = StateV { ops: o5.push(OpCode::JumpIfFalse { index: 0, pop: true }), ..st1 };
                    match loop_body_code(st3, block, depth, fd, (skip + 1) as usize, inner as usize) {
                        Err(x) => Err(x),
                        Ok((st4, breaks)) => {
                            let o6 = st4.ops.push(OpCode::Jump((skip + 1) as usize));
                            let o7 = o6.update(j, OpCode::JumpIfFalse { index: o6.len() as usize, pop: true });
                            let o8 = o7.push(OpCode::Pop((st4.vars.len() - outer) as usize));
                            Ok((
                                StateV {
                                    ops: patch_breaks(o8, breaks, (o8.len() - 1) as usize),
                                    vars: st4.vars.subrange(0, outer as int),
                                    ..st4
                                },
                                false,
                            ))
                        },
                    }
                },
            }
        },
    }
}

/// The outcome of a loop body: the block runs with the loop `start`/`vars_len` pending,
/// which is then dropped; also gives the `break` jumps to patch.
pub open spec fn loop_body_code(
    st: StateV,
    block: Seq<Statement>,
    depth: usize,
    fd: FnCtx,
    start: usize,
    vars_len: usize,
) -> Result<(StateV, Seq<usize>), (Refusal, StateV)>
    decreases block, 1int, 1int,
{
    match block_code(StateV { loops: st.loops.push(LoopV { start, vars_len, breaks: seq![] }), ..st }, block, depth, fd) {
        Err(x) => Err(x),
        Ok((st2, _)) => Ok((StateV { loops: st2.loops.subrange(0, st2.loops.len() - 1), ..st2 }, st2.loops.last().breaks)),
    }
}

/// The outcome of a block: its statements one level deeper, then its locals dropped.
pub open spec fn block_code(st: StateV, ss: Seq<Statement>, depth: usize, fd: FnCtx) -> Result<(StateV, bool), (Refusal, StateV)>
    decreases ss, 1int, 0int,
{
    let start = st.vars.len();
    match stmts_code(st, ss, deeper(depth), fd) {
        Err(x) => Err(x),
        Ok((st1, r, t)) => {
            let o = if !t {
                st1.ops.push(OpCode::Pop((st1.vars.len() - start) as usize))
            } else {
                st1.ops
            };
            Ok((StateV { ops: o, vars: st1.vars.subrange(0, start as int), ..st1 }, r))
        },
    }
}

/// The outcome of a statement list: it stops after a statement that certainly returns,
/// or after `break` or `continue`; the last flag tells whether it stopped so.
pub open spec fn stmts_code(st: StateV, ss: Seq<Statement>, depth: usize, fd: FnCtx) -> Result<(StateV, bool, bool), (Refusal, StateV)>
    decreases ss, 0int, 0int,
{
    if ss.len() == 0 {
        Ok((st, false, false))
    } else {
        match stmt_code(st, ss[0], depth, fd) {
            Err(x) => Err(x),
            Ok((st1, r)) => if r || ss[0] is Break || ss[0] is Continue {
                Ok((st1, r, true))
            } else {
                stmts_code(st1, ss.subrange(1, ss.len() as int), depth, fd)
            },
        }
    }
}

/// The outcome of a function body whose placeholder jump stands at `jump`.
pub open spec fn function_code(
    st: StateV,
    name: Seq<char>,
    data: FunctionData,
    jump: int,
    depth: usize,
    class_name: Option<String>,
) -> Result<StateV, (Refusal, StateV)>
    decreases data.block@, 2int, 0int,
{
    let this_vars = match class_name {
        Some(n) => seq![receiver(n)],
        None => seq![],
    };
    match bind_params(st.funcs, st.classes, this_vars, data.parameters@, 0) {
        Err(x) => Err((x, st)),
        Ok(fvars) => function_body_code(st, name, data, jump, depth, fvars),
    }
}

/// The outcome of a function body with locals `fvars`, once its parameters are bound.
pub open spec fn function_body_code(
    st: StateV,
    name: Seq<char>,
    data: FunctionData,
    jump: int,
    depth: usize,
    fvars: Seq<BindingV>,
) -> Result<StateV, (Refusal, StateV)>
    decreases data.block@, 1int, 2int,
{
    match block_code(
        StateV { ops: st.ops.push(OpCode::NewStack), vars: fvars, ..st },
        data.block@,
        depth,
        Some((name, data.data_type)),
    ) {
        Err((x, st2)) => Err((x, StateV { vars: st.vars, ..st2 })),
        Ok((st2, r)) => {
            let tail: Result<Seq<OpCode>, (Refusal, StateV)> = if !r {
                if !(data.data_type is Null || data.data_type is Nullable) {
                    Err((Refusal::MissingReturnStatement(name), StateV { vars: st.vars, ..st2 }))
                } else {
                    Ok(st2.ops.push(OpCode::PushConst(LiteralType::Null)).push(OpCode::PopStack).push(OpCode::Return))
                }
            } else {
                Ok(st2.ops)
            };
            match tail {
                Err(x) => Err(x),
                Ok(o) => Ok(StateV { ops: o.update(jump, OpCode::Jump(o.len() as usize)), vars: st.vars, ..st2 }),
            }
        },
    }
}

/// The outcome of a class declaration.
pub open spec fn class_code(st: StateV, name: String, block: Seq<Statement>, parent: Option<String>, depth: usize) -> Result<StateV, (Refusal, StateV)>
    decreases block, 2int, 0int,
{
    if depth != 0 {
        Err((Refusal::ClassDeclarationInsideScope(name@), st))
    } else if has(class_keys(st.classes), name@) || has(binding_keys(st.globals), name@) || has(func_keys(st.funcs), name@) {
        Err((Refusal::Shadowing(name@), st))
    } else if parent is Some && parent->0@ == name@ {
        Err((Refusal::ParentIsSelf(name@), st))
    } else {
        let id = st.classes.len() as int;
        let fresh = ClassV {
            name: name@,
            vars: seq![],
            funcs: seq![],
            vtable: seq![],
            parent: opt_name(parent),
            constructor: 0,
            id: id as usize,
        };
        match static_members(StateV { classes: st.classes.push(fresh), ..st }, name, block, 0, depth) {
            Err(x) => Err(x),
            Ok(st1) => {
                let jump = st1.ops.len() as int;
                match inherit(st1.classes, id, parent) {
                    Err(x) => Err((x, st1)),
                    Ok(cs) => constructor_code(StateV { classes: cs, ..st1 }, name, id, block, parent, depth),
                }
            },
        }
    }
}

/// The constructor of class `name` (at position `id`) and its methods, once the static
/// members are compiled and the parent's members taken over.
pub open spec fn constructor_code(
    st1: StateV,
    name: String,
    id: int,
    block: Seq<Statement>,
    parent: Option<String>,
    depth: usize,
) -> Result<StateV, (Refusal, StateV)>
    decreases block, 1int, block.len() + 1,
{
    let jump = st1.ops.len() as int;
    let cs2 = st1.classes.update(id, ClassV { constructor: (jump + 1) as usize, ..st1.classes[id] });
    let o1 = st1.ops.push(OpCode::Jump(0)).push(OpCode::NewStack);
    let o2 = match parent {
        Some(n) => match first_match(class_keys(cs2), n@) {
            Some(pk) => o1.push(OpCode::GetVar(0)).push(OpCode::Call { index: cs2[pk].constructor, parameters: 1 }).push(OpCode::Pop(1)),
            None => o1,
        },
        None => o1,
    };
    match instance_members(StateV { ops: o2, classes: cs2, ..st1 }, name, id, block, 0, depth) {
        Err(x) => Err(x),
        Ok(st2) => {
            let o3 = st2.ops.push(OpCode::GetVar(0)).push(OpCode::PopStack).push(OpCode::Return);
            Ok(StateV { ops: o3.update(jump, OpCode::Jump(o3.len() as usize)), ..st2 })
        },
    }
}

/// The static members of class `cname`, from member `k` on: globals and free functions
/// under qualified names.
pub open spec fn static_members(st: StateV, cname: String, block: Seq<Statement>, k: int, depth: usize) -> Result<StateV, (Refusal, StateV)>
    decreases block, 1int, block.len() - k,
{
    if 0 <= k < block.len() {
        match block[k] {
            Statement::Declaration { name: vn, value, data_type, is_static } => if is_static {
                let qn = qualified(cname@, vn@);
                if has(binding_keys(st.globals), qn) || has(func_keys(st.funcs), qn) {
                    Err((Refusal::Shadowing(vn@), st))
                } else {
                    match expr_code(scope(st), st.ops, value) {
                        Err((x, o)) => Err((x, StateV { ops: o, ..st })),
                        Ok((o, d)) => if !compat(st.classes, data_type, d) {
                            Err((Refusal::UnexpectedDeclarationValueType { variable: qn, expected: data_type, received: d }, StateV { ops: o, ..st }))
                        } else {
                            static_members(
                                StateV {
                                    ops: o.push(OpCode::DefineGlobal),
                                    globals: st.globals.push(BindingV { name: qn, ty: data_type }),
                                    ..st
                                },
                                cname,
                                block,
                                k + 1,
                                depth,
                            )
                        },
                    }
                }
            } else {
                static_members(st, cname, block, k + 1, depth)
            },
            Statement::Function { name: fname, data, should_override, is_static } => if is_static {
                let qn = qualified(cname@, fname@);
                if should_override {
                    Err((Refusal::UnexpectedOverride(qn), st))
                } else if has(func_keys(st.funcs), qn) || has(binding_keys(st.globals), qn) {
                    Err((Refusal::Shadowing(fname@), st))
                } else {
                    let o1 = st.ops.push(OpCode::Jump(0));
                    let f = FuncV { name: qn, index: o1.len() as usize, ret: data.data_type, params: param_types(data.parameters@) };
                    match function_code(StateV { ops: o1, funcs: st.funcs.push(f), ..st }, fname@, data, st.ops.len() as int, depth, None) {
                        Err(x) => Err(x),
                        Ok(st2) => static_members(st2, cname, block, k + 1, depth),
                    }
                }
            } else {
                static_members(st, cname, block, k + 1, depth)
            },
            _ => static_members(st, cname, block, k + 1, depth),
        }
    } else {
        Ok(st)
    }
}

/// The instance members of class `cname` (at position `id`), from member `k` on:
/// initializers in the constructor, and methods in the vtable.
pub open spec fn instance_members(st: StateV, cname: String, id: int, block: Seq<Statement>, k: int, depth: usize) -> Result<StateV, (Refusal, StateV)>
    decreases block, 1int, block.len() - k,
{
    if 0 <= k < block.len() {
        let cls = st.classes[id];
        match block[k] {
            Statement::Declaration { name: vn, value, data_type, is_static } => if !is_static {
                let qn = qualified(cname@, vn@);
                if has(binding_keys(cls.vars), vn@) || has(method_keys(cls.funcs), vn@) || has(binding_keys(st.globals), qn)
                    || has(func_keys(st.funcs), qn) {
                    Err((Refusal::Shadowing(vn@), st))
                } else {
                    let sc = Scope { globals: st.globals, vars: seq![receiver(cname)], funcs: st.funcs, classes: st.classes };
                    match expr_code(sc, st.ops.push(OpCode::GetVar(0)), value) {
                        Err((x, o)) => Err((x, StateV { ops: o, ..st })),
                        Ok((o, d)) => if !compat(st.classes, data_type, d) {
                            Err((Refusal::UnexpectedDeclarationValueType { variable: qn, expected: data_type, received: d }, StateV { ops: o, ..st }))
                        } else {
                            let cls2 = ClassV { vars: cls.vars.push(BindingV { name: vn@, ty: data_type }), ..cls };
                            instance_members(
                                StateV {
                                    ops: o.push(OpCode::SetMember(cls.vars.len() as usize)).push(OpCode::Pop(1)),
                                    classes: st.classes.update(id, cls2),
                                    ..st
                                },
                                cname,
                                id,
                                block,
                                k + 1,
                                depth,
                            )
                        },
                    }
                }
            } else {
                instance_members(st, cname, id, block, k + 1, depth)
            },
            Statement::Function { name: fname, data, should_override, is_static } => if !is_static {
                let entry = first_match(method_keys(cls.funcs), fname@);
                let overridable = match entry {
                    Some(m) => cls.funcs[m].overridable,
                    None => false,
                };
                let qn = qualified(cname@, fname@);
                if (entry is Some && (!should_override || !overridable)) || has(binding_keys(cls.vars), fname@)
                    || has(binding_keys(st.globals), qn) || has(func_keys(st.funcs), qn) {
                    Err((Refusal::Shadowing(fname@), st))
                } else if should_override && entry is None {
                    Err((Refusal::UnexpectedOverride(fname@), st))
                } else if entry is Some && ({
                    let base = cls.funcs[entry->0];
                    !compat(st.classes, base.ret, data.data_type) || !(base.params.len() == data.parameters@.len()
                        && forall|j: int| 0 <= j < base.params.len() ==> ty_eq(#[trigger] base.params[j], data.parameters@[j].0))
                }) {
                    let base = cls.funcs[entry->0];
                    Err((Refusal::UnexpectedOverrideSignature {
                        name: qn,
                        expected: (base.ret, base.params),
                        received: (data.data_type, param_types(data.parameters@)),
                    }, st))
                } else {
                    let o1 = st.ops.push(OpCode::Jump(0));
                    let entry_point = o1.len() as usize;
                    let slot: usize = match entry {
                        Some(m) => cls.funcs[m].slot,
                        None => cls.vtable.len() as usize,
                    };
                    let vtable = match entry {
                        Some(m) => cls.vtable.update(slot as int, entry_point),
                        None => cls.vtable.push(entry_point),
                    };
                    let method = MethodV {
                        name: fname@,
                        slot,
                        ret: data.data_type,
                        params: param_types(data.parameters@),
                        overridable: false,
                    };
                    let methods = match entry {
                        Some(m) => cls.funcs.update(m, method),
                        None => cls.funcs.push(method),
                    };
                    let cls2 = ClassV { vtable, funcs: methods, ..cls };
                    match function_code(
                        StateV { ops: o1, classes: st.classes.update(id, cls2), ..st },
                        fname@,
                        data,
                        st.ops.len() as int,
                        depth,
                        Some(cname),
                    ) {
                        Err(x) => Err(x),
                        Ok(st2) => instance_members(st2, cname, id, block, k + 1, depth),
                    }
                }
            } else {
                instance_members(st, cname, id, block, k + 1, depth)
            },
            _ => Err((Refusal::UnexpectedClassMember(block[k]), st)),
        }
    } else {
        Ok(st)
    }
}

/// Which statements certainly return. A `return` that compiles always does; `if`
/// without `else`, loops, expressions, `print`, declarations, `break` and `continue`
/// never do; a block does when its statements do, and `if`/`else` when both branches do.
#[verifier::spinoff_prover]
#[verifier::rlimit(100)]
pub proof fn law_certainly_returns(st: StateV, s: Statement, depth: usize, fd: FnCtx)
    requires
        stmt_code(st, s, depth, fd) is Ok,
    ensures
        s is Return ==> stmt_code(st, s, depth, fd)->Ok_0.1,
        (s is If || s is While || s is For || s is Expression || s is Print || s is Declaration || s is Function
                || s is Class || s is Break || s is Continue) ==> !stmt_code(st, s, depth, fd)->Ok_0.1,
        stmt_code(st, s, depth, fd)->Ok_0.1 ==> (s is Return || s is Block || s is IfElse),
        (s matches Statement::Block(b) ==> stmt_code(st, s, depth, fd)->Ok_0.1 == block_code(st, b@, depth, fd)->Ok_0.1),
        (s matches Statement::IfElse { condition, block1, block2 } ==> match expr_code(scope(st), st.ops, condition) {
                Ok((o1, _)) => match block_code(
                    StateV { ops: o1.push(OpCode::JumpIfFalse { index: 0, pop: true }), ..st },
                    block1@,
                    depth,
                    fd,
                ) {
                    Ok((st2, r1)) => {
                        let o3 = st2.ops.push(OpCode::Jump(0));
                        let o4 = o3.update(o1.len() as int, OpCode::JumpIfFalse { index: o3.len() as usize, pop: true });
                        match block_code(StateV { ops: o4, ..st2 }, block2@, depth, fd) {
                            Ok((_, r2)) => stmt_code(st, s, depth, fd)->Ok_0.1 == (r1 && r2),
                            Err(_) => true,
                        }
                    },
                    Err(_) => true,
                },
                Err(_) => true,
            }),
{
    if let Statement::For { initializer, condition, update, block } = s {
        if let Ok((st1, _)) = stmt_code(st, *initializer, deeper(depth), fd) {
            lemma_for_loop_flag(st1, condition, update, block@, depth, fd, st.vars.len());
        }
    }
}

proof fn lemma_for_loop_flag(
    st1: StateV,
    condition: Expression,
    update: Expression,
    block: Seq<Statement>,
    depth: usize,
    fd: FnCtx,
    outer: nat,
)
    ensures
        for_loop_code(st1, condition, update, block, depth, fd, outer) matches Ok((_, b)) ==> !b,
{
}

/// A list of statements certainly returns only when some statement of it does:
/// compiling then stops there.
pub proof fn law_statements_return(st: StateV, ss: Seq<Statement>, depth: usize, fd: FnCtx)
    requires
        stmts_code(st, ss, depth, fd) is Ok,
    ensures
        stmts_code(st, ss, depth, fd)->Ok_0.1 ==> ss.len() > 0 && stmts_code(st, ss, depth, fd)->Ok_0.2,
    decreases ss.len(),
{
    if ss.len() > 0 {
        if let Ok((st1, r)) = stmt_code(st, ss[0], depth, fd) {
            if !(r || ss[0] is Break || ss[0] is Continue) {
                law_statements_return(st1, ss.subrange(1, ss.len() as int), depth, fd);
            }
        }
    }
}

/// A block certainly returns exactly when its statements, one level deeper, do.
pub proof fn law_block_returns(st: StateV, ss: Seq<Statement>, depth: usize, fd: FnCtx)
    requires
        block_code(st, ss, depth, fd) is Ok,
    ensures
        stmts_code(st, ss, deeper(depth), fd) is Ok,
        block_code(st, ss, depth, fd)->Ok_0.1 == stmts_code(st, ss, deeper(depth), fd)->Ok_0.1,
        block_code(st, ss, depth, fd)->Ok_0.1 ==> ss.len() > 0,
{
    law_statements_return(st, ss, deeper(depth), fd);
}

/// The number of class declarations in a list of statements.
pub open spec fn class_count(ss: Seq<Statement>) -> nat
    decreases ss.len(),
{
    if ss.len() == 0 {
        0
    } else {
        class_count(ss.drop_last()) + if ss.last() is Class {
            1nat
        } else {
            0nat
        }
    }
}

/// In a `for` loop whose body starts with `continue`, that `continue` ends in a jump to
/// the position just after the entry jump that skips the update, where the update's code
/// begins; the loop's own back jump goes there too.
pub proof fn law_for_continue_target(
    st1: StateV,
    condition: Expression,
    update: Expression,
    block: Seq<Statement>,
    depth: usize,
    fd: FnCtx,
    outer: nat,
)
    requires
        block.len() > 0,
        block[0] is Continue,
        for_loop_code(st1, condition, update, block, depth, fd, outer) is Ok,
    ensures
        ({
            let ops = for_loop_code(st1, condition, update, block, depth, fd, outer)->Ok_0.0.ops;
            let update_start = st1.ops.push(OpCode::Jump(0)).len();
            &&& update_start == st1.ops.len() + 1
            &&& ops.len() >= 3
            &&& ops[ops.len() - 3] == OpCode::Jump(update_start as usize)
            &&& ops[ops.len() - 2] == OpCode::Jump(update_start as usize)
        }),
{
}

/// A loop body that starts with `continue` or `break` compiles to dropping the body's
/// locals (none yet) and a jump: to the loop's start, or a `break` jump to be patched.
proof fn lemma_loop_body_first_jump(st: StateV, block: Seq<Statement>, depth: usize, fd: FnCtx, start: usize, vars_len: usize)
    requires
        block.len() > 0,
        block[0] is Continue || block[0] is Break,
        loop_body_code(st, block, depth, fd, start, vars_len) is Ok,
    ensures
        ({
            let (st2, breaks) = loop_body_code(st, block, depth, fd, start, vars_len)->Ok_0;
            &&& st2.ops.len() == st.ops.len() + 2
            &&& st2.ops.subrange(0, st.ops.len() as int) == st.ops
            &&& block[0] is Continue ==> st2.ops[st.ops.len() + 1int] == OpCode::Jump(start) && breaks.len() == 0
            &&& block[0] is Break ==> breaks == seq![(st.ops.len() + 1) as usize]
        }),
{
    let (st2, breaks) = loop_body_code(st, block, depth, fd, start, vars_len)->Ok_0;
    assert(st2.ops.subrange(0, st.ops.len() as int) =~= st.ops);
}

/// In a `while` loop whose body starts with `continue`, that `continue` ends in a jump to
/// the first instruction of the condition, where the loop's back jump goes too.
pub proof fn law_while_continue_target(st: StateV, condition: Expression, block: Vec<Statement>, depth: usize, fd: FnCtx)
    requires
        block@.len() > 0,
        block@[0] is Continue,
        stmt_code(st, Statement::While { condition, block }, depth, fd) is Ok,
    ensures
        ({
            let ops = stmt_code(st, Statement::While { condition, block }, depth, fd)->Ok_0.0.ops;
            &&& ops.len() >= 2
            &&& ops[ops.len() - 2] == OpCode::Jump(st.ops.len() as usize)
            &&& ops[ops.len() - 1] == OpCode::Jump(st.ops.len() as usize)
        }),
{
    reveal_with_fuel(patch_breaks, 2);
    let o1 = expr_code(scope(st), st.ops, condition)->Ok_0.0;
    let st1 = StateV { ops: o1.push(OpCode::JumpIfFalse { index: 0, pop: true }), ..st };
    lemma_loop_body_first_jump(st1, block@, depth, fd, st.ops.len() as usize, st.vars.len() as usize);
}

/// Patching a single `break` rewrites just its position.
proof fn lemma_patch_one(ops: Seq<OpCode>, p: usize, target: usize)
    ensures
        patch_breaks(ops, seq![p], target) == ops.update(p as int, OpCode::Jump(target)),
{
    reveal_with_fuel(patch_breaks, 2);
    assert(seq![p].subrange(1, 1) =~= Seq::<usize>::empty());
}

/// In a `while` loop whose body starts with `break`, that `break` ends in a jump just past
/// the loop's code.
#[verifier::spinoff_prover]
#[verifier::rlimit(100)]
pub proof fn law_while_break_target(st: StateV, condition: Expression, block: Vec<Statement>, depth: usize, fd: FnCtx)
    requires
        block@.len() > 0,
        block@[0] is Break,
        stmt_code(st, Statement::While { condition, block }, depth, fd) is Ok,
        stmt_code(st, Statement::While { condition, block }, depth, fd)->Ok_0.0.ops.len() <= usize::MAX,
    ensures
        ({
            let ops = stmt_code(st, Statement::While { condition, block }, depth, fd)->Ok_0.0.ops;
            &&& ops.len() >= 2
            &&& ops[ops.len() - 2] == OpCode::Jump(ops.len() as usize)
            &&& ops[ops.len() - 1] == OpCode::Jump(st.ops.len() as usize)
        }),
{
    let o1 = expr_code(scope(st), st.ops, condition)->Ok_0.0;
    let st1 = StateV { ops: o1.push(OpCode::JumpIfFalse { index: 0, pop: true }), ..st };
    lemma_loop_body_first_jump(st1, block@, depth, fd, st.ops.len() as usize, st.vars.len() as usize);
    let (st2, breaks) = loop_body_code(st1, block@, depth, fd, st.ops.len() as usize, st.vars.len() as usize)->Ok_0;
    let o2 = st2.ops.push(OpCode::Jump(st.ops.len() as usize));
    let o3 = o2.update(o1.len() as int, OpCode::JumpIfFalse { index: o2.len() as usize, pop: true });
    lemma_patch_one(o3, breaks[0], o3.len() as usize);
    assert(breaks =~= seq![breaks[0]]);
    assert(stmt_code(st, Statement::While { condition, block }, depth, fd)->Ok_0.0.ops == patch_breaks(
        o3,
        breaks,
        o3.len() as usize,
    ));
}

/// Compiling statements below the top level leaves the class table as it was.
#[verifier::spinoff_prover]
#[verifier::rlimit(100)]
proof fn lemma_stmt_keeps_classes(st: StateV, s: Statement, depth: usize, fd: FnCtx)
    requires
        depth != 0,
    ensures
        stmt_code(st, s, depth, fd) matches Ok((st2, _)) ==> st2.classes == st.classes,
    decreases s, 1int, 0int,
{
    match s {
        Statement::Block(b) => {
            lemma_block_keeps_classes(st, b@, depth, fd);
            assert(stmt_code(st, s, depth, fd) == block_code(st, b@, depth, fd));
        },
        Statement::If { condition, block } => {
            lemma_if_keeps_classes(st, s, condition, block, depth, fd);
        },
        Statement::IfElse { condition, block1, block2 } => {
            lemma_if_else_keeps_classes(st, s, condition, block1, block2, depth, fd);
        },
        Statement::While { condition, block } => {
            lemma_while_keeps_classes(st, s, condition, block, depth, fd);
        },
        Statement::For { initializer, condition, update, block } => {
            lemma_for_stmt_keeps_classes(st, s, initializer, condition, update, block, depth, fd);
        },
        Statement::Declaration { name, value, data_type, is_static } => {
            assert(stmt_code(st, s, depth, fd) matches Ok((st2, _)) ==> st2.classes == st.classes);
        },
        Statement::Return(v) => {
            assert(stmt_code(st, s, depth, fd) matches Ok((st2, _)) ==> st2.classes == st.classes);
        },
        Statement::Expression(e) => {
            assert(stmt_code(st, s, depth, fd) matches Ok((st2, _)) ==> st2.classes == st.classes);
        },
        Statement::Print(e) => {
            assert(stmt_code(st, s, depth, fd) matches Ok((st2, _)) ==> st2.classes == st.classes);
        },
        Statement::Continue => {
            assert(stmt_code(st, s, depth, fd) matches Ok((st2, _)) ==> st2.classes == st.classes);
        },
        Statement::Break => {
            assert(stmt_code(st, s, depth, fd) matches Ok((st2, _)) ==> st2.classes == st.classes);
        },
        Statement::Function { .. } => {
            assert(stmt_code(st, s, depth, fd) matches Ok((st2, _)) ==> st2.classes == st.classes);
        },
        Statement::Class { name, block, parent } => {
            assert(class_code(st, name, block@, parent, depth) is Err);
        },
    }
}

#[verifier::spinoff_prover]
proof fn lemma_if_keeps_classes(st: StateV, s: Statement, condition: Expression, block: Vec<Statement>, depth: usize, fd: FnCtx)
    requires
        s == (Statement::If { condition, block }),
    ensures
        stmt_code(st, Statement::If { condition, block }, depth, fd) matches Ok((st2, _)) ==> st2.classes == st.classes,
    decreases s, 0int, 0int,
{
    if let Ok((o1, _)) = expr_code(scope(st), st.ops, condition) {
        lemma_block_keeps_classes(StateV { ops: o1.push(OpCode::JumpIfFalse { index: 0, pop: true }), ..st }, block@, depth, fd);
    }
}

#[verifier::spinoff_prover]
proof fn lemma_if_else_keeps_classes(
    st: StateV,
    s: Statement,
    condition: Expression,
    block1: Vec<Statement>,
    block2: Vec<Statement>,
    depth: usize,
    fd: FnCtx,
)
    requires
        s == (Statement::IfElse { condition, block1, block2 }),
    ensures
        stmt_code(st, Statement::IfElse { condition, block1, block2 }, depth, fd) matches Ok((st2, _)) ==> st2.classes
            == st.classes,
    decreases s, 0int, 0int,
{
    if let Ok((o1, _)) = expr_code(scope(st), st.ops, condition) {
        let sa = StateV { ops: o1.push(OpCode::JumpIfFalse { index: 0, pop: true }), ..st };
        lemma_block_keeps_classes(sa, block1@, depth, fd);
        if let Ok((st2, _)) = block_code(sa, block1@, depth, fd) {
            let o3 = st2.ops.push(OpCode::Jump(0));
            let o4 = o3.update(o1.len() as int, OpCode::JumpIfFalse { index: o3.len() as usize, pop: true });
            lemma_block_keeps_classes(StateV { ops: o4, ..st2 }, block2@, depth, fd);
        }
    }
}

#[verifier::spinoff_prover]
proof fn lemma_while_keeps_classes(st: StateV, s: Statement, condition: Expression, block: Vec<Statement>, depth: usize, fd: FnCtx)
    requires
        s == (Statement::While { condition, block }),
    ensures
        stmt_code(st, Statement::While { condition, block }, depth, fd) matches Ok((st2, _)) ==> st2.classes == st.classes,
    decreases s, 0int, 0int,
{
    if let Ok((o1, _)) = expr_code(scope(st), st.ops, condition) {
        let st1 = StateV { ops: o1.push(OpCode::JumpIfFalse { index: 0, pop: true }), ..st };
        lemma_loop_body_keeps_classes(st1, block@, depth, fd, st.ops.len() as usize, st.vars.len() as usize);
    }
}

#[verifier::spinoff_prover]
#[verifier::rlimit(100)]
proof fn lemma_for_stmt_keeps_classes(
    st: StateV,
    s: Statement,
    initializer: Box<Statement>,
    condition: Expression,
    update: Expression,
    block: Vec<Statement>,
    depth: usize,
    fd: FnCtx,
)
    requires
        s == (Statement::For { initializer, condition, update, block }),
        depth != 0,
    ensures
        stmt_code(st, Statement::For { initializer, condition, update, block }, depth, fd) matches Ok((st2, _))
            ==> st2.classes == st.classes,
    decreases s, 0int, 0int,
{
    lemma_stmt_keeps_classes(st, *initializer, deeper(depth), fd);
    if let Ok((st1, _)) = stmt_code(st, *initializer, deeper(depth), fd) {
        lemma_for_keeps_classes(st1, condition, update, block@, depth, fd, st.vars.len());
    }
}

proof fn lemma_stmts_keep_classes(st: StateV, ss: Seq<Statement>, depth: usize, fd: FnCtx)
    requires
        depth != 0,
    ensures
        stmts_code(st, ss, depth, fd) matches Ok((st2, _, _)) ==> st2.classes == st.classes,
    decreases ss, 0int, 0int,
{
    if ss.len() > 0 {
        lemma_stmt_keeps_classes(st, ss[0], depth, fd);
        if let Ok((st1, r)) = stmt_code(st, ss[0], depth, fd) {
            if !(r || ss[0] is Break || ss[0] is Continue) {
                lemma_stmts_keep_classes(st1, ss.subrange(1, ss.len() as int), depth, fd);
            }
        }
    }
}

proof fn lemma_block_keeps_classes(st: StateV, ss: Seq<Statement>, depth: usize, fd: FnCtx)
    ensures
        block_code(st, ss, depth, fd) matches Ok((st2, _)) ==> st2.classes == st.classes,
    decreases ss, 1int, 0int,
{
    lemma_stmts_keep_classes(st, ss, deeper(depth), fd);
}

proof fn lemma_loop_body_keeps_classes(st: StateV, block: Seq<Statement>, depth: usize, fd: FnCtx, start: usize, vars_len: usize)
    ensures
        loop_body_code(st, block, depth, fd, start, vars_len) matches Ok((st2, _)) ==> st2.classes == st.classes,
    decreases block, 1int, 1int,
{
    lemma_block_keeps_classes(StateV { loops: st.loops.push(LoopV { start, vars_len, breaks: seq![] }), ..st }, block, depth, fd);
}

proof fn lemma_for_keeps_classes(
    st1: StateV,
    condition: Expression,
    update: Expression,
    block: Seq<Statement>,
    depth: usize,
    fd: FnCtx,
    outer: nat,
)
    ensures
        for_loop_code(st1, condition, update, block, depth, fd, outer) matches Ok((st2, _)) ==> st2.classes == st1.classes,
    decreases block, 1int, 2int,
{
    let skip = st1.ops.len();
    if let Ok((o2, _)) = expr_code(scope(st1), st1.ops.push(OpCode::Jump(0)), update) {
        let o3 = o2.push(OpCode::Pop(1));
        let o4 = o3.update(skip as int, OpCode::Jump(o3.len() as usize));
        if let Ok((o5, _)) = expr_code(scope(st1), o4, condition) {
            let st3 = StateV { ops: o5.push(OpCode::JumpIfFalse { index: 0, pop: true }), ..st1 };
            lemma_loop_body_keeps_classes(st3, block, depth, fd, (skip + 1) as usize, st1.vars.len() as usize);
        }
    }
}

/// Compiling a function's body leaves the class table as it was.
proof fn lemma_function_keeps_classes(st: StateV, name: Seq<char>, data: FunctionData, jump: int, depth: usize, class_name: Option<String>)
    ensures
        function_code(st, name, data, jump, depth, class_name) matches Ok(st2) ==> st2.classes == st.classes,
{
    let this_vars = match class_name {
        Some(n) => seq![receiver(n)],
        None => seq![],
    };
    if let Ok(fvars) = bind_params(st.funcs, st.classes, this_vars, data.parameters@, 0) {
        lemma_block_keeps_classes(
            StateV { ops: st.ops.push(OpCode::NewStack), vars: fvars, ..st },
            data.block@,
            depth,
            Some((name, data.data_type)),
        );
    }
}

/// A method that overrides an inherited one keeps the inherited method's vtable slot: the
/// vtable does not grow, that slot now holds the overriding method's entry point (just
/// after the jump that skips its body), and the method keeps its slot.
#[verifier::spinoff_prover]
#[verifier::rlimit(100)]
pub proof fn law_override_keeps_slot(st: StateV, cname: String, id: int, block: Seq<Statement>, k: int, depth: usize)
    requires
        0 <= k < block.len(),
        k == block.len() - 1,
        block[k] is Function,
        !block[k]->Function_is_static,
        0 <= id < st.classes.len(),
        first_match(method_keys(st.classes[id].funcs), block[k]->Function_name@) is Some,
        forall|j: int| 0 <= j < st.classes[id].funcs.len() ==> #[trigger] st.classes[id].funcs[j].slot < st.classes[id].vtable.len(),
        instance_members(st, cname, id, block, k, depth) is Ok,
    ensures
        ({
            let cls = st.classes[id];
            let m = first_match(method_keys(cls.funcs), block[k]->Function_name@)->0;
            let slot = cls.funcs[m].slot;
            let after = instance_members(st, cname, id, block, k, depth)->Ok_0.classes[id];
            &&& after.vtable.len() == cls.vtable.len()
            &&& after.vtable[slot as int] == (st.ops.len() + 1) as usize
            &&& after.funcs[m].slot == slot
            &&& after.funcs.len() == cls.funcs.len()
        }),
{
    let cls = st.classes[id];
    if let Statement::Function { name: fname, data, should_override, is_static } = block[k] {
        let entry = first_match(method_keys(cls.funcs), fname@);
        let m = entry->0;
        assert(0 <= m < cls.funcs.len());
        let o1 = st.ops.push(OpCode::Jump(0));
        let slot = cls.funcs[m].slot;
        let vtable = cls.vtable.update(slot as int, o1.len() as usize);
        let method = MethodV { name: fname@, slot, ret: data.data_type, params: param_types(data.parameters@), overridable: false };
        let cls2 = ClassV { vtable, funcs: cls.funcs.update(m, method), ..cls };
        let st1 = StateV { ops: o1, classes: st.classes.update(id, cls2), ..st };
        lemma_function_keeps_classes(st1, fname@, data, st.ops.len() as int, depth, Some(cname));
        assert(function_code(st1, fname@, data, st.ops.len() as int, depth, Some(cname)) is Ok);
        let st2 = function_code(st1, fname@, data, st.ops.len() as int, depth, Some(cname))->Ok_0;
        assert(instance_members(st2, cname, id, block, k + 1, depth) == Ok::<StateV, (Refusal, StateV)>(st2));
        assert(instance_members(st, cname, id, block, k, depth) == Ok::<StateV, (Refusal, StateV)>(st2));
        assert(st2.classes[id] == cls2);
    }
}

/// A class that extends another takes over its parent's variables, vtable and methods,
/// each method now open to overriding and keeping its name, slot and signature; a class
/// without a parent keeps its tables.
pub proof fn law_inherit_copies_parent(cs: Seq<ClassV>, id: int, parent: Option<String>)
    requires
        0 <= id < cs.len(),
        inherit(cs, id, parent) is Ok,
    ensures
        ({
            let cs2 = inherit(cs, id, parent)->Ok_0;
            &&& cs2.len() == cs.len()
            &&& forall|k: int| 0 <= k < cs.len() && k != id ==> cs2[k] == cs[k]
            &&& cs2[id].name == cs[id].name && cs2[id].constructor == cs[id].constructor
            &&& parent is None ==> cs2 == cs
            &&& parent matches Some(n) ==> ({
                let p = cs[first_match(class_keys(cs), n@)->0];
                &&& cs2[id].vars == p.vars
                &&& cs2[id].vtable == p.vtable
                &&& cs2[id].funcs.len() == p.funcs.len()
                &&& forall|j: int| 0 <= j < p.funcs.len() ==> #[trigger] cs2[id].funcs[j].overridable && cs2[id].funcs[j].slot
                    == p.funcs[j].slot && cs2[id].funcs[j].name == p.funcs[j].name && cs2[id].funcs[j].ret == p.funcs[j].ret
                    && cs2[id].funcs[j].params == p.funcs[j].params
            })
        }),
{
}

/// A method that overrides nothing gets a new slot at the end of the vtable, holding its
/// entry point (just after the jump that skips its body).
#[verifier::spinoff_prover]
#[verifier::rlimit(100)]
pub proof fn law_new_method_appends_slot(st: StateV, cname: String, id: int, block: Seq<Statement>, k: int, depth: usize)
    requires
        0 <= k < block.len(),
        k == block.len() - 1,
        block[k] is Function,
        !block[k]->Function_is_static,
        0 <= id < st.classes.len(),
        first_match(method_keys(st.classes[id].funcs), block[k]->Function_name@) is None,
        instance_members(st, cname, id, block, k, depth) is Ok,
    ensures
        ({
            let cls = st.classes[id];
            let after = instance_members(st, cname, id, block, k, depth)->Ok_0.classes[id];
            &&& after.vtable.len() == cls.vtable.len() + 1
            &&& after.vtable[cls.vtable.len() as int] == (st.ops.len() + 1) as usize
            &&& forall|j: int| 0 <= j < cls.vtable.len() ==> #[trigger] after.vtable[j] == cls.vtable[j]
            &&& after.funcs.len() == cls.funcs.len() + 1
            &&& after.funcs[cls.funcs.len() as int].slot == cls.vtable.len() as usize
        }),
{
    let cls = st.classes[id];
    if let Statement::Function { name: fname, data, should_override, is_static } = block[k] {
        let o1 = st.ops.push(OpCode::Jump(0));
        let slot = cls.vtable.len() as usize;
        let vtable = cls.vtable.push(o1.len() as usize);
        let method = MethodV { name: fname@, slot, ret: data.data_type, params: param_types(data.parameters@), overridable: false };
        let cls2 = ClassV { vtable, funcs: cls.funcs.push(method), ..cls };
        let st1 = StateV { ops: o1, classes: st.classes.update(id, cls2), ..st };
        lemma_function_keeps_classes(st1, fname@, data, st.ops.len() as int, depth, Some(cname));
        assert(function_code(st1, fname@, data, st.ops.len() as int, depth, Some(cname)) is Ok);
        let st2 = function_code(st1, fname@, data, st.ops.len() as int, depth, Some(cname))->Ok_0;
        assert(instance_members(st2, cname, id, block, k + 1, depth) == Ok::<StateV, (Refusal, StateV)>(st2));
        assert(instance_members(st, cname, id, block, k, depth) == Ok::<StateV, (Refusal, StateV)>(st2));
        assert(st2.classes[id] == cls2);
        assert(cls2.vtable.len() == cls.vtable.len() + 1);
        assert(cls2.vtable[cls.vtable.len() as int] == (st.ops.len() + 1) as usize);
        assert(cls2.funcs[cls.funcs.len() as int].slot == cls.vtable.len() as usize);
    }
}

/// In a `for` loop whose body starts with `break`, that `break` ends in a jump to the
/// loop's closing `Pop`, which drops the loop's locals; the back jump goes to the update.
#[verifier::spinoff_prover]
#[verifier::rlimit(100)]
pub proof fn law_for_break_target(
    st1: StateV,
    condition: Expression,
    update: Expression,
    block: Seq<Statement>,
    depth: usize,
    fd: FnCtx,
    outer: nat,
)
    requires
        block.len() > 0,
        block[0] is Break,
        for_loop_code(st1, condition, update, block, depth, fd, outer) is Ok,
        for_loop_code(st1, condition, update, block, depth, fd, outer)->Ok_0.0.ops.len() <= usize::MAX,
    ensures
        ({
            let ops = for_loop_code(st1, condition, update, block, depth, fd, outer)->Ok_0.0.ops;
            &&& ops.len() >= 3
            &&& ops[ops.len() - 3] == OpCode::Jump((ops.len() - 1) as usize)
            &&& ops[ops.len() - 2] == OpCode::Jump((st1.ops.len() + 1) as usize)
            &&& ops[ops.len() - 1] is Pop
        }),
{
    let skip = st1.ops.len();
    let o2 = expr_code(scope(st1), st1.ops.push(OpCode::Jump(0)), update)->Ok_0.0;
    let o3 = o2.push(OpCode::Pop(1));
    let o4 = o3.update(skip as int, OpCode::Jump(o3.len() as usize));
    let o5 = expr_code(scope(st1), o4, condition)->Ok_0.0;
    let st3 = StateV { ops: o5.push(OpCode::JumpIfFalse { index: 0, pop: true }), ..st1 };
    lemma_loop_body_first_jump(st3, block, depth, fd, (skip + 1) as usize, st1.vars.len() as usize);
    let (st4, breaks) = loop_body_code(st3, block, depth, fd, (skip + 1) as usize, st1.vars.len() as usize)->Ok_0;
    let o6 = st4.ops.push(OpCode::Jump((skip + 1) as usize));
    let o7 = o6.update(o5.len() as int, OpCode::JumpIfFalse { index: o6.len() as usize, pop: true });
    let o8 = o7.push(OpCode::Pop((st4.vars.len() - outer) as usize));
    lemma_patch_one(o8, breaks[0], (o8.len() - 1) as usize);
    assert(breaks =~= seq![breaks[0]]);
}

/// The state before the first statement of a program.
pub open spec fn initial_state() -> StateV {
    StateV { ops: seq![], globals: seq![], vars: seq![], funcs: seq![], classes: seq![], loops: seq![] }
}

/// The code of a program and the vtable of each class, or the reason it is refused.
pub open spec fn program_code(ss: Seq<Statement>) -> Result<(Seq<OpCode>, Seq<Seq<usize>>), Refusal> {
    match stmts_code(initial_state(), ss, 0, None) {
        Err((x, _)) => Err(x),
        Ok((st, _, _)) => Ok((st.ops, st.classes.map_values(|c: ClassV| c.vtable))),
    }
}

} // verus!
