//! The stack machine that runs compiled code.
//!
//! Floating-point arithmetic and comparisons are not carried out here: when an
//! instruction needs them, `excecute` stops with `Outcome::FloatOp` and the caller
//! computes the result and hands it back with `Machine::push_result`.
use vstd::prelude::*;
use vstd::string::StrSliceExecFns;
use vstd::string::StringExecFns;
use vstd::utf8::encode_utf8;

use crate::ast::LiteralType;
use crate::compiler::ast_flattener::{CompiledData, OpCode};
use crate::compiler::semantics::{jump_target, jumps_within};

verus! {

/// The number of slots of the value stack.
pub const STACK_SIZE: usize = 1024;

/// The sign bit of an IEEE-754 double.
pub const SIGN_BIT: u64 = 0x8000_0000_0000_0000;

/// A runtime value. A float is held by its IEEE-754 bit pattern.
#[derive(Debug, Clone, PartialEq)]
pub enum Value {
    Int(i64),
    Float(u64),
    String(String),
    Bool(bool),
    Null,
}

/// A value with its string as characters.
pub enum ValueV {
    Int(i64),
    Float(u64),
    Str(Seq<char>),
    Bool(bool),
    Null,
}

impl View for Value {
    type V = ValueV;

    open spec fn view(&self) -> ValueV {
        match self {
            Value::Int(i) => ValueV::Int(*i),
            Value::Float(f) => ValueV::Float(*f),
            Value::String(s) => ValueV::Str(s@),
            Value::Bool(b) => ValueV::Bool(*b),
            Value::Null => ValueV::Null,
        }
    }
}

impl Value {
    /// A copy of the value.
    pub fn copy(&self) -> (r: Value)
        ensures
            r@ == self@,
    {
        match self {
            Value::Int(i) => Value::Int(*i),
            Value::Float(f) => Value::Float(*f),
            Value::String(s) => Value::String(s.clone()),
            Value::Bool(b) => Value::Bool(*b),
            Value::Null => Value::Null,
        }
    }
}

/// Why the machine stopped.
#[derive(Debug)]
pub enum VmError {
    StackOverflow,
    NoValueOnStack,
    TypeMismatchUnary { opcode: OpCode, operand: Value },
    TypeMismatchBinary { opcode: OpCode, left: Value, right: Value },
    TypeMismatchJump(Value),
    JumpOutOfBounds(usize),
    StackIndexOutOfBounds(usize),
    GlobalIndexOutOfBounds(usize),
    IntegerOverflow(OpCode),
    UnsupportedOpCode(OpCode),
}

pub enum VmErrorV {
    StackOverflow,
    NoValueOnStack,
    TypeMismatchUnary { opcode: OpCode, operand: ValueV },
    TypeMismatchBinary { opcode: OpCode, left: ValueV, right: ValueV },
    TypeMismatchJump(ValueV),
    JumpOutOfBounds(usize),
    StackIndexOutOfBounds(usize),
    GlobalIndexOutOfBounds(usize),
    IntegerOverflow(OpCode),
    UnsupportedOpCode(OpCode),
}

impl View for VmError {
    type V = VmErrorV;

    open spec fn view(&self) -> VmErrorV {
        match self {
            VmError::StackOverflow => VmErrorV::StackOverflow,
            VmError::NoValueOnStack => VmErrorV::NoValueOnStack,
            VmError::TypeMismatchUnary { opcode, operand } => VmErrorV::TypeMismatchUnary { opcode: *opcode, operand: operand@ },
            VmError::TypeMismatchBinary { opcode, left, right } =>
                VmErrorV::TypeMismatchBinary { opcode: *opcode, left: left@, right: right@ },
            VmError::TypeMismatchJump(v) => VmErrorV::TypeMismatchJump(v@),
            VmError::JumpOutOfBounds(i) => VmErrorV::JumpOutOfBounds(*i),
            VmError::StackIndexOutOfBounds(i) => VmErrorV::StackIndexOutOfBounds(*i),
            VmError::GlobalIndexOutOfBounds(i) => VmErrorV::GlobalIndexOutOfBounds(*i),
            VmError::IntegerOverflow(op) => VmErrorV::IntegerOverflow(*op),
            VmError::UnsupportedOpCode(op) => VmErrorV::UnsupportedOpCode(*op),
        }
    }
}

/// The machine's state: the value stack (all its slots, and how many are in use),
/// the position of the next instruction, and the globals.
pub struct MachineV {
    pub data: Seq<ValueV>,
    pub address: int,
    pub ptr: int,
    pub globals: Seq<ValueV>,
}

/// The stack with `v` pushed.
pub open spec fn push_spec(m: MachineV, v: ValueV) -> Result<MachineV, VmErrorV> {
    if m.address >= STACK_SIZE {
        Err(VmErrorV::StackOverflow)
    } else {
        Ok(MachineV { data: m.data.update(m.address, v), address: m.address + 1, ..m })
    }
}

/// The top value and the stack without it; its slot is cleared.
pub open spec fn pop_spec(m: MachineV) -> Result<(ValueV, MachineV), VmErrorV> {
    if m.address == 0 {
        Err(VmErrorV::NoValueOnStack)
    } else {
        Ok((m.data[m.address - 1], MachineV { data: m.data.update(m.address - 1, ValueV::Null), address: m.address - 1, ..m }))
    }
}

/// The stack without its top `n` values; their slots keep their contents.
pub open spec fn pop_n_spec(m: MachineV, n: usize) -> Result<MachineV, VmErrorV> {
    if m.address < n {
        Err(VmErrorV::NoValueOnStack)
    } else {
        Ok(MachineV { address: m.address - n, ..m })
    }
}

pub open spec fn peek_spec(m: MachineV) -> Result<ValueV, VmErrorV> {
    if m.address == 0 {
        Err(VmErrorV::NoValueOnStack)
    } else {
        Ok(m.data[m.address - 1])
    }
}

/// The value in slot `i` of the stack, in use or not.
pub open spec fn read_spec(m: MachineV, i: usize) -> Result<ValueV, VmErrorV> {
    if i < STACK_SIZE {
        Ok(m.data[i as int])
    } else {
        Err(VmErrorV::StackIndexOutOfBounds(i))
    }
}

pub open spec fn write_spec(m: MachineV, i: usize, v: ValueV) -> Result<MachineV, VmErrorV> {
    if i < STACK_SIZE {
        Ok(MachineV { data: m.data.update(i as int, v), ..m })
    } else {
        Err(VmErrorV::StackIndexOutOfBounds(i))
    }
}

pub open spec fn literal_value(l: LiteralType) -> ValueV {
    match l {
        LiteralType::Null => ValueV::Null,
        LiteralType::Bool(b) => ValueV::Bool(b),
        LiteralType::Int(i) => ValueV::Int(i),
        LiteralType::Float(f) => ValueV::Float(f),
        LiteralType::String(s) => ValueV::Str(s@),
    }
}

/// The result of `!` or unary `-` on a value.
pub open spec fn unary_spec(op: OpCode, a: ValueV) -> Result<ValueV, VmErrorV> {
    match (op, a) {
        (OpCode::LNot, ValueV::Bool(x)) => Ok(ValueV::Bool(!x)),
        (OpCode::Negate, ValueV::Int(x)) => if x == i64::MIN {
            Err(VmErrorV::IntegerOverflow(op))
        } else {
            Ok(ValueV::Int((-x) as i64))
        },
        (OpCode::Negate, ValueV::Float(x)) => Ok(ValueV::Float(x ^ SIGN_BIT)),
        _ => Err(VmErrorV::TypeMismatchUnary { opcode: op, operand: a }),
    }
}

/// Lexicographic order of byte strings.
pub open spec fn bytes_less(a: Seq<u8>, b: Seq<u8>) -> bool
    decreases a.len(),
{
    if a.len() == 0 {
        b.len() > 0
    } else if b.len() == 0 {
        false
    } else if a[0] != b[0] {
        a[0] < b[0]
    } else {
        bytes_less(a.subrange(1, a.len() as int), b.subrange(1, b.len() as int))
    }
}

/// The order of strings: by their UTF-8 bytes.
pub open spec fn str_less(a: Seq<char>, b: Seq<char>) -> bool {
    bytes_less(encode_utf8(a), encode_utf8(b))
}

/// Equality of values other than two floats.
pub open spec fn value_eq(a: ValueV, b: ValueV) -> bool {
    match (a, b) {
        (ValueV::Int(x), ValueV::Int(y)) => x == y,
        (ValueV::Str(x), ValueV::Str(y)) => x == y,
        (ValueV::Bool(x), ValueV::Bool(y)) => x == y,
        (ValueV::Null, ValueV::Null) => true,
        _ => false,
    }
}

/// What a binary instruction makes of its operands.
pub enum Applied {
    /// The result.
    Value(Value),
    /// Both operands are floats: the caller computes the result.
    Float { left: u64, right: u64 },
    /// The operator does not apply to these operands.
    Mismatch(Value, Value),
    /// The integer result does not fit.
    Overflow,
}

pub enum AppliedV {
    Value(ValueV),
    Float { left: u64, right: u64 },
    Mismatch(ValueV, ValueV),
    Overflow,
}

impl View for Applied {
    type V = AppliedV;

    open spec fn view(&self) -> AppliedV {
        match self {
            Applied::Value(v) => AppliedV::Value(v@),
            Applied::Float { left, right } => AppliedV::Float { left: *left, right: *right },
            Applied::Mismatch(a, b) => AppliedV::Mismatch(a@, b@),
            Applied::Overflow => AppliedV::Overflow,
        }
    }
}

pub open spec fn int_result(r: Option<i64>) -> AppliedV {
    match r {
        Some(x) => AppliedV::Value(ValueV::Int(x)),
        None => AppliedV::Overflow,
    }
}

pub open spec fn is_arith_op(op: OpCode) -> bool {
    op is Add || op is Subtract || op is Multiply || op is Divide
}

pub open spec fn is_order_op(op: OpCode) -> bool {
    op is Less || op is LessEqual || op is Greater || op is GreaterEqual
}

/// The comparison `op` of two integers.
pub open spec fn int_order(op: OpCode, x: i64, y: i64) -> bool {
    match op {
        OpCode::Less => x < y,
        OpCode::LessEqual => x <= y,
        OpCode::Greater => x > y,
        _ => x >= y,
    }
}

/// The comparison `op` of two strings.
pub open spec fn str_order(op: OpCode, x: Seq<char>, y: Seq<char>) -> bool {
    match op {
        OpCode::Less => str_less(x, y),
        OpCode::LessEqual => !str_less(y, x),
        OpCode::Greater => str_less(y, x),
        _ => !str_less(x, y),
    }
}

/// The result of a binary instruction on operands `a` (below) and `b` (on top).
pub open spec fn binary_spec(op: OpCode, a: ValueV, b: ValueV) -> AppliedV {
    match (a, b) {
        (ValueV::Int(x), ValueV::Int(y)) => match op {
            OpCode::Add => int_result(x.checked_add(y)),
            OpCode::Subtract => int_result(x.checked_sub(y)),
            OpCode::Multiply => int_result(x.checked_mul(y)),
            OpCode::Divide => if y != 0 { int_result(x.checked_div(y)) } else { AppliedV::Mismatch(a, b) },
            OpCode::Equal => AppliedV::Value(ValueV::Bool(x == y)),
            OpCode::NotEqual => AppliedV::Value(ValueV::Bool(x != y)),
            _ => if is_order_op(op) { AppliedV::Value(ValueV::Bool(int_order(op, x, y))) } else { AppliedV::Mismatch(a, b) },
        },
        (ValueV::Float(x), ValueV::Float(y)) => if is_arith_op(op) || is_order_op(op) || op is Equal || op is NotEqual {
            AppliedV::Float { left: x, right: y }
        } else {
            AppliedV::Mismatch(a, b)
        },
        (ValueV::Str(x), ValueV::Str(y)) => if op is Add {
            AppliedV::Value(ValueV::Str(x + y))
        } else if is_order_op(op) {
            AppliedV::Value(ValueV::Bool(str_order(op, x, y)))
        } else if op is Equal {
            AppliedV::Value(ValueV::Bool(x == y))
        } else if op is NotEqual {
            AppliedV::Value(ValueV::Bool(x != y))
        } else {
            AppliedV::Mismatch(a, b)
        },
        _ => if op is Equal {
            AppliedV::Value(ValueV::Bool(value_eq(a, b)))
        } else if op is NotEqual {
            AppliedV::Value(ValueV::Bool(!value_eq(a, b)))
        } else {
            AppliedV::Mismatch(a, b)
        },
    }
}

/// What an instruction leaves for the caller.
pub enum Event {
    Next,
    Print(Value),
    FloatOp { opcode: OpCode, left: u64, right: u64 },
}

pub enum EventV {
    Next,
    Print(ValueV),
    FloatOp { opcode: OpCode, left: u64, right: u64 },
}

impl View for Event {
    type V = EventV;

    open spec fn view(&self) -> EventV {
        match self {
            Event::Next => EventV::Next,
            Event::Print(v) => EventV::Print(v@),
            Event::FloatOp { opcode, left, right } => EventV::FloatOp { opcode: *opcode, left: *left, right: *right },
        }
    }
}

/// An error together with the machine as the failing instruction leaves it.
pub type Stopped = (VmErrorV, MachineV);

/// A conditional jump: the top value must be a boolean; it is popped when `pop`,
/// and the jump is taken when it equals `jump_on`. On an error nothing changes.
pub open spec fn jump_spec(m: MachineV, index: usize, jump_on: bool, pop: bool) -> Result<(MachineV, EventV), Stopped> {
    match peek_spec(m) {
        Err(e) => Err((e, m)),
        Ok(ValueV::Bool(b)) => {
            let m1 = if pop {
                MachineV { data: m.data.update(m.address - 1, ValueV::Null), address: m.address - 1, ..m }
            } else {
                m
            };
            Ok((if b == jump_on { MachineV { ptr: index as int, ..m1 } } else { m1 }, EventV::Next))
        },
        Ok(v) => Err((VmErrorV::TypeMismatchJump(v), m)),
    }
}

/// A step that ends in `r`, which leaves `m` as it is when it fails.
pub open spec fn push_next(r: Result<MachineV, VmErrorV>, m: MachineV) -> Result<(MachineV, EventV), Stopped> {
    match r {
        Err(e) => Err((e, m)),
        Ok(m2) => Ok((m2, EventV::Next)),
    }
}

/// One instruction on a machine whose instruction pointer already points past it.
/// An error comes with the machine as the instruction leaves it: operands it popped
/// before failing stay popped.
pub open spec fn step_spec(op: OpCode, m: MachineV) -> Result<(MachineV, EventV), Stopped> {
    match op {
        OpCode::LNot | OpCode::Negate => match pop_spec(m) {
            Err(e) => Err((e, m)),
            Ok((a, m1)) => match unary_spec(op, a) {
                Err(e) => Err((e, m1)),
                Ok(v) => push_next(push_spec(m1, v), m1),
            },
        },
        OpCode::Add | OpCode::Subtract | OpCode::Multiply | OpCode::Divide | OpCode::Equal | OpCode::NotEqual
        | OpCode::Less | OpCode::LessEqual | OpCode::Greater | OpCode::GreaterEqual => match pop_spec(m) {
            Err(e) => Err((e, m)),
            Ok((b, m1)) => match pop_spec(m1) {
                Err(e) => Err((e, m1)),
                Ok((a, m2)) => match binary_spec(op, a, b) {
                    AppliedV::Value(v) => push_next(push_spec(m2, v), m2),
                    AppliedV::Float { left, right } => Ok((m2, EventV::FloatOp { opcode: op, left, right })),
                    AppliedV::Mismatch(l, r) => Err((VmErrorV::TypeMismatchBinary { opcode: op, left: l, right: r }, m2)),
                    AppliedV::Overflow => Err((VmErrorV::IntegerOverflow(op), m2)),
                },
            },
        },
        OpCode::Jump(index) => Ok((MachineV { ptr: index as int, ..m }, EventV::Next)),
        OpCode::JumpIfFalse { index, pop } => jump_spec(m, index, false, pop),
        OpCode::JumpIfTrue { index, pop } => jump_spec(m, index, true, pop),
        OpCode::PushConst(l) => push_next(push_spec(m, literal_value(l)), m),
        OpCode::Pop(n) => push_next(pop_n_spec(m, n), m),
        OpCode::Print => match pop_spec(m) {
            Err(e) => Err((e, m)),
            Ok((v, m1)) => Ok((m1, EventV::Print(v))),
        },
        OpCode::GetVar(i) => match read_spec(m, i) {
            Err(e) => Err((e, m)),
            Ok(v) => push_next(push_spec(m, v), m),
        },
        OpCode::SetVar(i) => match pop_spec(m) {
            Err(e) => Err((e, m)),
            Ok((v, m1)) => push_next(write_spec(m1, i, v), m1),
        },
        OpCode::DefineGlobal => match pop_spec(m) {
            Err(e) => Err((e, m)),
            Ok((v, m1)) => Ok((MachineV { globals: m1.globals.push(v), ..m1 }, EventV::Next)),
        },
        OpCode::GetGlobal(i) => if i < m.globals.len() {
            push_next(push_spec(m, m.globals[i as int]), m)
        } else {
            Err((VmErrorV::GlobalIndexOutOfBounds(i), m))
        },
        OpCode::SetGlobal(i) => match pop_spec(m) {
            Err(e) => Err((e, m)),
            Ok((v, m1)) => if i < m1.globals.len() {
                Ok((MachineV { globals: m1.globals.update(i as int, v), ..m1 }, EventV::Next))
            } else {
                Err((VmErrorV::GlobalIndexOutOfBounds(i), m1))
            },
        },
        _ => Err((VmErrorV::UnsupportedOpCode(op), m)),
    }
}

/// Why `excecute` handed control back without an error.
pub enum Outcome {
    /// A `Print` instruction popped this value.
    Printed(Value),
    /// An instruction needs floating-point arithmetic on these operands; its result
    /// is to be pushed with `Machine::push_result`.
    FloatOp { opcode: OpCode, left: u64, right: u64 },
    /// The step budget ran out.
    Paused,
}

pub enum OutcomeV {
    Printed(ValueV),
    FloatOp { opcode: OpCode, left: u64, right: u64 },
    Paused,
}

impl View for Outcome {
    type V = OutcomeV;

    open spec fn view(&self) -> OutcomeV {
        match self {
            Outcome::Printed(v) => OutcomeV::Printed(v@),
            Outcome::FloatOp { opcode, left, right } => OutcomeV::FloatOp { opcode: *opcode, left: *left, right: *right },
            Outcome::Paused => OutcomeV::Paused,
        }
    }
}

/// Running the code from state `m` for at most `fuel` instructions, until one prints
/// or needs floating point.
pub open spec fn run_spec(ops: Seq<OpCode>, m: MachineV, fuel: nat) -> Result<(MachineV, OutcomeV), Stopped>
    decreases fuel,
{
    if fuel == 0 {
        Ok((m, OutcomeV::Paused))
    } else if !(0 <= m.ptr < ops.len()) {
        Err((VmErrorV::JumpOutOfBounds(m.ptr as usize), m))
    } else {
        match step_spec(ops[m.ptr], MachineV { ptr: m.ptr + 1, ..m }) {
            Err(x) => Err(x),
            Ok((m2, EventV::Next)) => run_spec(ops, m2, (fuel - 1) as nat),
            Ok((m2, EventV::Print(v))) => Ok((m2, OutcomeV::Printed(v))),
            Ok((m2, EventV::FloatOp { opcode, left, right })) => Ok((m2, OutcomeV::FloatOp { opcode, left, right })),
        }
    }
}

/// One instruction moves the position only where the instruction jumps.
proof fn lemma_step_moves_by_jump(op: OpCode, m: MachineV)
    ensures
        match step_spec(op, m) {
            Ok((m2, _)) => m2.ptr == m.ptr || (jump_target(op) is Some && m2.ptr == jump_target(op)->0),
            Err(_) => true,
        },
{
}

/// Code whose jumps all land within it or at its end, run from such a position, stays
/// in that range: the only `JumpOutOfBounds` it can stop on is the one at its end.
pub proof fn law_run_stays_in_code(ops: Seq<OpCode>, m: MachineV, fuel: nat)
    requires
        jumps_within(ops),
        ops.len() <= usize::MAX,
        0 <= m.ptr <= ops.len(),
    ensures
        match run_spec(ops, m, fuel) {
            Ok((m2, _)) => 0 <= m2.ptr <= ops.len(),
            Err((VmErrorV::JumpOutOfBounds(p), _)) => p == ops.len(),
            Err(_) => true,
        },
    decreases fuel,
{
    if fuel > 0 && 0 <= m.ptr < ops.len() {
        let m1 = MachineV { ptr: m.ptr + 1, ..m };
        lemma_step_moves_by_jump(ops[m.ptr], m1);
        assert(jump_target(ops[m.ptr]) is Some ==> jump_target(ops[m.ptr])->0 <= ops.len());
        match step_spec(ops[m.ptr], m1) {
            Ok((m2, EventV::Next)) => law_run_stays_in_code(ops, m2, (fuel - 1) as nat),
            _ => {},
        }
    }
}

/// Two values are of the same kind: both integers, floats, strings, booleans or null.
pub open spec fn same_kind(a: ValueV, b: ValueV) -> bool {
    (a is Int && b is Int) || (a is Float && b is Float) || (a is Str && b is Str) || (a is Bool && b is Bool) || (a is Null
        && b is Null)
}

/// `==` and `!=` compare any two values that are not both floats, by kind and contents:
/// values of different kinds are unequal. Two floats go to the caller.
pub proof fn law_equality_of_values(a: ValueV, b: ValueV)
    ensures
        !(a is Float && b is Float) ==> binary_spec(OpCode::Equal, a, b) == AppliedV::Value(ValueV::Bool(a == b)),
        !(a is Float && b is Float) ==> binary_spec(OpCode::NotEqual, a, b) == AppliedV::Value(ValueV::Bool(a != b)),
        (a is Float && b is Float) ==> binary_spec(OpCode::Equal, a, b) == (AppliedV::Float { left: a->Float_0, right: b->Float_0 }),
{
}

/// Arithmetic and ordering refuse operands of different kinds, handing both back unchanged.
pub proof fn law_mixed_operands_mismatch(op: OpCode, a: ValueV, b: ValueV)
    requires
        is_arith_op(op) || is_order_op(op),
        !same_kind(a, b),
    ensures
        binary_spec(op, a, b) == AppliedV::Mismatch(a, b),
{
}

/// A run that reaches the position just past the last instruction, with budget left,
/// ends there with `JumpOutOfBounds` of the code's length, the machine unchanged.
pub proof fn law_run_ends_past_code(ops: Seq<OpCode>, m: MachineV, fuel: nat)
    requires
        m.ptr == ops.len(),
        fuel > 0,
    ensures
        run_spec(ops, m, fuel) == Err::<(MachineV, OutcomeV), Stopped>((VmErrorV::JumpOutOfBounds(ops.len() as usize), m)),
{
}

/// The machine after a binary instruction that pops its two operands and pushes `v`.
pub open spec fn binary_after(m: MachineV, v: ValueV) -> MachineV {
    MachineV { data: m.data.update(m.address - 1, ValueV::Null).update(m.address - 2, v), address: m.address - 1, ..m }
}

/// The machine after a unary instruction that replaces its operand with `v`.
pub open spec fn unary_after(m: MachineV, v: ValueV) -> MachineV {
    MachineV { data: m.data.update(m.address - 1, v), ..m }
}

/// `!` flips a boolean; `-` negates an integer, failing only on the smallest one, and
/// flips exactly the sign bit of a float; any other operand is refused and handed back.
pub proof fn law_unary_values(op: OpCode, a: ValueV)
    requires
        op is LNot || op is Negate,
    ensures
        a is Bool && op is LNot ==> unary_spec(op, a) == Ok::<ValueV, VmErrorV>(ValueV::Bool(!a->Bool_0)),
        a is Int && op is Negate && a->Int_0 != i64::MIN ==> (unary_spec(op, a) is Ok && unary_spec(op, a)->Ok_0 is Int
            && unary_spec(op, a)->Ok_0->Int_0 + a->Int_0 == 0),
        a is Int && op is Negate && a->Int_0 == i64::MIN ==> unary_spec(op, a) == Err::<ValueV, VmErrorV>(
            VmErrorV::IntegerOverflow(op),
        ),
        a is Float && op is Negate ==> (unary_spec(op, a) is Ok && unary_spec(op, a)->Ok_0 is Float && unary_spec(op, a)->Ok_0->Float_0
            ^ a->Float_0 == 0x8000_0000_0000_0000u64),
        !(a is Bool && op is LNot) && !((a is Int || a is Float) && op is Negate) ==> unary_spec(op, a) == Err::<
            ValueV,
            VmErrorV,
        >(VmErrorV::TypeMismatchUnary { opcode: op, operand: a }),
{
    if let ValueV::Float(f) = a {
        assert((f ^ 0x8000_0000_0000_0000u64) ^ f == 0x8000_0000_0000_0000u64) by (bit_vector);
    }
}

/// On the machine, `!` replaces a boolean on top of the stack by its negation, and `-` an
/// integer by its negation.
pub proof fn law_step_unary(m: MachineV, op: OpCode)
    requires
        machine_ok(m),
        m.address >= 1,
        op is LNot || op is Negate,
    ensures
        m.data[m.address - 1] is Bool && op is LNot ==> step_spec(op, m) == Ok::<(MachineV, EventV), Stopped>(
            (unary_after(m, ValueV::Bool(!m.data[m.address - 1]->Bool_0)), EventV::Next),
        ),
        m.data[m.address - 1] is Int && op is Negate && m.data[m.address - 1]->Int_0 != i64::MIN ==> (step_spec(op, m) is Ok
            && step_spec(op, m)->Ok_0.1 is Next && step_spec(op, m)->Ok_0.0 == unary_after(
            m,
            step_spec(op, m)->Ok_0.0.data[m.address - 1],
        ) && step_spec(op, m)->Ok_0.0.data[m.address - 1] is Int && step_spec(op, m)->Ok_0.0.data[m.address - 1]->Int_0
            + m.data[m.address - 1]->Int_0 == 0),
{
    let a = m.address - 1;
    assert(m.data.update(a, ValueV::Null).update(a, m.data[a]) =~= m.data.update(a, m.data[a]));
    if let ValueV::Bool(b) = m.data[a] {
        assert(m.data.update(a, ValueV::Null).update(a, ValueV::Bool(!b)) =~= m.data.update(a, ValueV::Bool(!b)));
    }
    if let ValueV::Int(x) = m.data[a] {
        if x != i64::MIN {
            let v = ValueV::Int((-x) as i64);
            assert(m.data.update(a, ValueV::Null).update(a, v) =~= m.data.update(a, v));
        }
    }
}

/// Division of integers truncated toward zero.
pub open spec fn truncated_quotient(x: int, y: int) -> int {
    let q = (if x >= 0 { x } else { -x }) / (if y >= 0 { y } else { -y });
    if (x >= 0) == (y > 0) || x == 0 { q } else { -q }
}

/// Arithmetic on two integers gives the exact sum, difference, product or quotient
/// (truncated toward zero) when it fits in 64 bits, and an overflow otherwise; dividing by
/// zero is refused. Comparisons and equality give the mathematical relation.
pub proof fn law_integer_operations(x: i64, y: i64)
    ensures
        binary_spec(OpCode::Add, ValueV::Int(x), ValueV::Int(y)) == if i64::MIN <= x + y <= i64::MAX {
            AppliedV::Value(ValueV::Int((x + y) as i64))
        } else {
            AppliedV::Overflow
        },
        binary_spec(OpCode::Subtract, ValueV::Int(x), ValueV::Int(y)) == if i64::MIN <= x - y <= i64::MAX {
            AppliedV::Value(ValueV::Int((x - y) as i64))
        } else {
            AppliedV::Overflow
        },
        binary_spec(OpCode::Multiply, ValueV::Int(x), ValueV::Int(y)) == if i64::MIN <= x * y <= i64::MAX {
            AppliedV::Value(ValueV::Int((x * y) as i64))
        } else {
            AppliedV::Overflow
        },
        y == 0 ==> binary_spec(OpCode::Divide, ValueV::Int(x), ValueV::Int(y)) == AppliedV::Mismatch(ValueV::Int(x), ValueV::Int(y)),
        y != 0 ==> binary_spec(OpCode::Divide, ValueV::Int(x), ValueV::Int(y)) == if i64::MIN <= truncated_quotient(x as int, y as int)
            <= i64::MAX {
            AppliedV::Value(ValueV::Int(truncated_quotient(x as int, y as int) as i64))
        } else {
            AppliedV::Overflow
        },
        binary_spec(OpCode::Less, ValueV::Int(x), ValueV::Int(y)) == AppliedV::Value(ValueV::Bool(x < y)),
        binary_spec(OpCode::LessEqual, ValueV::Int(x), ValueV::Int(y)) == AppliedV::Value(ValueV::Bool(x <= y)),
        binary_spec(OpCode::Greater, ValueV::Int(x), ValueV::Int(y)) == AppliedV::Value(ValueV::Bool(x > y)),
        binary_spec(OpCode::GreaterEqual, ValueV::Int(x), ValueV::Int(y)) == AppliedV::Value(ValueV::Bool(x >= y)),
        binary_spec(OpCode::Equal, ValueV::Int(x), ValueV::Int(y)) == AppliedV::Value(ValueV::Bool(x == y)),
        binary_spec(OpCode::NotEqual, ValueV::Int(x), ValueV::Int(y)) == AppliedV::Value(ValueV::Bool(x != y)),
{
}

/// No byte string comes before itself.
proof fn lemma_bytes_less_irreflexive(a: Seq<u8>)
    ensures
        !bytes_less(a, a),
    decreases a.len(),
{
    if a.len() > 0 {
        lemma_bytes_less_irreflexive(a.subrange(1, a.len() as int));
    }
}

/// Two strings: `+` concatenates them, `==`/`!=` compare their characters, and the
/// orderings are consistent: `<` is irreflexive, `a < b` is `b > a`, and `a <= b` is
/// `!(a > b)`. Two booleans or two nulls support only equality, by value. Every
/// instruction on two floats goes to the caller with both operands.
pub proof fn law_other_operations(x: Seq<char>, y: Seq<char>, p: bool, q: bool, f: u64, g: u64, op: OpCode)
    ensures
        binary_spec(OpCode::Add, ValueV::Str(x), ValueV::Str(y)) == AppliedV::Value(ValueV::Str(x + y)),
        binary_spec(OpCode::Equal, ValueV::Str(x), ValueV::Str(y)) == AppliedV::Value(ValueV::Bool(x == y)),
        binary_spec(OpCode::NotEqual, ValueV::Str(x), ValueV::Str(y)) == AppliedV::Value(ValueV::Bool(x != y)),
        binary_spec(OpCode::Less, ValueV::Str(x), ValueV::Str(x)) == AppliedV::Value(ValueV::Bool(false)),
        binary_spec(OpCode::Less, ValueV::Str(x), ValueV::Str(y)) == binary_spec(OpCode::Greater, ValueV::Str(y), ValueV::Str(x)),
        binary_spec(OpCode::LessEqual, ValueV::Str(x), ValueV::Str(y)) matches AppliedV::Value(ValueV::Bool(le))
            && binary_spec(OpCode::Greater, ValueV::Str(x), ValueV::Str(y)) matches AppliedV::Value(ValueV::Bool(gt))
            && le == !gt,
        binary_spec(OpCode::GreaterEqual, ValueV::Str(x), ValueV::Str(y)) == binary_spec(OpCode::LessEqual, ValueV::Str(y), ValueV::Str(x)),
        (op is Subtract || op is Multiply || op is Divide) ==> binary_spec(op, ValueV::Str(x), ValueV::Str(y)) == AppliedV::Mismatch(
            ValueV::Str(x),
            ValueV::Str(y),
        ),
        binary_spec(OpCode::Equal, ValueV::Bool(p), ValueV::Bool(q)) == AppliedV::Value(ValueV::Bool(p == q)),
        binary_spec(OpCode::NotEqual, ValueV::Bool(p), ValueV::Bool(q)) == AppliedV::Value(ValueV::Bool(p != q)),
        binary_spec(OpCode::Equal, ValueV::Null, ValueV::Null) == AppliedV::Value(ValueV::Bool(true)),
        (is_arith_op(op) || is_order_op(op)) ==> binary_spec(op, ValueV::Bool(p), ValueV::Bool(q)) == AppliedV::Mismatch(
            ValueV::Bool(p),
            ValueV::Bool(q),
        ),
        (op is Add || op is Subtract || op is Multiply || op is Divide || op is Less || op is LessEqual || op is Greater
            || op is GreaterEqual || op is Equal || op is NotEqual) ==> binary_spec(op, ValueV::Float(f), ValueV::Float(g))
            == (AppliedV::Float { left: f, right: g }),
{
    lemma_bytes_less_irreflexive(encode_utf8(x));
}

/// On the machine, a comparison or arithmetic instruction on two integers pops both and
/// pushes the result: the comparison's truth, or the exact result when it fits.
pub proof fn law_step_integer_binary(m: MachineV, x: i64, y: i64)
    requires
        machine_ok(m),
        m.address >= 2,
        m.data[m.address - 2] == ValueV::Int(x),
        m.data[m.address - 1] == ValueV::Int(y),
    ensures
        step_spec(OpCode::Less, m) == Ok::<(MachineV, EventV), Stopped>((binary_after(m, ValueV::Bool(x < y)), EventV::Next)),
        step_spec(OpCode::LessEqual, m) == Ok::<(MachineV, EventV), Stopped>(
            (binary_after(m, ValueV::Bool(x <= y)), EventV::Next),
        ),
        step_spec(OpCode::Greater, m) == Ok::<(MachineV, EventV), Stopped>((binary_after(m, ValueV::Bool(x > y)), EventV::Next)),
        step_spec(OpCode::GreaterEqual, m) == Ok::<(MachineV, EventV), Stopped>(
            (binary_after(m, ValueV::Bool(x >= y)), EventV::Next),
        ),
        step_spec(OpCode::Equal, m) == Ok::<(MachineV, EventV), Stopped>((binary_after(m, ValueV::Bool(x == y)), EventV::Next)),
        i64::MIN <= x + y <= i64::MAX ==> step_spec(OpCode::Add, m) == Ok::<(MachineV, EventV), Stopped>(
            (binary_after(m, ValueV::Int((x + y) as i64)), EventV::Next),
        ),
        i64::MIN <= x - y <= i64::MAX ==> step_spec(OpCode::Subtract, m) == Ok::<(MachineV, EventV), Stopped>(
            (binary_after(m, ValueV::Int((x - y) as i64)), EventV::Next),
        ),
{
    let a = m.address;
    assert forall|v: ValueV| m.data.update(a - 1, ValueV::Null).update(a - 2, ValueV::Null).update(a - 2, v)
        =~= #[trigger] m.data.update(a - 1, ValueV::Null).update(a - 2, v) by {}
    law_integer_operations(x, y);
}

/// Conditional jumps read a boolean on top of the stack: `JumpIfFalse` jumps to its index
/// on `false` and falls through on `true`, `JumpIfTrue` the other way round; the boolean
/// is popped only when asked. `Jump` always jumps.
pub proof fn law_step_jumps(m: MachineV, index: usize, pop: bool, b: bool)
    requires
        machine_ok(m),
        m.address >= 1,
        m.data[m.address - 1] == ValueV::Bool(b),
    ensures
        ({
            let m1 = if pop {
                MachineV { data: m.data.update(m.address - 1, ValueV::Null), address: m.address - 1, ..m }
            } else {
                m
            };
            &&& step_spec(OpCode::JumpIfFalse { index, pop }, m) == Ok::<(MachineV, EventV), Stopped>((
                if !b { MachineV { ptr: index as int, ..m1 } } else { m1 },
                EventV::Next,
            ))
            &&& step_spec(OpCode::JumpIfTrue { index, pop }, m) == Ok::<(MachineV, EventV), Stopped>((
                if b { MachineV { ptr: index as int, ..m1 } } else { m1 },
                EventV::Next,
            ))
            &&& step_spec(OpCode::Jump(index), m) == Ok::<(MachineV, EventV), Stopped>((MachineV { ptr: index as int, ..m }, EventV::Next))
        }),
{
}

/// Moving values: `GetVar` pushes a copy of a stack slot, `SetVar` pops into one,
/// `DefineGlobal` pops onto the end of the globals, `GetGlobal` pushes a copy of one,
/// `SetGlobal` pops into one, `Print` pops the value it hands back, `Pop(n)` drops `n`
/// values, and `PushConst` pushes its literal's value.
pub proof fn law_step_moves(m: MachineV, i: usize, n: usize, x: i64)
    requires
        machine_ok(m),
        1 <= m.address < STACK_SIZE,
        i < STACK_SIZE,
    ensures
        step_spec(OpCode::GetVar(i), m) == Ok::<(MachineV, EventV), Stopped>((
            MachineV { data: m.data.update(m.address, m.data[i as int]), address: m.address + 1, ..m },
            EventV::Next,
        )),
        step_spec(OpCode::SetVar(i), m) == Ok::<(MachineV, EventV), Stopped>((
            MachineV {
                data: m.data.update(m.address - 1, ValueV::Null).update(i as int, m.data[m.address - 1]),
                address: m.address - 1,
                ..m
            },
            EventV::Next,
        )),
        step_spec(OpCode::DefineGlobal, m) == Ok::<(MachineV, EventV), Stopped>((
            MachineV {
                data: m.data.update(m.address - 1, ValueV::Null),
                address: m.address - 1,
                globals: m.globals.push(m.data[m.address - 1]),
                ..m
            },
            EventV::Next,
        )),
        i < m.globals.len() ==> step_spec(OpCode::GetGlobal(i), m) == Ok::<(MachineV, EventV), Stopped>((
            MachineV { data: m.data.update(m.address, m.globals[i as int]), address: m.address + 1, ..m },
            EventV::Next,
        )),
        i < m.globals.len() ==> step_spec(OpCode::SetGlobal(i), m) == Ok::<(MachineV, EventV), Stopped>((
            MachineV {
                data: m.data.update(m.address - 1, ValueV::Null),
                address: m.address - 1,
                globals: m.globals.update(i as int, m.data[m.address - 1]),
                ..m
            },
            EventV::Next,
        )),
        step_spec(OpCode::Print, m) == Ok::<(MachineV, EventV), Stopped>((
            MachineV { data: m.data.update(m.address - 1, ValueV::Null), address: m.address - 1, ..m },
            EventV::Print(m.data[m.address - 1]),
        )),
        n <= m.address ==> step_spec(OpCode::Pop(n), m) == Ok::<(MachineV, EventV), Stopped>((
            MachineV { address: m.address - n, ..m },
            EventV::Next,
        )),
        step_spec(OpCode::PushConst(LiteralType::Int(x)), m) == Ok::<(MachineV, EventV), Stopped>((
            MachineV { data: m.data.update(m.address, ValueV::Int(x)), address: m.address + 1, ..m },
            EventV::Next,
        )),
        step_spec(OpCode::PushConst(LiteralType::Null), m) == Ok::<(MachineV, EventV), Stopped>((
            MachineV { data: m.data.update(m.address, ValueV::Null), address: m.address + 1, ..m },
            EventV::Next,
        )),
{
}

/// The shape every machine has: `STACK_SIZE` slots, at most that many in use.
pub open spec fn machine_ok(m: MachineV) -> bool {
    m.data.len() == STACK_SIZE && 0 <= m.address <= STACK_SIZE
}

/// A value pushed is the value popped next; the stack is as deep as before, and the
/// slot it used is cleared.
pub proof fn law_pop_returns_pushed(m: MachineV, v: ValueV)
    requires
        machine_ok(m),
        m.address < STACK_SIZE,
    ensures
        push_spec(m, v) is Ok,
        pop_spec(push_spec(m, v)->Ok_0) == Ok::<(ValueV, MachineV), VmErrorV>(
            (v, MachineV { data: m.data.update(m.address, ValueV::Null), ..m }),
        ),
{
    assert(m.data.update(m.address, v).update(m.address, ValueV::Null) =~= m.data.update(m.address, ValueV::Null));
}

/// Running for `a` steps until the budget runs out, then for `b` more steps, is
/// running for `a + b` steps at once.
pub proof fn law_run_resumes(ops: Seq<OpCode>, m: MachineV, a: nat, b: nat)
    requires
        run_spec(ops, m, a) is Ok,
        run_spec(ops, m, a)->Ok_0.1 is Paused,
    ensures
        run_spec(ops, m, a + b) == run_spec(ops, run_spec(ops, m, a)->Ok_0.0, b),
    decreases a,
{
    if a > 0 {
        let m2 = step_spec(ops[m.ptr], MachineV { ptr: m.ptr + 1, ..m })->Ok_0.0;
        law_run_resumes(ops, m2, (a - 1) as nat, b);
        assert((a + b - 1) as nat == (a - 1) as nat + b);
    }
}

/// A run that ends before its budget does (at a print, at a floating-point instruction
/// or on an error) ends the same way with any larger budget.
pub proof fn law_run_more_fuel(ops: Seq<OpCode>, m: MachineV, a: nat, b: nat)
    requires
        !(run_spec(ops, m, a) is Ok && run_spec(ops, m, a)->Ok_0.1 is Paused),
    ensures
        run_spec(ops, m, a + b) == run_spec(ops, m, a),
    decreases a,
{
    if a > 0 && 0 <= m.ptr < ops.len() {
        match step_spec(ops[m.ptr], MachineV { ptr: m.ptr + 1, ..m }) {
            Ok((m2, EventV::Next)) => {
                law_run_more_fuel(ops, m2, (a - 1) as nat, b);
                assert((a + b - 1) as nat == (a - 1) as nat + b);
            },
            _ => {},
        }
    }
}

} // verus!
verus! {

pub open spec fn values_view(s: Seq<Value>) -> Seq<ValueV> {
    s.map_values(|v: Value| v@)
}

/// The value stack: a fixed number of slots, of which the lowest `address` are in use.
pub struct Stack {
    data: Vec<Value>,
    address: usize,
}

impl Stack {
    pub closed spec fn slots(self) -> Seq<ValueV> {
        values_view(self.data@)
    }

    pub closed spec fn used(self) -> int {
        self.address as int
    }

    /// The slots number `STACK_SIZE` and at most that many are in use.
    pub closed spec fn well_formed(self) -> bool {
        self.data@.len() == STACK_SIZE && self.address <= STACK_SIZE
    }

    /// What well-formedness says of the slots.
    pub proof fn lemma_well_formed(self)
        requires
            self.well_formed(),
        ensures
            self.slots().len() == STACK_SIZE,
            0 <= self.used() <= STACK_SIZE,
    {
    }

    /// An empty stack, every slot `Null`.
    pub fn new() -> (s: Stack)
        ensures
            s.well_formed(),
            s.slots() == Seq::new(STACK_SIZE as nat, |i: int| ValueV::Null),
            s.used() == 0,
    {
        let mut data: Vec<Value> = Vec::new();
        let mut i: usize = 0;
        while i < STACK_SIZE
            invariant
                i <= STACK_SIZE,
                data@.len() == i,
                forall|j: int| 0 <= j < i ==> #[trigger] data@[j] == Value::Null,
            decreases STACK_SIZE - i,
        {
            data.push(Value::Null);
            i = i + 1;
        }
        let s = Stack { data, address: 0 };
        assert(s.slots() =~= Seq::new(STACK_SIZE as nat, |i: int| ValueV::Null));
        s
    }

    /// Pops the top value; its slot is cleared.
    pub fn pop(&mut self) -> (r: Result<Value, VmError>)
        requires
            old(self).well_formed(),
        ensures
            final(self).well_formed(),
            old(self).used() == 0 ==> r is Err && r->Err_0@ == VmErrorV::NoValueOnStack && final(self).slots()
                == old(self).slots() && final(self).used() == old(self).used(),
            old(self).used() > 0 ==> r is Ok && r->Ok_0@ == old(self).slots()[old(self).used() - 1] && final(self).slots()
                == old(self).slots().update(old(self).used() - 1, ValueV::Null) && final(self).used() == old(self).used() - 1,
    {
        if self.address == 0 {
            return Err(VmError::NoValueOnStack);
        }
        self.address = self.address - 1;
        let ghost d0 = self.data@;
        let mut v = Value::Null;
        self.data.set_and_swap(self.address, &mut v);
        proof {
            assert(values_view(self.data@) =~= values_view(d0).update(self.address as int, ValueV::Null));
        }
        Ok(v)
    }

    /// Drops the top `n` values; their slots keep their contents.
    pub fn pop_n(&mut self, n: usize) -> (r: Result<(), VmError>)
        requires
            old(self).well_formed(),
        ensures
            final(self).well_formed(),
            final(self).slots() == old(self).slots(),
            old(self).used() < n ==> r is Err && r->Err_0@ == VmErrorV::NoValueOnStack && final(self).used() == old(self).used(),
            old(self).used() >= n ==> r is Ok && final(self).used() == old(self).used() - n,
    {
        if self.address < n {
            return Err(VmError::NoValueOnStack);
        }
        self.address = self.address - n;
        Ok(())
    }

    /// Pushes a value, unless every slot is in use.
    pub fn push(&mut self, value: Value) -> (r: Result<(), VmError>)
        requires
            old(self).well_formed(),
        ensures
            final(self).well_formed(),
            old(self).used() >= STACK_SIZE ==> r is Err && r->Err_0@ == VmErrorV::StackOverflow && final(self).slots()
                == old(self).slots() && final(self).used() == old(self).used(),
            old(self).used() < STACK_SIZE ==> r is Ok && final(self).slots() == old(self).slots().update(old(self).used(), value@)
                && final(self).used() == old(self).used() + 1,
    {
        if self.address >= self.data.len() {
            return Err(VmError::StackOverflow);
        }
        let ghost d0 = self.data@;
        self.data.set(self.address, value);
        self.address = self.address + 1;
        proof {
            assert(values_view(self.data@) =~= values_view(d0).update(self.address - 1, value@));
        }
        Ok(())
    }

    /// The top value.
    pub fn peek(&self) -> (r: Result<&Value, VmError>)
        requires
            self.well_formed(),
        ensures
            self.well_formed(),
            self.used() == 0 ==> r is Err && r->Err_0@ == VmErrorV::NoValueOnStack,
            self.used() > 0 ==> r is Ok && (*r->Ok_0)@ == self.slots()[self.used() - 1],
    {
        if self.address == 0 {
            return Err(VmError::NoValueOnStack);
        }
        Ok(&self.data[self.address - 1])
    }

    /// The value in slot `index`, in use or not.
    pub fn read(&self, index: usize) -> (r: Result<&Value, VmError>)
        requires
            self.well_formed(),
        ensures
            self.well_formed(),
            index >= STACK_SIZE ==> r is Err && r->Err_0@ == VmErrorV::StackIndexOutOfBounds(index),
            index < STACK_SIZE ==> r is Ok && (*r->Ok_0)@ == self.slots()[index as int],
    {
        if index < self.data.len() {
            return Ok(&self.data[index]);
        }
        Err(VmError::StackIndexOutOfBounds(index))
    }

    /// Overwrites slot `index`, in use or not.
    pub fn write(&mut self, index: usize, value: Value) -> (r: Result<(), VmError>)
        requires
            old(self).well_formed(),
        ensures
            final(self).well_formed(),
            final(self).used() == old(self).used(),
            index >= STACK_SIZE ==> r is Err && r->Err_0@ == VmErrorV::StackIndexOutOfBounds(index) && final(self).slots()
                == old(self).slots(),
            index < STACK_SIZE ==> r is Ok && final(self).slots() == old(self).slots().update(index as int, value@),
    {
        if index < self.data.len() {
            let ghost d0 = self.data@;
            self.data.set(index, value);
            proof {
                assert(values_view(self.data@) =~= values_view(d0).update(index as int, value@));
            }
            return Ok(());
        }
        Err(VmError::StackIndexOutOfBounds(index))
    }
}

} // verus!
verus! {

/// The machine's state seen through its parts.
pub open spec fn machine_view(stack: Stack, ptr: usize, globals: Seq<Value>) -> MachineV {
    MachineV { data: stack.slots(), address: stack.used(), ptr: ptr as int, globals: values_view(globals) }
}

/// A running machine: its stack, the position of the next instruction, and the globals.
pub struct Machine {
    stack: Stack,
    ptr: usize,
    global_vars: Vec<Value>,
}

impl View for Machine {
    type V = MachineV;

    closed spec fn view(&self) -> MachineV {
        machine_view(self.stack, self.ptr, self.global_vars@)
    }
}

impl Machine {
    pub closed spec fn well_formed(&self) -> bool {
        self.stack.well_formed()
    }

    /// A well-formed machine has the shape of every machine.
    pub proof fn lemma_machine_ok(&self)
        requires
            self.well_formed(),
        ensures
            machine_ok(self@),
    {
        self.stack.lemma_well_formed();
    }

    /// A machine at the first instruction, with an empty stack and no globals.
    pub fn new() -> (m: Machine)
        ensures
            m.well_formed(),
            m@ == (MachineV {
                data: Seq::new(STACK_SIZE as nat, |i: int| ValueV::Null),
                address: 0,
                ptr: 0,
                globals: Seq::empty(),
            }),
    {
        let m = Machine { stack: Stack::new(), ptr: 0, global_vars: Vec::new() };
        assert(values_view(m.global_vars@) =~= Seq::<ValueV>::empty());
        m
    }

    /// Pushes the result of a floating-point operation that `excecute` left to the caller.
    pub fn push_result(&mut self, value: Value) -> (r: Result<(), VmError>)
        requires
            old(self).well_formed(),
        ensures
            final(self).well_formed(),
            match push_spec(old(self)@, value@) {
                Ok(m) => r is Ok && final(self)@ == m,
                Err(e) => r is Err && r->Err_0@ == e,
            },
    {
        self.stack.push(value)
    }
}

/// The runtime value of a literal.
fn literal_to_value(l: &LiteralType) -> (r: Value)
    ensures
        r@ == literal_value(*l),
{
    match l {
        LiteralType::Null => Value::Null,
        LiteralType::Bool(b) => Value::Bool(*b),
        LiteralType::Int(i) => Value::Int(*i),
        LiteralType::Float(f) => Value::Float(*f),
        LiteralType::String(s) => Value::String(s.clone()),
    }
}

/// `!` or unary `-` applied to a value.
fn apply_unary(opcode: &OpCode, a: Value) -> (r: Result<Value, VmError>)
    ensures
        match unary_spec(*opcode, a@) {
            Ok(v) => r is Ok && r->Ok_0@ == v,
            Err(e) => r is Err && r->Err_0@ == e,
        },
{
    match (opcode, a) {
        (OpCode::LNot, Value::Bool(x)) => Ok(Value::Bool(!x)),
        (OpCode::Negate, Value::Int(x)) => {
            if x == i64::MIN {
                Err(VmError::IntegerOverflow(opcode.copy()))
            } else {
                Ok(Value::Int(-x))
            }
        },
        (OpCode::Negate, Value::Float(x)) => Ok(Value::Float(x ^ SIGN_BIT)),
        (_, a) => Err(VmError::TypeMismatchUnary { opcode: opcode.copy(), operand: a }),
    }
}

/// Whether `x` comes before `y`, comparing their UTF-8 bytes.
fn string_less(x: &String, y: &String) -> (r: bool)
    ensures
        r == str_less(x@, y@),
{
    let xb = x.as_str().as_bytes_vec();
    let yb = y.as_str().as_bytes_vec();
    let mut i: usize = 0;
    assert(xb@.subrange(0, xb@.len() as int) =~= xb@);
    assert(yb@.subrange(0, yb@.len() as int) =~= yb@);
    loop
        invariant
            xb@ == encode_utf8(x@),
            yb@ == encode_utf8(y@),
            i <= xb@.len(),
            i <= yb@.len(),
            str_less(x@, y@) == bytes_less(xb@.subrange(i as int, xb@.len() as int), yb@.subrange(i as int, yb@.len() as int)),
        decreases xb@.len() - i,
    {
        if i == xb.len() {
            return i < yb.len();
        }
        if i == yb.len() {
            return false;
        }
        if xb[i] != yb[i] {
            return xb[i] < yb[i];
        }
        proof {
            let xs = xb@.subrange(i as int, xb@.len() as int);
            let ys = yb@.subrange(i as int, yb@.len() as int);
            assert(xs.subrange(1, xs.len() as int) =~= xb@.subrange(i + 1, xb@.len() as int));
            assert(ys.subrange(1, ys.len() as int) =~= yb@.subrange(i + 1, yb@.len() as int));
        }
        i = i + 1;
    }
}

/// Equality of two values, neither being a float pair.
fn values_equal(a: &Value, b: &Value) -> (r: bool)
    ensures
        r == value_eq(a@, b@),
{
    match (a, b) {
        (Value::Int(x), Value::Int(y)) => *x == *y,
        (Value::String(x), Value::String(y)) => *x == *y,
        (Value::Bool(x), Value::Bool(y)) => *x == *y,
        (Value::Null, Value::Null) => true,
        _ => false,
    }
}

fn int_applied(r: Option<i64>) -> (a: Applied)
    ensures
        a@ == int_result(r),
{
    match r {
        Some(x) => Applied::Value(Value::Int(x)),
        None => Applied::Overflow,
    }
}

/// A binary instruction applied to `a` (below) and `b` (on top).
fn apply_binary(opcode: &OpCode, a: Value, b: Value) -> (r: Applied)
    ensures
        r@ == binary_spec(*opcode, a@, b@),
{
    let order = match opcode {
        OpCode::Less | OpCode::LessEqual | OpCode::Greater | OpCode::GreaterEqual => true,
        _ => false,
    };
    match (a, b) {
        (Value::Int(x), Value::Int(y)) => match opcode {
            OpCode::Add => int_applied(x.checked_add(y)),
            OpCode::Subtract => int_applied(x.checked_sub(y)),
            OpCode::Multiply => int_applied(x.checked_mul(y)),
            OpCode::Divide => if y != 0 {
                int_applied(x.checked_div(y))
            } else {
                Applied::Mismatch(Value::Int(x), Value::Int(y))
            },
            OpCode::Equal => Applied::Value(Value::Bool(x == y)),
            OpCode::NotEqual => Applied::Value(Value::Bool(x != y)),
            OpCode::Less => Applied::Value(Value::Bool(x < y)),
            OpCode::LessEqual => Applied::Value(Value::Bool(x <= y)),
            OpCode::Greater => Applied::Value(Value::Bool(x > y)),
            OpCode::GreaterEqual => Applied::Value(Value::Bool(x >= y)),
            _ => Applied::Mismatch(Value::Int(x), Value::Int(y)),
        },
        (Value::Float(x), Value::Float(y)) => match opcode {
            OpCode::Add | OpCode::Subtract | OpCode::Multiply | OpCode::Divide | OpCode::Less | OpCode::LessEqual
            | OpCode::Greater | OpCode::GreaterEqual | OpCode::Equal | OpCode::NotEqual => Applied::Float { left: x, right: y },
            _ => Applied::Mismatch(Value::Float(x), Value::Float(y)),
        },
        (Value::String(x), Value::String(y)) => match opcode {
            OpCode::Add => Applied::Value(Value::String(x.concat(y.as_str()))),
            OpCode::Less => Applied::Value(Value::Bool(string_less(&x, &y))),
            OpCode::LessEqual => Applied::Value(Value::Bool(!string_less(&y, &x))),
            OpCode::Greater => Applied::Value(Value::Bool(string_less(&y, &x))),
            OpCode::GreaterEqual => Applied::Value(Value::Bool(!string_less(&x, &y))),
            OpCode::Equal => Applied::Value(Value::Bool(x == y)),
            OpCode::NotEqual => Applied::Value(Value::Bool(!(x == y))),
            _ => Applied::Mismatch(Value::String(x), Value::String(y)),
        },
        (a, b) => match opcode {
            OpCode::Equal => Applied::Value(Value::Bool(values_equal(&a, &b))),
            OpCode::NotEqual => Applied::Value(Value::Bool(!values_equal(&a, &b))),
            _ => Applied::Mismatch(a, b),
        },
    }
}

} // verus!
verus! {

/// A conditional jump: the top value must be a boolean; it is popped when `pop`, and
/// the jump is taken when it equals `jump_on`.
fn jump_conditonal(stack: &mut Stack, index: usize, ptr: &mut usize, jump_on: bool, pop: bool) -> (r: Result<(), VmError>)
    requires
        old(stack).well_formed(),
    ensures
        final(stack).well_formed(),
        match jump_spec(machine_view(*old(stack), *old(ptr), Seq::empty()), index, jump_on, pop) {
            Ok((m, _)) => r is Ok && machine_view(*final(stack), *final(ptr), Seq::empty()) == m,
            Err((e, m)) => r is Err && r->Err_0@ == e && machine_view(*final(stack), *final(ptr), Seq::empty()) == m,
        },
{
    let b: bool = match stack.peek() {
        Ok(Value::Bool(b)) => *b,
        Ok(v) => return Err(VmError::TypeMismatchJump(v.copy())),
        Err(e) => return Err(e),
    };
    if pop {
        match stack.pop() {
            Ok(_) => {},
            Err(e) => return Err(e),
        }
    }
    if b == jump_on {
        *ptr = index;
    }
    Ok(())
}

/// Carries out one instruction; `ptr` already points past it.
fn excecute_opcode(opcode: &OpCode, stack: &mut Stack, ptr: &mut usize, global_vars: &mut Vec<Value>) -> (r: Result<Event, VmError>)
    requires
        old(stack).well_formed(),
    ensures
        final(stack).well_formed(),
        match step_spec(*opcode, machine_view(*old(stack), *old(ptr), old(global_vars)@)) {
            Ok((m, ev)) => r is Ok && machine_view(*final(stack), *final(ptr), final(global_vars)@) == m && r->Ok_0@ == ev,
            Err((e, m)) => r is Err && r->Err_0@ == e && machine_view(*final(stack), *final(ptr), final(global_vars)@) == m,
        },
{
    match opcode {
        OpCode::LNot | OpCode::Negate => {
            let a = stack.pop()?;
            let result = apply_unary(opcode, a)?;
            stack.push(result)?;
            Ok(Event::Next)
        },
        OpCode::Add | OpCode::Subtract | OpCode::Multiply | OpCode::Divide | OpCode::Equal | OpCode::NotEqual
        | OpCode::Less | OpCode::LessEqual | OpCode::Greater | OpCode::GreaterEqual => {
            let b = stack.pop()?;
            let a = stack.pop()?;
            match apply_binary(opcode, a, b) {
                Applied::Value(v) => {
                    stack.push(v)?;
                    Ok(Event::Next)
                },
                Applied::Float { left, right } => Ok(Event::FloatOp { opcode: opcode.copy(), left, right }),
                Applied::Mismatch(left, right) => Err(VmError::TypeMismatchBinary { opcode: opcode.copy(), left, right }),
                Applied::Overflow => Err(VmError::IntegerOverflow(opcode.copy())),
            }
        },
        OpCode::Jump(index) => {
            *ptr = *index;
            Ok(Event::Next)
        },
        OpCode::JumpIfFalse { index, pop } => {
            jump_conditonal(stack, *index, ptr, false, *pop)?;
            Ok(Event::Next)
        },
        OpCode::JumpIfTrue { index, pop } => {
            jump_conditonal(stack, *index, ptr, true, *pop)?;
            Ok(Event::Next)
        },
        OpCode::PushConst(lt) => {
            stack.push(literal_to_value(lt))?;
            Ok(Event::Next)
        },
        OpCode::Pop(n) => {
            stack.pop_n(*n)?;
            Ok(Event::Next)
        },
        OpCode::Print => {
            let v = stack.pop()?;
            Ok(Event::Print(v))
        },
        OpCode::GetVar(i) => {
            let v = stack.read(*i)?.copy();
            stack.push(v)?;
            Ok(Event::Next)
        },
        OpCode::SetVar(i) => {
            let v = stack.pop()?;
            stack.write(*i, v)?;
            Ok(Event::Next)
        },
        OpCode::DefineGlobal => {
            let v = stack.pop()?;
            let ghost g0 = global_vars@;
            global_vars.push(v);
            proof {
                assert(values_view(global_vars@) =~= values_view(g0).push(v@));
            }
            Ok(Event::Next)
        },
        OpCode::GetGlobal(i) => {
            if *i < global_vars.len() {
                let v = global_vars[*i].copy();
                stack.push(v)?;
                Ok(Event::Next)
            } else {
                Err(VmError::GlobalIndexOutOfBounds(*i))
            }
        },
        OpCode::SetGlobal(i) => {
            let v = stack.pop()?;
            if *i < global_vars.len() {
                let ghost g0 = global_vars@;
                global_vars.set(*i, v);
                proof {
                    assert(values_view(global_vars@) =~= values_view(g0).update(*i as int, v@));
                }
                Ok(Event::Next)
            } else {
                Err(VmError::GlobalIndexOutOfBounds(*i))
            }
        },
        _ => Err(VmError::UnsupportedOpCode(opcode.copy())),
    }
}

/// Runs the compiled code on `machine` for at most `fuel` instructions. It stops early,
/// without error, at a `Print` (handing back the value to print) or at an instruction
/// that needs floating-point arithmetic (whose result the caller pushes); running past
/// the end of the code is the error `JumpOutOfBounds`. On an error the machine is left as
/// the failing instruction left it, its position already past that instruction.
pub fn excecute(data: &CompiledData, machine: &mut Machine, fuel: usize) -> (r: Result<Outcome, VmError>)
    requires
        old(machine).well_formed(),
    ensures
        final(machine).well_formed(),
        match run_spec(data.opcodes@, old(machine)@, fuel as nat) {
            Ok((m, o)) => r is Ok && final(machine)@ == m && r->Ok_0@ == o,
            Err((e, m)) => r is Err && r->Err_0@ == e && final(machine)@ == m,
        },
{
    let ghost m0 = machine@;
    let mut remaining: usize = fuel;
    loop
        invariant
            m0 == old(machine)@,
            machine.well_formed(),
            run_spec(data.opcodes@, m0, fuel as nat) == run_spec(data.opcodes@, machine@, remaining as nat),
        decreases remaining,
    {
        if remaining == 0 {
            return Ok(Outcome::Paused);
        }
        let ptr = machine.ptr;
        if ptr >= data.opcodes.len() {
            return Err(VmError::JumpOutOfBounds(ptr));
        }
        let opcode: &OpCode = &data.opcodes[ptr];
        machine.ptr = ptr + 1;
        let event = excecute_opcode(opcode, &mut machine.stack, &mut machine.ptr, &mut machine.global_vars)?;
        match event {
            Event::Next => {},
            Event::Print(v) => return Ok(Outcome::Printed(v)),
            Event::FloatOp { opcode, left, right } => return Ok(Outcome::FloatOp { opcode, left, right }),
        }
        remaining = remaining - 1;
    }
}

} // verus!
