//! The syntax tree that the compiler takes as input.
use vstd::prelude::*;

verus! {

/// The static type of a value.
#[derive(Debug, PartialEq)]
pub enum DataType {
    Int,
    Float,
    Bool,
    String,
    Null,
    Nullable(Box<DataType>),
    Instance(String),
}

/// A literal in the source. A float is held by its IEEE-754 bit pattern.
#[derive(Debug, Clone, PartialEq)]
pub enum LiteralType {
    Bool(bool),
    Int(i64),
    Float(u64),
    String(String),
    Null,
}

#[derive(Debug, Clone, Copy, PartialEq, Eq, Structural)]
pub enum UnaryOp {
    LNot,
    Negate,
}

#[derive(Debug, Clone, Copy, PartialEq, Eq, Structural)]
pub enum BinaryOp {
    Add,
    Subtract,
    Multiply,
    Divide,
    Equal,
    NotEqual,
    Less,
    LessEqual,
    Greater,
    GreaterEqual,
    LAnd,
    LOr,
}

#[derive(Debug, PartialEq)]
pub enum Expression {
    Unary { operator: UnaryOp, right: Box<Expression> },
    Binary { left: Box<Expression>, operator: BinaryOp, right: Box<Expression> },
    Assignment { target: Box<Expression>, value: Box<Expression> },
    Literal(LiteralType),
    Call { callee: Box<Expression>, parameters: Vec<Expression> },
    MemberAccess { class: Box<Expression>, member: String },
    Variable(String),
}

/// Signature and body of a function or method.
#[derive(Debug, PartialEq)]
pub struct FunctionData {
    pub data_type: DataType,
    pub parameters: Vec<(DataType, String)>,
    pub block: Vec<Statement>,
}

#[derive(Debug, PartialEq)]
pub enum Statement {
    Block(Vec<Statement>),
    Expression(Expression),
    If { condition: Expression, block: Vec<Statement> },
    IfElse { condition: Expression, block1: Vec<Statement>, block2: Vec<Statement> },
    Return(Option<Expression>),
    Continue,
    Break,
    While { condition: Expression, block: Vec<Statement> },
    For { initializer: Box<Statement>, condition: Expression, update: Expression, block: Vec<Statement> },
    Print(Expression),
    Declaration { name: String, value: Expression, data_type: DataType, is_static: bool },
    Function { name: String, data: FunctionData, should_override: bool, is_static: bool },
    Class { name: String, block: Vec<Statement>, parent: Option<String> },
}

/// Equality of types, class names compared by their characters.
pub open spec fn ty_eq(a: DataType, b: DataType) -> bool
    decreases a,
{
    match (a, b) {
        (DataType::Int, DataType::Int) => true,
        (DataType::Float, DataType::Float) => true,
        (DataType::Bool, DataType::Bool) => true,
        (DataType::String, DataType::String) => true,
        (DataType::Null, DataType::Null) => true,
        (DataType::Nullable(x), DataType::Nullable(y)) => ty_eq(*x, *y),
        (DataType::Instance(x), DataType::Instance(y)) => x@ == y@,
        _ => false,
    }
}

/// Every type equals itself.
pub proof fn lemma_ty_eq_refl(a: DataType)
    ensures
        ty_eq(a, a),
    decreases a,
{
    if let DataType::Nullable(x) = a {
        lemma_ty_eq_refl(*x);
    }
}

/// Equality of literals, strings compared by their characters.
pub open spec fn lit_eq(a: LiteralType, b: LiteralType) -> bool {
    match (a, b) {
        (LiteralType::Bool(x), LiteralType::Bool(y)) => x == y,
        (LiteralType::Int(x), LiteralType::Int(y)) => x == y,
        (LiteralType::Float(x), LiteralType::Float(y)) => x == y,
        (LiteralType::String(x), LiteralType::String(y)) => x@ == y@,
        (LiteralType::Null, LiteralType::Null) => true,
        _ => false,
    }
}

/// Equality of expressions, names and strings compared by their characters.
pub open spec fn expr_eq(a: Expression, b: Expression) -> bool
    decreases a,
{
    match (a, b) {
        (Expression::Unary { operator: o1, right: r1 }, Expression::Unary { operator: o2, right: r2 }) =>
            o1 == o2 && expr_eq(*r1, *r2),
        (
            Expression::Binary { left: l1, operator: o1, right: r1 },
            Expression::Binary { left: l2, operator: o2, right: r2 },
        ) => expr_eq(*l1, *l2) && o1 == o2 && expr_eq(*r1, *r2),
        (
            Expression::Assignment { target: t1, value: v1 },
            Expression::Assignment { target: t2, value: v2 },
        ) => expr_eq(*t1, *t2) && expr_eq(*v1, *v2),
        (Expression::Literal(x), Expression::Literal(y)) => lit_eq(x, y),
        (Expression::Call { callee: c1, parameters: p1 }, Expression::Call { callee: c2, parameters: p2 }) =>
            expr_eq(*c1, *c2) && exprs_eq(p1@, p2@),
        (
            Expression::MemberAccess { class: c1, member: m1 },
            Expression::MemberAccess { class: c2, member: m2 },
        ) => expr_eq(*c1, *c2) && m1@ == m2@,
        (Expression::Variable(x), Expression::Variable(y)) => x@ == y@,
        _ => false,
    }
}

/// Equality of expression lists, element by element.
pub open spec fn exprs_eq(a: Seq<Expression>, b: Seq<Expression>) -> bool
    decreases a,
{
    a.len() == b.len() && (a.len() == 0 || (
        exprs_eq(a.subrange(0, a.len() - 1), b.subrange(0, b.len() - 1))
        && expr_eq(a[a.len() - 1], b[b.len() - 1])))
}

pub open spec fn opt_expr_eq(a: Option<Expression>, b: Option<Expression>) -> bool {
    match (a, b) {
        (Some(x), Some(y)) => expr_eq(x, y),
        (None, None) => true,
        _ => false,
    }
}

/// Equality of statement lists, element by element.
pub open spec fn stmts_eq(a: Seq<Statement>, b: Seq<Statement>) -> bool
    decreases a, 1nat,
{
    a.len() == b.len() && (a.len() == 0 || (
        stmts_eq(a.subrange(0, a.len() - 1), b.subrange(0, b.len() - 1))
        && stmt_eq(a[a.len() - 1], b[b.len() - 1])))
}

/// Equality of parameter lists: types and names.
pub open spec fn params_eq(a: Seq<(DataType, String)>, b: Seq<(DataType, String)>) -> bool {
    &&& a.len() == b.len()
    &&& forall|i: int| 0 <= i < a.len() ==> ty_eq(#[trigger] a[i].0, b[i].0) && a[i].1@ == b[i].1@
}

/// Equality of function signatures and bodies.
pub open spec fn fdata_eq(a: FunctionData, b: FunctionData) -> bool
    decreases a.block@, 2nat,
{
    &&& ty_eq(a.data_type, b.data_type)
    &&& params_eq(a.parameters@, b.parameters@)
    &&& stmts_eq(a.block@, b.block@)
}

/// Equality of statements, names and strings compared by their characters.
pub open spec fn stmt_eq(a: Statement, b: Statement) -> bool
    decreases a, 0nat,
{
    match (a, b) {
        (Statement::Block(x), Statement::Block(y)) => stmts_eq(x@, y@),
        (Statement::Expression(x), Statement::Expression(y)) => expr_eq(x, y),
        (Statement::If { condition: c1, block: b1 }, Statement::If { condition: c2, block: b2 }) =>
            expr_eq(c1, c2) && stmts_eq(b1@, b2@),
        (
            Statement::IfElse { condition: c1, block1: x1, block2: y1 },
            Statement::IfElse { condition: c2, block1: x2, block2: y2 },
        ) => expr_eq(c1, c2) && stmts_eq(x1@, x2@) && stmts_eq(y1@, y2@),
        (Statement::Return(x), Statement::Return(y)) => opt_expr_eq(x, y),
        (Statement::Continue, Statement::Continue) => true,
        (Statement::Break, Statement::Break) => true,
        (Statement::While { condition: c1, block: b1 }, Statement::While { condition: c2, block: b2 }) =>
            expr_eq(c1, c2) && stmts_eq(b1@, b2@),
        (
            Statement::For { initializer: i1, condition: c1, update: u1, block: b1 },
            Statement::For { initializer: i2, condition: c2, update: u2, block: b2 },
        ) => stmt_eq(*i1, *i2) && expr_eq(c1, c2) && expr_eq(u1, u2) && stmts_eq(b1@, b2@),
        (Statement::Print(x), Statement::Print(y)) => expr_eq(x, y),
        (
            Statement::Declaration { name: n1, value: v1, data_type: d1, is_static: s1 },
            Statement::Declaration { name: n2, value: v2, data_type: d2, is_static: s2 },
        ) => n1@ == n2@ && expr_eq(v1, v2) && ty_eq(d1, d2) && s1 == s2,
        (
            Statement::Function { name: n1, data: f1, should_override: o1, is_static: s1 },
            Statement::Function { name: n2, data: f2, should_override: o2, is_static: s2 },
        ) => n1@ == n2@ && fdata_eq(f1, f2) && o1 == o2 && s1 == s2,
        (
            Statement::Class { name: n1, block: b1, parent: p1 },
            Statement::Class { name: n2, block: b2, parent: p2 },
        ) => n1@ == n2@ && stmts_eq(b1@, b2@) && match (p1, p2) {
            (Some(x), Some(y)) => x@ == y@,
            (None, None) => true,
            _ => false,
        },
        _ => false,
    }
}

/// The number of nodes of an expression.
pub open spec fn expr_size(e: Expression) -> nat
    decreases e,
{
    match e {
        Expression::Unary { operator, right } => 1 + expr_size(*right),
        Expression::Binary { left, operator, right } => 1 + expr_size(*left) + expr_size(*right),
        Expression::Assignment { target, value } => 1 + expr_size(*target) + expr_size(*value),
        Expression::Literal(_) => 1,
        Expression::Call { callee, parameters } => 1 + expr_size(*callee) + exprs_size(parameters@),
        Expression::MemberAccess { class, member } => 1 + expr_size(*class),
        Expression::Variable(_) => 1,
    }
}

/// The number of nodes of a list of expressions.
pub open spec fn exprs_size(es: Seq<Expression>) -> nat
    decreases es,
{
    if es.len() == 0 {
        0
    } else {
        exprs_size(es.subrange(0, es.len() - 1)) + expr_size(es[es.len() - 1])
    }
}

/// An expression has at least one node.
pub proof fn lemma_expr_size_pos(e: Expression)
    ensures
        expr_size(e) >= 1,
{
}

/// An element of a list is no larger than the list.
pub proof fn lemma_exprs_size(es: Seq<Expression>, i: int)
    requires
        0 <= i < es.len(),
    ensures
        expr_size(es[i]) <= exprs_size(es),
    decreases es.len(),
{
    if i < es.len() - 1 {
        lemma_exprs_size(es.subrange(0, es.len() - 1), i);
    }
}

/// Every assignment in the expression assigns to a variable or to a member.
pub open spec fn expr_targets_ok(e: Expression) -> bool
    decreases e,
{
    match e {
        Expression::Unary { operator, right } => expr_targets_ok(*right),
        Expression::Binary { left, operator, right } => expr_targets_ok(*left) && expr_targets_ok(*right),
        Expression::Assignment { target, value } => {
            &&& ((*target) is Variable || (*target) is MemberAccess)
            &&& expr_targets_ok(*target)
            &&& expr_targets_ok(*value)
        },
        Expression::Literal(_) => true,
        Expression::Call { callee, parameters } => expr_targets_ok(*callee) && exprs_targets_ok(parameters@),
        Expression::MemberAccess { class, member } => expr_targets_ok(*class),
        Expression::Variable(_) => true,
    }
}

/// Every expression of the list has only well-formed assignments.
pub open spec fn exprs_targets_ok(es: Seq<Expression>) -> bool
    decreases es,
{
    es.len() == 0 || (exprs_targets_ok(es.subrange(0, es.len() - 1)) && expr_targets_ok(es[es.len() - 1]))
}

/// Every statement of the list has only well-formed assignments.
pub open spec fn stmts_targets_ok(ss: Seq<Statement>) -> bool
    decreases ss, 1nat,
{
    ss.len() == 0 || (stmts_targets_ok(ss.subrange(0, ss.len() - 1)) && stmt_targets_ok(ss[ss.len() - 1]))
}

/// Every assignment in the statement assigns to a variable or to a member.
pub open spec fn stmt_targets_ok(s: Statement) -> bool
    decreases s, 0nat,
{
    match s {
        Statement::Block(b) => stmts_targets_ok(b@),
        Statement::Expression(e) => expr_targets_ok(e),
        Statement::If { condition, block } => expr_targets_ok(condition) && stmts_targets_ok(block@),
        Statement::IfElse { condition, block1, block2 } =>
            expr_targets_ok(condition) && stmts_targets_ok(block1@) && stmts_targets_ok(block2@),
        Statement::Return(e) => match e {
            Some(x) => expr_targets_ok(x),
            None => true,
        },
        Statement::Continue => true,
        Statement::Break => true,
        Statement::While { condition, block } => expr_targets_ok(condition) && stmts_targets_ok(block@),
        Statement::For { initializer, condition, update, block } =>
            stmt_targets_ok(*initializer) && expr_targets_ok(condition) && expr_targets_ok(update)
                && stmts_targets_ok(block@),
        Statement::Print(e) => expr_targets_ok(e),
        Statement::Declaration { name, value, data_type, is_static } => expr_targets_ok(value),
        Statement::Function { name, data, should_override, is_static } => stmts_targets_ok(data.block@),
        Statement::Class { name, block, parent } => stmts_targets_ok(block@),
    }
}

/// An element of a list of well-formed expressions is well formed.
pub proof fn lemma_exprs_targets_ok(es: Seq<Expression>, i: int)
    requires
        exprs_targets_ok(es),
        0 <= i < es.len(),
    ensures
        expr_targets_ok(es[i]),
    decreases es.len(),
{
    if i < es.len() - 1 {
        lemma_exprs_targets_ok(es.subrange(0, es.len() - 1), i);
    }
}

/// An element of a list of well-formed statements is well formed.
pub proof fn lemma_stmts_targets_ok(ss: Seq<Statement>, i: int)
    requires
        stmts_targets_ok(ss),
        0 <= i < ss.len(),
    ensures
        stmt_targets_ok(ss[i]),
    decreases ss.len(),
{
    if i < ss.len() - 1 {
        lemma_stmts_targets_ok(ss.subrange(0, ss.len() - 1), i);
    }
}

impl DataType {
    /// A copy of the type.
    pub fn copy(&self) -> (r: DataType)
        ensures
            r == *self,
        decreases self,
    {
        match self {
            DataType::Int => DataType::Int,
            DataType::Float => DataType::Float,
            DataType::Bool => DataType::Bool,
            DataType::String => DataType::String,
            DataType::Null => DataType::Null,
            DataType::Nullable(inner) => DataType::Nullable(Box::new(inner.copy())),
            DataType::Instance(name) => DataType::Instance(name.clone()),
        }
    }

    /// Whether the two types are equal.
    pub fn same_as(&self, other: &DataType) -> (r: bool)
        ensures
            r == ty_eq(*self, *other),
        decreases self,
    {
        match (self, other) {
            (DataType::Int, DataType::Int) => true,
            (DataType::Float, DataType::Float) => true,
            (DataType::Bool, DataType::Bool) => true,
            (DataType::String, DataType::String) => true,
            (DataType::Null, DataType::Null) => true,
            (DataType::Nullable(x), DataType::Nullable(y)) => x.same_as(&**y),
            (DataType::Instance(x), DataType::Instance(y)) => *x == *y,
            _ => false,
        }
    }
}

impl LiteralType {
    /// A copy of the literal.
    pub fn copy(&self) -> (r: LiteralType)
        ensures
            r == *self,
    {
        match self {
            LiteralType::Bool(b) => LiteralType::Bool(*b),
            LiteralType::Int(i) => LiteralType::Int(*i),
            LiteralType::Float(f) => LiteralType::Float(*f),
            LiteralType::String(s) => LiteralType::String(s.clone()),
            LiteralType::Null => LiteralType::Null,
        }
    }
}

impl Expression {
    /// A copy of the expression.
    pub fn copy(&self) -> (r: Expression)
        ensures
            expr_eq(r, *self),
        decreases self,
    {
        match self {
            Expression::Unary { operator, right } =>
                Expression::Unary { operator: *operator, right: Box::new(right.copy()) },
            Expression::Binary { left, operator, right } => Expression::Binary {
                left: Box::new(left.copy()),
                operator: *operator,
                right: Box::new(right.copy()),
            },
            Expression::Assignment { target, value } => Expression::Assignment {
                target: Box::new(target.copy()),
                value: Box::new(value.copy()),
            },
            Expression::Literal(l) => Expression::Literal(l.copy()),
            Expression::Call { callee, parameters } => {
                let c = callee.copy();
                let mut ps: Vec<Expression> = Vec::new();
                let mut i: usize = 0;
                while i < parameters.len()
                    invariant
                        *self == (Expression::Call { callee: *callee, parameters: *parameters }),
                        i <= parameters@.len(),
                        exprs_eq(ps@, parameters@.subrange(0, i as int)),
                    decreases parameters@.len() - i,
                {
                    proof {
                        assert(decreases_to!(*self => (*self)->Call_parameters));
                    }
                    let x = parameters[i].copy();
                    let ghost old_ps = ps@;
                    ps.push(x);
                    proof {
                        assert(ps@.subrange(0, ps@.len() - 1) =~= old_ps);
                        assert(parameters@.subrange(0, i + 1).subrange(0, i as int) =~= parameters@.subrange(0, i as int));
                    }
                    i = i + 1;
                }
                assert(parameters@.subrange(0, i as int) =~= parameters@);
                Expression::Call { callee: Box::new(c), parameters: ps }
            },
            Expression::MemberAccess { class, member } =>
                Expression::MemberAccess { class: Box::new(class.copy()), member: member.clone() },
            Expression::Variable(name) => Expression::Variable(name.clone()),
        }
    }
}

/// A copy of a list of statements.
pub fn copy_statements(ss: &Vec<Statement>) -> (r: Vec<Statement>)
    ensures
        stmts_eq(r@, ss@),
    decreases ss@, 1nat,
{
    let mut out: Vec<Statement> = Vec::new();
    let mut i: usize = 0;
    while i < ss.len()
        invariant
            i <= ss@.len(),
            stmts_eq(out@, ss@.subrange(0, i as int)),
        decreases ss@.len() - i,
    {
        let x = ss[i].copy();
        let ghost old_out = out@;
        out.push(x);
        proof {
            assert(out@.subrange(0, out@.len() - 1) =~= old_out);
            assert(ss@.subrange(0, i + 1).subrange(0, i as int) =~= ss@.subrange(0, i as int));
        }
        i = i + 1;
    }
    assert(ss@.subrange(0, i as int) =~= ss@);
    out
}

impl FunctionData {
    /// A copy of the signature and body.
    pub fn copy(&self) -> (r: FunctionData)
        ensures
            fdata_eq(r, *self),
        decreases self.block@, 2nat,
    {
        let mut params: Vec<(DataType, String)> = Vec::new();
        let mut i: usize = 0;
        while i < self.parameters.len()
            invariant
                i <= self.parameters@.len(),
                params@.len() == i,
                forall|j: int| 0 <= j < i ==> #[trigger] params@[j] == self.parameters@[j],
            decreases self.parameters@.len() - i,
        {
            let p = &self.parameters[i];
            params.push((p.0.copy(), p.1.clone()));
            i = i + 1;
        }
        let block = copy_statements(&self.block);
        proof {
            lemma_ty_eq_refl(self.data_type);
            assert forall|j: int| 0 <= j < params@.len() implies
                ty_eq(#[trigger] params@[j].0, self.parameters@[j].0) && params@[j].1@ == self.parameters@[j].1@ by {
                lemma_ty_eq_refl(self.parameters@[j].0);
            }
        }
        FunctionData { data_type: self.data_type.copy(), parameters: params, block }
    }
}

impl Statement {
    /// A copy of the statement.
    pub fn copy(&self) -> (r: Statement)
        ensures
            stmt_eq(r, *self),
        decreases self, 0nat,
    {
        match self {
            Statement::Block(b) => Statement::Block(copy_statements(b)),
            Statement::Expression(e) => Statement::Expression(e.copy()),
            Statement::If { condition, block } =>
                Statement::If { condition: condition.copy(), block: copy_statements(block) },
            Statement::IfElse { condition, block1, block2 } => Statement::IfElse {
                condition: condition.copy(),
                block1: copy_statements(block1),
                block2: copy_statements(block2),
            },
            Statement::Return(e) => match e {
                Some(x) => Statement::Return(Some(x.copy())),
                None => Statement::Return(None),
            },
            Statement::Continue => Statement::Continue,
            Statement::Break => Statement::Break,
            Statement::While { condition, block } =>
                Statement::While { condition: condition.copy(), block: copy_statements(block) },
            Statement::For { initializer, condition, update, block } => Statement::For {
                initializer: Box::new(initializer.copy()),
                condition: condition.copy(),
                update: update.copy(),
                block: copy_statements(block),
            },
            Statement::Print(e) => Statement::Print(e.copy()),
            Statement::Declaration { name, value, data_type, is_static } => {
                proof { lemma_ty_eq_refl(*data_type); }
                Statement::Declaration {
                name: name.clone(),
                value: value.copy(),
                data_type: data_type.copy(),
                is_static: *is_static,
            }},
            Statement::Function { name, data, should_override, is_static } => Statement::Function {
                name: name.clone(),
                data: data.copy(),
                should_override: *should_override,
                is_static: *is_static,
            },
            Statement::Class { name, block, parent } => Statement::Class {
                name: name.clone(),
                block: copy_statements(block),
                parent: match parent {
                    Some(p) => Some(p.clone()),
                    None => None,
                },
            },
        }
    }
}

} // verus!
