//! Type compatibility, subclassing, and the result types of binary operators.
use vstd::prelude::*;

use crate::ast::{lemma_ty_eq_refl, ty_eq, BinaryOp, DataType};
use crate::compiler::tables::{
    class_keys, classes_view, find_first, first_match, lemma_class_keys, ClassData, ClassV,
};

verus! {

/// Walking up the parent links from the class at position `k`, at most `fuel` of them,
/// some ancestor is named `target`. A parent is looked up by name wherever it stands.
pub open spec fn ancestor_within(cs: Seq<ClassV>, k: int, target: Seq<char>, fuel: nat) -> bool
    decreases fuel,
{
    if fuel > 0 && 0 <= k < cs.len() {
        match cs[k].parent {
            None => false,
            Some(p) => if p == target {
                true
            } else {
                match first_match(class_keys(cs), p) {
                    Some(j) => ancestor_within(cs, j, target, (fuel - 1) as nat),
                    None => false,
                }
            },
        }
    } else {
        false
    }
}

/// The class `child` is `parent` or inherits from it. The walk up the parent links takes
/// at most as many steps as there are classes, which reaches the root of every chain
/// that visits no class twice.
pub open spec fn subclass(cs: Seq<ClassV>, child: Seq<char>, parent: Seq<char>) -> bool {
    child == parent || match first_match(class_keys(cs), child) {
        Some(k) => ancestor_within(cs, k, parent, cs.len()),
        None => false,
    }
}

/// A value of type `received` may stand where `expected` is declared.
pub open spec fn compat(cs: Seq<ClassV>, expected: DataType, received: DataType) -> bool
    decreases expected,
{
    match (expected, received) {
        (DataType::Nullable(_), DataType::Null) => true,
        (DataType::Nullable(a), DataType::Nullable(b)) => compat(cs, *a, *b),
        (DataType::Nullable(inner), actual) => compat(cs, *inner, actual),
        (DataType::Instance(p), DataType::Instance(c)) => subclass(cs, c@, p@) || ty_eq(expected, received),
        (e, r) => ty_eq(e, r),
    }
}

pub open spec fn is_arith(op: BinaryOp) -> bool {
    op is Add || op is Subtract || op is Multiply || op is Divide
}

pub open spec fn is_ordering(op: BinaryOp) -> bool {
    op is Less || op is LessEqual || op is Greater || op is GreaterEqual
}

/// The type of `left op right`, when the operator applies to such operands.
pub open spec fn binary_type(cs: Seq<ClassV>, left: DataType, op: BinaryOp, right: DataType) -> Option<DataType> {
    if left is Int && is_arith(op) && right is Int {
        Some(DataType::Int)
    } else if left is Float && is_arith(op) && right is Float {
        Some(DataType::Float)
    } else if left is String && op is Add && right is String {
        Some(DataType::String)
    } else if left is Int && is_ordering(op) && right is Int {
        Some(DataType::Bool)
    } else if left is Float && is_ordering(op) && right is Float {
        Some(DataType::Bool)
    } else if left is String && is_ordering(op) && right is String {
        Some(DataType::Bool)
    } else if (op is Equal || op is NotEqual) && (compat(cs, left, right) || compat(cs, right, left)) {
        Some(DataType::Bool)
    } else {
        None
    }
}

/// Whether `child` is `parent` or one of its subclasses.
pub fn is_subclass(child: &String, parent: &String, classes: &Vec<ClassData>) -> (r: bool)
    ensures
        r == subclass(classes_view(classes@), child@, parent@),
{
    let ghost cs = classes_view(classes@);
    proof {
        lemma_class_keys(classes@);
    }
    if *child == *parent {
        return true;
    }
    let mut k: usize = match find_first(classes, child) {
        Some(k) => k,
        None => return false,
    };
    let mut fuel: usize = classes.len();
    loop
        invariant
            cs == classes_view(classes@),
            class_keys(cs) == crate::compiler::tables::keys_of(classes@),
            0 <= k < classes@.len(),
            fuel <= classes@.len(),
            subclass(cs, child@, parent@) == ancestor_within(cs, k as int, parent@, fuel as nat),
        decreases fuel,
    {
        if fuel == 0 {
            return false;
        }
        match &classes[k].parent {
            None => return false,
            Some(p) => {
                if *p == *parent {
                    return true;
                }
                match find_first(classes, p) {
                    Some(j) => {
                        k = j;
                        fuel = fuel - 1;
                    },
                    None => return false,
                }
            },
        }
    }
}

/// Whether a value of type `received` may stand where `expected` is declared.
pub fn is_compatible(expected: &DataType, received: &DataType, classes: &Vec<ClassData>) -> (r: bool)
    ensures
        r == compat(classes_view(classes@), *expected, *received),
    decreases expected,
{
    match (expected, received) {
        (DataType::Nullable(_), DataType::Null) => true,
        (DataType::Nullable(a), DataType::Nullable(b)) => is_compatible(a, b, classes),
        (DataType::Nullable(inner), actual) => is_compatible(inner, actual, classes),
        (DataType::Instance(p), DataType::Instance(c)) => {
            if is_subclass(c, p, classes) {
                true
            } else {
                expected.same_as(received)
            }
        },
        (e, r) => e.same_as(r),
    }
}

/// The type of `left operator right`, or `Err(())` when the operator does not apply.
pub fn get_binary_type(left: &DataType, operator: &BinaryOp, right: &DataType, classes: &Vec<ClassData>) -> (r:
    Result<DataType, ()>)
    ensures
        match binary_type(classes_view(classes@), *left, *operator, *right) {
            Some(d) => r == Ok::<DataType, ()>(d),
            None => r is Err,
        },
{
    let arith = match operator {
        BinaryOp::Add | BinaryOp::Subtract | BinaryOp::Multiply | BinaryOp::Divide => true,
        _ => false,
    };
    let ordering = match operator {
        BinaryOp::Less | BinaryOp::LessEqual | BinaryOp::Greater | BinaryOp::GreaterEqual => true,
        _ => false,
    };
    match (left, right) {
        (DataType::Int, DataType::Int) if arith => return Ok(DataType::Int),
        (DataType::Float, DataType::Float) if arith => return Ok(DataType::Float),
        (DataType::String, DataType::String) if *operator == BinaryOp::Add => return Ok(DataType::String),
        (DataType::Int, DataType::Int) if ordering => return Ok(DataType::Bool),
        (DataType::Float, DataType::Float) if ordering => return Ok(DataType::Bool),
        (DataType::String, DataType::String) if ordering => return Ok(DataType::Bool),
        _ => {},
    }
    match operator {
        BinaryOp::Equal | BinaryOp::NotEqual => {
            if is_compatible(left, right, classes) || is_compatible(right, left, classes) {
                return Ok(DataType::Bool);
            }
        },
        _ => {},
    }
    Err(())
}

/// The class one parent link above the class at position `k`, if it has a parent that
/// is in the table.
pub open spec fn parent_step(cs: Seq<ClassV>, k: int) -> Option<int> {
    if 0 <= k < cs.len() {
        match cs[k].parent {
            Some(p) => first_match(class_keys(cs), p),
            None => None,
        }
    } else {
        None
    }
}

/// The position reached from the class at position `k` after `n` parent links.
pub open spec fn chain_at(cs: Seq<ClassV>, k: int, n: nat) -> Option<int>
    decreases n,
{
    if n == 0 {
        if 0 <= k < cs.len() {
            Some(k)
        } else {
            None
        }
    } else {
        match parent_step(cs, k) {
            Some(j) => chain_at(cs, j, (n - 1) as nat),
            None => None,
        }
    }
}

/// The parent links from the class at position `k` never come back to a class.
pub open spec fn acyclic_from(cs: Seq<ClassV>, k: int) -> bool {
    forall|i: nat, j: nat|
        i < j && #[trigger] chain_at(cs, k, i) is Some && #[trigger] chain_at(cs, k, j) is Some ==> chain_at(cs, k, i)
            != chain_at(cs, k, j)
}

/// Some class on the chain of parents from position `k` (that class included) names
/// `target` as its parent.
pub open spec fn on_chain(cs: Seq<ClassV>, k: int, target: Seq<char>) -> bool {
    exists|n: nat| #[trigger] chain_at(cs, k, n) matches Some(j) && cs[j].parent == Some(target)
}

proof fn lemma_chain_in_range(cs: Seq<ClassV>, k: int, n: nat)
    ensures
        chain_at(cs, k, n) matches Some(j) ==> 0 <= j < cs.len(),
    decreases n,
{
    if n > 0 {
        if let Some(j) = parent_step(cs, k) {
            lemma_chain_in_range(cs, j, (n - 1) as nat);
        }
    }
}

proof fn lemma_chain_prefix(cs: Seq<ClassV>, k: int, n: nat, m: nat)
    requires
        chain_at(cs, k, n) is Some,
        m <= n,
    ensures
        chain_at(cs, k, m) is Some,
    decreases n,
{
    if m > 0 {
        let j = parent_step(cs, k)->0;
        lemma_chain_prefix(cs, j, (n - 1) as nat, (m - 1) as nat);
    }
}

/// On a chain that comes back to no class, every position reached lies fewer links away
/// than there are classes.
proof fn lemma_chain_short(cs: Seq<ClassV>, k: int, n: nat)
    requires
        acyclic_from(cs, k),
        chain_at(cs, k, n) is Some,
    ensures
        n < cs.len(),
{
    let s = Seq::new((n + 1) as nat, |i: int| chain_at(cs, k, i as nat)->0);
    assert forall|i: int| 0 <= i < s.len() implies chain_at(cs, k, i as nat) is Some && 0 <= #[trigger] s[i] < cs.len() by {
        lemma_chain_prefix(cs, k, n, i as nat);
        lemma_chain_in_range(cs, k, i as nat);
    }
    assert(s.no_duplicates()) by {
        assert forall|i: int, j: int| 0 <= i < s.len() && 0 <= j < s.len() && i != j implies s[i] != s[j] by {
            lemma_chain_prefix(cs, k, n, i as nat);
            lemma_chain_prefix(cs, k, n, j as nat);
            if i < j {
                assert(chain_at(cs, k, i as nat) != chain_at(cs, k, j as nat));
            } else {
                assert(chain_at(cs, k, j as nat) != chain_at(cs, k, i as nat));
            }
        }
    }
    s.unique_seq_to_set();
    vstd::set_lib::lemma_int_range(0, cs.len() as int);
    assert(s.to_set().subset_of(vstd::set_lib::set_int_range(0, cs.len() as int)));
    vstd::set_lib::lemma_len_subset(s.to_set(), vstd::set_lib::set_int_range(0, cs.len() as int));
}

proof fn lemma_within_on_chain(cs: Seq<ClassV>, k: int, target: Seq<char>, fuel: nat)
    requires
        ancestor_within(cs, k, target, fuel),
    ensures
        on_chain(cs, k, target),
    decreases fuel,
{
    let p = cs[k].parent->0;
    if p == target {
        assert(chain_at(cs, k, 0) == Some(k));
    } else {
        let j = first_match(class_keys(cs), p)->0;
        lemma_within_on_chain(cs, j, target, (fuel - 1) as nat);
        let n = choose|n: nat| #[trigger] chain_at(cs, j, n) matches Some(i) && cs[i].parent == Some(target);
        assert(chain_at(cs, k, n + 1) == chain_at(cs, j, n));
    }
}

proof fn lemma_chain_within(cs: Seq<ClassV>, k: int, target: Seq<char>, n: nat, fuel: nat)
    requires
        chain_at(cs, k, n) matches Some(j) && cs[j].parent == Some(target),
        n < fuel,
    ensures
        ancestor_within(cs, k, target, fuel),
    decreases n,
{
    if n > 0 {
        let j = parent_step(cs, k)->0;
        if cs[k].parent != Some(target) {
            lemma_chain_within(cs, j, target, (n - 1) as nat, (fuel - 1) as nat);
        }
    }
}

/// Where the parent links from `child` come back to no class, `child` is a subclass of
/// `parent` exactly when it is `parent` or some class on its chain of parents names
/// `parent` as its parent.
pub proof fn law_subclass_is_parent_chain(cs: Seq<ClassV>, child: Seq<char>, parent: Seq<char>)
    requires
        first_match(class_keys(cs), child) matches Some(k) ==> acyclic_from(cs, k),
    ensures
        subclass(cs, child, parent) <==> (child == parent || (first_match(class_keys(cs), child) matches Some(k) && on_chain(
            cs,
            k,
            parent,
        ))),
{
    if let Some(k) = first_match(class_keys(cs), child) {
        if ancestor_within(cs, k, parent, cs.len()) {
            lemma_within_on_chain(cs, k, parent, cs.len());
        }
        if on_chain(cs, k, parent) {
            let n = choose|n: nat| #[trigger] chain_at(cs, k, n) matches Some(j) && cs[j].parent == Some(parent);
            lemma_chain_short(cs, k, n);
            lemma_chain_within(cs, k, parent, n, cs.len());
        }
    }
}

/// Arithmetic keeps the type of two integer or two float operands; `+` also joins two
/// strings; the orderings compare two integers, two floats or two strings and give a
/// boolean; no other pair of those types takes these operators, and `&&`/`||` are typed
/// elsewhere.
pub proof fn law_operator_types(cs: Seq<ClassV>, op: BinaryOp, l: DataType, r: DataType)
    ensures
        (op is Add || op is Subtract || op is Multiply || op is Divide) ==> binary_type(cs, DataType::Int, op, DataType::Int)
            == Some(DataType::Int) && binary_type(cs, DataType::Float, op, DataType::Float) == Some(DataType::Float),
        (op is Less || op is LessEqual || op is Greater || op is GreaterEqual) ==> binary_type(cs, DataType::Int, op, DataType::Int)
            == Some(DataType::Bool) && binary_type(cs, DataType::Float, op, DataType::Float) == Some(DataType::Bool)
            && binary_type(cs, DataType::String, op, DataType::String) == Some(DataType::Bool),
        op is Add ==> binary_type(cs, DataType::String, op, DataType::String) == Some(DataType::String),
        (op is Subtract || op is Multiply || op is Divide) ==> binary_type(cs, DataType::String, op, DataType::String) is None,
        (op is Add || op is Subtract || op is Multiply || op is Divide || op is Less || op is LessEqual || op is Greater
            || op is GreaterEqual) && !(l is Int && r is Int) && !(l is Float && r is Float) && !(l is String && r is String)
            ==> binary_type(cs, l, op, r) is None,
        (op is LAnd || op is LOr) ==> binary_type(cs, l, op, r) is None,
{
}

/// `null` fits exactly the nullable types and `Null` itself; a class instance fits a
/// class type exactly when its class is that class or a subclass of it; and a value of a
/// primitive type fits only that same type.
pub proof fn law_compat_cases(cs: Seq<ClassV>, e: DataType, child: String, parent: String)
    ensures
        compat(cs, e, DataType::Null) <==> (e is Null || e is Nullable),
        compat(cs, DataType::Instance(parent), DataType::Instance(child)) <==> subclass(cs, child@, parent@),
        compat(cs, DataType::Int, e) <==> e is Int,
        compat(cs, DataType::Float, e) <==> e is Float,
        compat(cs, DataType::Bool, e) <==> e is Bool,
        compat(cs, DataType::String, e) <==> e is String,
{
}

/// Every class is a subclass of itself.
pub proof fn law_subclass_reflexive(cs: Seq<ClassV>, c: Seq<char>)
    ensures
        subclass(cs, c, c),
{
}

/// A value of any type may stand where that same type is declared.
pub proof fn law_compat_reflexive(cs: Seq<ClassV>, t: DataType)
    ensures
        compat(cs, t, t),
    decreases t,
{
    lemma_ty_eq_refl(t);
    if let DataType::Nullable(inner) = t {
        law_compat_reflexive(cs, *inner);
    }
}

/// `null` may stand where any nullable type is declared, and so may any value that is
/// not itself nullable and fits the inner type.
pub proof fn law_nullable_accepts(cs: Seq<ClassV>, inner: DataType, received: DataType)
    requires
        received is Null || (!(received is Nullable) && compat(cs, inner, received)),
    ensures
        compat(cs, DataType::Nullable(Box::new(inner)), received),
{
}

/// Two operands of the same type can always be compared with `==` and `!=`, and the
/// comparison is a `bool`.
pub proof fn law_equality_on_same_type(cs: Seq<ClassV>, t: DataType, op: BinaryOp)
    requires
        op is Equal || op is NotEqual,
    ensures
        binary_type(cs, t, op, t) == Some(DataType::Bool),
{
    law_compat_reflexive(cs, t);
}

} // verus!
