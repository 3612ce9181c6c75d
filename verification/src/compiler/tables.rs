//! The compiler's symbol tables: ordered lists searched by name.
use vstd::prelude::*;

use crate::ast::DataType;
use crate::compiler::semantics::{qualified, this_name};
use vstd::string::StringExecFns;

verus! {

/// A name bound to a type (a variable or a class member variable).
pub struct Binding {
    pub name: String,
    pub data_type: DataType,
}

/// A free function (or static method): its entry point and signature.
pub struct FuncEntry {
    pub name: String,
    pub index: usize,
    pub ret: DataType,
    pub params: Vec<DataType>,
}

/// A method of a class: its vtable slot, signature, and whether a subclass may override it.
pub struct MethodEntry {
    pub name: String,
    pub slot: usize,
    pub ret: DataType,
    pub params: Vec<DataType>,
    pub overridable: bool,
}

/// What the compiler knows of a class.
pub struct ClassData {
    pub name: String,
    pub vars: Vec<Binding>,
    pub funcs: Vec<MethodEntry>,
    pub vtable: Vec<usize>,
    pub parent: Option<String>,
    pub constructor: usize,
    pub id: usize,
}

/// An enclosing loop: where `continue` jumps, how many locals live outside it,
/// and the `break` jumps still to be patched.
pub struct LoopStart {
    pub start: usize,
    pub vars_len: usize,
    pub breaks: Vec<usize>,
}

pub struct BindingV {
    pub name: Seq<char>,
    pub ty: DataType,
}

pub struct FuncV {
    pub name: Seq<char>,
    pub index: usize,
    pub ret: DataType,
    pub params: Seq<DataType>,
}

pub struct MethodV {
    pub name: Seq<char>,
    pub slot: usize,
    pub ret: DataType,
    pub params: Seq<DataType>,
    pub overridable: bool,
}

pub struct ClassV {
    pub name: Seq<char>,
    pub vars: Seq<BindingV>,
    pub funcs: Seq<MethodV>,
    pub vtable: Seq<usize>,
    pub parent: Option<Seq<char>>,
    pub constructor: usize,
    pub id: usize,
}

pub struct LoopV {
    pub start: usize,
    pub vars_len: usize,
    pub breaks: Seq<usize>,
}

impl View for Binding {
    type V = BindingV;

    open spec fn view(&self) -> BindingV {
        BindingV { name: self.name@, ty: self.data_type }
    }
}

impl View for FuncEntry {
    type V = FuncV;

    open spec fn view(&self) -> FuncV {
        FuncV { name: self.name@, index: self.index, ret: self.ret, params: self.params@ }
    }
}

impl View for MethodEntry {
    type V = MethodV;

    open spec fn view(&self) -> MethodV {
        MethodV {
            name: self.name@,
            slot: self.slot,
            ret: self.ret,
            params: self.params@,
            overridable: self.overridable,
        }
    }
}

pub open spec fn opt_name(o: Option<String>) -> Option<Seq<char>> {
    match o {
        Some(s) => Some(s@),
        None => None,
    }
}

impl View for ClassData {
    type V = ClassV;

    open spec fn view(&self) -> ClassV {
        ClassV {
            name: self.name@,
            vars: bindings_view(self.vars@),
            funcs: methods_view(self.funcs@),
            vtable: self.vtable@,
            parent: opt_name(self.parent),
            constructor: self.constructor,
            id: self.id,
        }
    }
}

impl View for LoopStart {
    type V = LoopV;

    open spec fn view(&self) -> LoopV {
        LoopV { start: self.start, vars_len: self.vars_len, breaks: self.breaks@ }
    }
}

pub open spec fn bindings_view(s: Seq<Binding>) -> Seq<BindingV> {
    s.map_values(|b: Binding| b@)
}

pub open spec fn funcs_view(s: Seq<FuncEntry>) -> Seq<FuncV> {
    s.map_values(|f: FuncEntry| f@)
}

pub open spec fn methods_view(s: Seq<MethodEntry>) -> Seq<MethodV> {
    s.map_values(|m: MethodEntry| m@)
}

pub open spec fn classes_view(s: Seq<ClassData>) -> Seq<ClassV> {
    s.map_values(|c: ClassData| c@)
}

pub open spec fn loops_view(s: Seq<LoopStart>) -> Seq<LoopV> {
    s.map_values(|l: LoopStart| l@)
}

pub open spec fn binding_keys(s: Seq<BindingV>) -> Seq<Seq<char>> {
    s.map_values(|b: BindingV| b.name)
}

pub open spec fn func_keys(s: Seq<FuncV>) -> Seq<Seq<char>> {
    s.map_values(|f: FuncV| f.name)
}

pub open spec fn method_keys(s: Seq<MethodV>) -> Seq<Seq<char>> {
    s.map_values(|m: MethodV| m.name)
}

pub open spec fn class_keys(s: Seq<ClassV>) -> Seq<Seq<char>> {
    s.map_values(|c: ClassV| c.name)
}

/// The list holds the name.
pub open spec fn has(keys: Seq<Seq<char>>, k: Seq<char>) -> bool {
    exists|i: int| 0 <= i < keys.len() && keys[i] == k
}

pub open spec fn is_first(keys: Seq<Seq<char>>, k: Seq<char>, i: int) -> bool {
    &&& 0 <= i < keys.len()
    &&& keys[i] == k
    &&& forall|j: int| 0 <= j < i ==> keys[j] != k
}

pub open spec fn is_last(keys: Seq<Seq<char>>, k: Seq<char>, i: int) -> bool {
    &&& 0 <= i < keys.len()
    &&& keys[i] == k
    &&& forall|j: int| i < j < keys.len() ==> keys[j] != k
}

/// The position of the first entry with the name.
pub open spec fn first_match(keys: Seq<Seq<char>>, k: Seq<char>) -> Option<int> {
    if exists|i: int| is_first(keys, k, i) {
        Some(choose|i: int| is_first(keys, k, i))
    } else {
        None
    }
}

/// The position of the last entry with the name.
pub open spec fn last_match(keys: Seq<Seq<char>>, k: Seq<char>) -> Option<int> {
    if exists|i: int| is_last(keys, k, i) {
        Some(choose|i: int| is_last(keys, k, i))
    } else {
        None
    }
}

/// Gives access to an entry's name.
pub trait Named {
    spec fn key(&self) -> Seq<char>;

    fn name_ref(&self) -> (r: &String)
        ensures
            r@ == self.key(),
    ;
}

impl Named for Binding {
    open spec fn key(&self) -> Seq<char> {
        self.name@
    }

    fn name_ref(&self) -> (r: &String) {
        &self.name
    }
}

impl Named for FuncEntry {
    open spec fn key(&self) -> Seq<char> {
        self.name@
    }

    fn name_ref(&self) -> (r: &String) {
        &self.name
    }
}

impl Named for MethodEntry {
    open spec fn key(&self) -> Seq<char> {
        self.name@
    }

    fn name_ref(&self) -> (r: &String) {
        &self.name
    }
}

impl Named for ClassData {
    open spec fn key(&self) -> Seq<char> {
        self.name@
    }

    fn name_ref(&self) -> (r: &String) {
        &self.name
    }
}

pub open spec fn keys_of<T: Named>(s: Seq<T>) -> Seq<Seq<char>> {
    s.map_values(|x: T| x.key())
}

proof fn lemma_first_unique(keys: Seq<Seq<char>>, k: Seq<char>, i: int)
    requires
        is_first(keys, k, i),
    ensures
        first_match(keys, k) == Some(i),
{
    let c = choose|c: int| is_first(keys, k, c);
    assert(is_first(keys, k, c));
    if c < i {
        assert(keys[c] != k);
    } else if c > i {
        assert(keys[i] != k);
    }
}

proof fn lemma_last_unique(keys: Seq<Seq<char>>, k: Seq<char>, i: int)
    requires
        is_last(keys, k, i),
    ensures
        last_match(keys, k) == Some(i),
{
    let c = choose|c: int| is_last(keys, k, c);
    assert(is_last(keys, k, c));
    if c < i {
        assert(keys[i] != k);
    } else if c > i {
        assert(keys[c] != k);
    }
}

/// The first position holding the name.
pub fn find_first<T: Named>(s: &Vec<T>, name: &String) -> (r: Option<usize>)
    ensures
        r matches Some(i) ==> first_match(keys_of(s@), name@) == Some(i as int),
        r is None ==> first_match(keys_of(s@), name@) is None,
{
    let mut i: usize = 0;
    while i < s.len()
        invariant
            i <= s@.len(),
            forall|j: int| 0 <= j < i ==> keys_of(s@)[j] != name@,
        decreases s@.len() - i,
    {
        if *s[i].name_ref() == *name {
            proof {
                lemma_first_unique(keys_of(s@), name@, i as int);
            }
            return Some(i);
        }
        i = i + 1;
    }
    proof {
        assert forall|c: int| !is_first(keys_of(s@), name@, c) by {
            if 0 <= c < s@.len() {
                assert(keys_of(s@)[c] != name@);
            }
        }
    }
    None
}

/// The last position holding the name.
pub fn find_last<T: Named>(s: &Vec<T>, name: &String) -> (r: Option<usize>)
    ensures
        r matches Some(i) ==> last_match(keys_of(s@), name@) == Some(i as int),
        r is None ==> last_match(keys_of(s@), name@) is None,
{
    let mut i: usize = s.len();
    while i > 0
        invariant
            i <= s@.len(),
            forall|j: int| i <= j < s@.len() ==> keys_of(s@)[j] != name@,
        decreases i,
    {
        if *s[i - 1].name_ref() == *name {
            proof {
                lemma_last_unique(keys_of(s@), name@, i - 1);
            }
            return Some(i - 1);
        }
        i = i - 1;
    }
    proof {
        assert forall|c: int| !is_last(keys_of(s@), name@, c) by {
            if 0 <= c < s@.len() {
                assert(keys_of(s@)[c] != name@);
            }
        }
    }
    None
}

/// Whether some entry holds the name.
pub fn contains<T: Named>(s: &Vec<T>, name: &String) -> (r: bool)
    ensures
        r == has(keys_of(s@), name@),
{
    let mut i: usize = 0;
    while i < s.len()
        invariant
            i <= s@.len(),
            forall|j: int| 0 <= j < i ==> keys_of(s@)[j] != name@,
        decreases s@.len() - i,
    {
        if *s[i].name_ref() == *name {
            assert(keys_of(s@)[i as int] == name@);
            return true;
        }
        i = i + 1;
    }
    false
}

/// The reserved receiver name `this`.
pub fn this_string() -> (r: String)
    ensures
        r@ == this_name(),
{
    let this = <String as StringExecFns>::from_str("this");
    proof {
        reveal_strlit("this");
        assert(this@ =~= this_name());
    }
    this
}

/// Whether the name is the reserved receiver name `this`.
pub fn is_this(name: &String) -> (r: bool)
    ensures
        r == (name@ == this_name()),
{
    let this = <String as StringExecFns>::from_str("this");
    proof {
        reveal_strlit("this");
        assert(this@ =~= this_name());
    }
    *name == this
}

/// The global name `class.member` of a static member.
pub fn qualified_name(class: &String, member: &String) -> (r: String)
    ensures
        r@ == qualified(class@, member@),
{
    let mut q = class.clone();
    q.append(".");
    q.append(member.as_str());
    proof {
        reveal_strlit(".");
        assert(q@ =~= qualified(class@, member@));
    }
    q
}

pub proof fn lemma_binding_keys(s: Seq<Binding>)
    ensures
        binding_keys(bindings_view(s)) == keys_of(s),
{
    assert(binding_keys(bindings_view(s)) =~= keys_of(s));
}

pub proof fn lemma_func_keys(s: Seq<FuncEntry>)
    ensures
        func_keys(funcs_view(s)) == keys_of(s),
{
    assert(func_keys(funcs_view(s)) =~= keys_of(s));
}

pub proof fn lemma_method_keys(s: Seq<MethodEntry>)
    ensures
        method_keys(methods_view(s)) == keys_of(s),
{
    assert(method_keys(methods_view(s)) =~= keys_of(s));
}

pub proof fn lemma_class_keys(s: Seq<ClassData>)
    ensures
        class_keys(classes_view(s)) == keys_of(s),
{
    assert(class_keys(classes_view(s)) =~= keys_of(s));
}

} // verus!
