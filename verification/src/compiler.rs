//! The compiler: from a syntax tree to stack-machine code.
use vstd::prelude::*;

pub mod ast_flattener;
pub mod semantics;
pub mod tables;
pub mod typing;

use crate::ast::{stmts_targets_ok, Statement};
use crate::compiler::ast_flattener::{calls_land, flatten_ast, lands, vtables_view, CompiledData, FlattenError};
use crate::compiler::semantics::{class_count, jumps_within, program_code, reports, Refusal};

verus! {

/// `r` is the code and vtables of the program `ss`, or the error reporting why it is refused.
pub open spec fn compiled_as(ss: Seq<Statement>, r: Result<CompiledData, FlattenError>) -> bool {
    match program_code(ss) {
        Ok((ops, vts)) => r is Ok && r->Ok_0.opcodes@ == ops && vtables_view(r->Ok_0.vtables@) == vts,
        Err(v) => r is Err && reports(r->Err_0, v),
    }
}

/// Compiling is deterministic: two compilations of one program give the same code and
/// vtables, or refusals that report the same reason.
pub proof fn law_compile_deterministic(
    ss: Seq<Statement>,
    r1: Result<CompiledData, FlattenError>,
    r2: Result<CompiledData, FlattenError>,
)
    requires
        compiled_as(ss, r1),
        compiled_as(ss, r2),
    ensures
        r1 is Ok <==> r2 is Ok,
        r1 is Ok ==> r1->Ok_0.opcodes@ == r2->Ok_0.opcodes@ && vtables_view(r1->Ok_0.vtables@) == vtables_view(
            r2->Ok_0.vtables@,
        ),
        r1 is Err ==> exists|v: Refusal| reports(r1->Err_0, v) && reports(r2->Err_0, v),
{
    if let Err(v) = program_code(ss) {
        assert(reports(r1->Err_0, v) && reports(r2->Err_0, v));
    }
}

/// Compiles a parsed program into stack-machine code and class vtables.
pub fn compile(statements: &[Statement]) -> (r: Result<CompiledData, FlattenError>)
    requires
        stmts_targets_ok(statements@),
    ensures
        compiled_as(statements@, r),
        r is Ok ==> jumps_within(r->Ok_0.opcodes@),
        r is Ok ==> r->Ok_0.vtables@.len() == class_count(statements@),
        r is Ok ==> calls_land(r->Ok_0.opcodes@),
        r is Ok ==> forall|k: int, j: int|
            0 <= k < r->Ok_0.vtables@.len() && 0 <= j < r->Ok_0.vtables@[k]@.len() ==> lands(
                r->Ok_0.opcodes@,
                #[trigger] r->Ok_0.vtables@[k]@[j] as int,
            ),
{
    let compiled_data = flatten_ast(statements)?;
    Ok(compiled_data)
}

} // verus!
