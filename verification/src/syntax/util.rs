//! Helpers that the levels of the parser share.

use vstd::prelude::*;
use crate::compiler::ast::BramaAstType;
use crate::compiler::ast::retagged;

verus! {

/// Marks the call at the root of a tree as one whose value is used, so that
/// the code generator keeps the value in a temporary slot.
pub fn update_functions_for_temp_return(ast: &mut BramaAstType)
    ensures
        final(ast)@ == retagged(old(ast)@),
    decreases *old(ast),
{
    match ast {
        BramaAstType::FuncCall { assign_to_temp, .. } => {
            *assign_to_temp = true;
        },
        BramaAstType::AccessorFuncCall { source, assign_to_temp, .. } => {
            update_functions_for_temp_return(source);
            *assign_to_temp = true;
        },
        _ => {},
    }
}

} // verus!
