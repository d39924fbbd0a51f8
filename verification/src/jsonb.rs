//! The binding of a struct to a structured-value column.

use crate::extract::{struct_fields, struct_refusal};
use crate::model::{SchemaError, Synthesizer, TypeDeclaration};
use vstd::prelude::*;

verus! {

/// Says that a struct is stored as a structured value.
#[derive(Clone, Debug, PartialEq, Eq)]
pub struct JsonbBinding {
    pub owner: String,
}

/// Builds the binding of a struct to a structured-value column. An enum is
/// refused.
pub fn as_jsonb_derive_macro(decl: &TypeDeclaration) -> (outcome: Result<JsonbBinding, SchemaError>)
    ensures
        outcome is Err <==> struct_refusal(Synthesizer::AsJsonb, *decl) is Some,
        outcome matches Err(error) ==> Some(error@) == struct_refusal(Synthesizer::AsJsonb, *decl),
        outcome matches Ok(binding) ==> binding.owner@ == decl.name_text(),
{
    match struct_fields(Synthesizer::AsJsonb, decl) {
        Ok(_) => Ok(JsonbBinding { owner: decl.name().clone() }),
        Err(error) => Err(error),
    }
}

} // verus!
