//! Reflection: the name of a struct and the names of its fields.

use crate::extract::{struct_fields, struct_refusal};
use crate::model::{SchemaError, Synthesizer, TypeDeclaration};
use vstd::prelude::*;

verus! {

/// What a struct tells of its shape.
#[derive(Clone, Debug, PartialEq, Eq)]
pub struct Reflection {
    pub name: String,
    pub fields: Vec<String>,
}

/// A reflection as contracts speak of it.
pub struct ReflectionModel {
    pub name: Seq<char>,
    pub fields: Seq<Seq<char>>,
}

impl View for Reflection {
    type V = ReflectionModel;

    open spec fn view(&self) -> ReflectionModel {
        ReflectionModel {
            name: self.name@,
            fields: Seq::new(self.fields@.len(), |i: int| self.fields@[i]@),
        }
    }
}

/// Builds the reflection of a struct: its name and the names of its fields
/// in declaration order. An enum is refused.
pub fn reflective_derive_macro(decl: &TypeDeclaration) -> (outcome: Result<Reflection, SchemaError>)
    ensures
        outcome is Err <==> struct_refusal(Synthesizer::Reflective, *decl) is Some,
        outcome matches Err(error) ==> Some(error@) == struct_refusal(Synthesizer::Reflective, *decl),
        outcome matches Ok(reflection) ==> reflection@ == (ReflectionModel {
            name: decl.name_text(),
            fields: decl.field_names(),
        }),
{
    let declared = match struct_fields(Synthesizer::Reflective, decl) {
        Ok(declared) => declared,
        Err(error) => {
            return Err(error);
        },
    };
    let mut fields: Vec<String> = Vec::new();
    let mut i: usize = 0;
    while i < declared.len()
        invariant
            i <= declared.len(),
            fields.len() == i,
            forall|j: int| 0 <= j < i ==> (#[trigger] fields@[j])@ == declared@[j].name@,
        decreases declared.len() - i,
    {
        fields.push(declared[i].name.clone());
        i += 1;
    }
    let reflection = Reflection { name: decl.name().clone(), fields };
    assert(reflection@.fields =~= decl.field_names());
    Ok(reflection)
}

impl Reflection {
    /// The name of the type.
    pub fn name(&self) -> (name: &str)
        ensures
            name@ == self@.name,
    {
        self.name.as_str()
    }

    /// The names of the fields, in declaration order.
    pub fn fields(&self) -> (fields: Vec<&str>)
        ensures
            fields.len() == self@.fields.len(),
            forall|i: int| 0 <= i < fields.len() ==> (#[trigger] fields@[i])@ == self@.fields[i],
    {
        let mut fields: Vec<&str> = Vec::new();
        let mut i: usize = 0;
        while i < self.fields.len()
            invariant
                i <= self.fields.len(),
                fields.len() == i,
                forall|j: int| 0 <= j < i ==> (#[trigger] fields@[j])@ == self.fields@[j]@,
            decreases self.fields.len() - i,
        {
            fields.push(self.fields[i].as_str());
            i += 1;
        }
        fields
    }
}

} // verus!
