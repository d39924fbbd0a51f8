//! The traits that generated code implements.

use std::collections::HashMap;
use vstd::prelude::*;

verus! {

/// Marks a type that has a form.
pub trait AsForm {

}

/// Marks a type that is stored as a structured value.
pub trait AsJsonb {

}

/// Marks a type that has a mirror type.
pub trait AsTable {

}

/// Says who wrote a type and its fields.
pub trait MetaData {
    /// The author of the type.
    fn author(&self) -> &'static str;

    /// The serial version of the type.
    fn serial_version(&self) -> usize;

    /// The fields that name an author, each with its author.
    fn field_authors(&self) -> HashMap<&'static str, &'static str>;
}

/// Says what a type is called and which fields it has.
pub trait Reflective {
    /// The name of the type.
    fn name(&self) -> &'static str;

    /// The names of the fields, in declaration order.
    fn fields(&self) -> Vec<&'static str>;
}

/// Marks a type whose text fields can be encrypted in place.
pub trait SetCipher {

}

/// An enum that is read from text and written as text.
pub trait SetEnum: Sized {
    /// The variant that a text stands for.
    fn new<T: ToString>(s: T) -> Self;

    /// The variant that a text stands for.
    fn from_str<T: ToString>(s: T) -> Self;

    /// The canonical form of the variant.
    fn to_str(&self) -> &'static str;
}

/// Marks a type that can tell whether it is empty.
pub trait SetIsEmpty {

}

/// Marks a type that can be changed field by field.
pub trait SetMutate {

}

} // verus!
