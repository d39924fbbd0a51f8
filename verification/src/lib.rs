//! A schema-driven generation engine. A type declaration and the directives
//! attached to it are validated and turned into what the type needs: the
//! mirror type of a struct with the conversions both ways, the text codec of
//! an enum, reflection and metadata accessors, and the in-place transform of
//! a type's text fields.

pub mod cipher;
pub mod codec;
pub mod extract;
pub mod jsonb;
pub mod metadata;
pub mod mirror;
pub mod model;
pub mod reflect;
pub mod text;
pub mod traits;

pub use traits::{AsForm, AsJsonb, AsTable, MetaData, Reflective, SetCipher, SetEnum, SetIsEmpty, SetMutate};
