//! The directive model: the declarations that generation starts from, the
//! annotations attached to them, and the error that a malformed schema
//! raises.

use vstd::prelude::*;
use vstd::string::StringExecFns;

verus! {

/// What a variant of an enum carries besides its name.
#[derive(Clone, Copy, Debug, PartialEq, Eq, Structural)]
pub enum Payload {
    /// Nothing: the only shape that an enum codec accepts.
    Unit,
    /// Fields with names, as in `V { a: T }`.
    Named,
    /// Fields without names, as in `V(T)`.
    Unnamed,
}

/// One field of a struct: its name and the type it was declared with.
#[derive(Clone, Debug, PartialEq, Eq)]
pub struct FieldDecl {
    pub name: String,
    pub declared_type: String,
}

/// One variant of an enum.
#[derive(Clone, Debug, PartialEq, Eq)]
pub struct VariantDecl {
    pub name: String,
    pub payload: Payload,
}

/// The declaration that one generation run transforms.
#[derive(Clone, Debug, PartialEq, Eq)]
pub enum TypeDeclaration {
    Struct { name: String, fields: Vec<FieldDecl> },
    Enum { name: String, variants: Vec<VariantDecl> },
}

/// Names the mirror type of a struct.
#[derive(Clone, Debug, PartialEq, Eq)]
pub struct TableDirective {
    pub table_name: String,
}

/// Maps one field to a column of the mirror type.
#[derive(Clone, Debug, PartialEq, Eq)]
pub struct ColumnDirective {
    pub field_name: String,
    pub column_type: String,
    /// The converter that turns the field's value into the column's.
    pub from_converter: String,
    /// The converter that turns the column's value back into the field's.
    pub to_converter: String,
}

/// Names the author of a type; the serial version is 0 where it is left out.
#[derive(Clone, Debug, PartialEq, Eq)]
pub struct AuthorDirective {
    pub author: String,
    pub serial_version: Option<usize>,
}

/// Names the author of one field.
#[derive(Clone, Debug, PartialEq, Eq)]
pub struct FieldAuthorDirective {
    pub field_name: String,
    pub author: String,
}

/// An annotation on a type or on one of its fields.
#[derive(Clone, Debug, PartialEq, Eq)]
pub enum Directive {
    Table(TableDirective),
    Column(ColumnDirective),
    Author(AuthorDirective),
    FieldAuthor(FieldAuthorDirective),
}

/// The synthesizer that a declaration was handed to.
#[derive(Clone, Copy, Debug, PartialEq, Eq, Structural)]
pub enum Synthesizer {
    AsTable,
    SetEnum,
    MetaData,
    Reflective,
    AsJsonb,
}

/// What is wrong with a schema.
#[derive(Clone, Copy, Debug, PartialEq, Eq, Structural)]
pub enum Fault {
    /// A struct was handed to a synthesizer that takes enums.
    StructNotSupported,
    /// An enum was handed to a synthesizer that takes structs.
    EnumNotSupported,
    /// A variant carries named fields.
    NamedFieldsNotSupported,
    /// A variant carries unnamed fields.
    UnnamedFieldsNotSupported,
    /// The nominated default is not a variant of the enum.
    UnknownDefaultVariant,
    /// No table directive is attached to the type.
    MissingTable,
    /// More than one table directive is attached to the type.
    DuplicateTable,
    /// A column directive names a field that the struct does not have.
    UnknownColumnField,
    /// More than one column directive names the same field.
    DuplicateColumn,
    /// No author directive is attached to the type.
    MissingAuthor,
    /// More than one author directive is attached to the type.
    DuplicateAuthor,
    /// A field author directive names a field that the struct does not have.
    UnknownAuthorField,
    /// More than one field author directive names the same field.
    DuplicateFieldAuthor,
}

/// Why generation failed for one type: the synthesizer that refused it, the
/// fault, the type that owns it, and the field or variant at fault (the type's own name
/// where the fault lies with the type as a whole).
#[derive(Clone, Debug, PartialEq, Eq)]
pub struct SchemaError {
    pub synthesizer: Synthesizer,
    pub fault: Fault,
    pub owner: String,
    pub subject: String,
}

/// A schema error as contracts speak of it.
pub struct SchemaErrorModel {
    pub synthesizer: Synthesizer,
    pub fault: Fault,
    pub owner: Seq<char>,
    pub subject: Seq<char>,
}

/// The characters of each string of a sequence.
pub open spec fn texts(items: Seq<String>) -> Seq<Seq<char>> {
    Seq::new(items.len(), |i: int| items[i]@)
}

impl Payload {
    /// The fault that a variant of this shape raises in an enum codec, if any.
    pub open spec fn fault(self) -> Option<Fault> {
        match self {
            Payload::Unit => None,
            Payload::Named => Some(Fault::NamedFieldsNotSupported),
            Payload::Unnamed => Some(Fault::UnnamedFieldsNotSupported),
        }
    }
}

impl TypeDeclaration {
    /// The declared name of the type.
    pub open spec fn name_text(self) -> Seq<char> {
        match self {
            TypeDeclaration::Struct { name, .. } => name@,
            TypeDeclaration::Enum { name, .. } => name@,
        }
    }

    /// The fields of a struct, in declaration order; none for an enum.
    pub open spec fn field_decls(self) -> Seq<FieldDecl> {
        match self {
            TypeDeclaration::Struct { fields, .. } => fields@,
            TypeDeclaration::Enum { .. } => Seq::empty(),
        }
    }

    /// The variants of an enum, in declaration order; none for a struct.
    pub open spec fn variant_decls(self) -> Seq<VariantDecl> {
        match self {
            TypeDeclaration::Struct { .. } => Seq::empty(),
            TypeDeclaration::Enum { variants, .. } => variants@,
        }
    }

    /// The names of the fields, in declaration order.
    pub open spec fn field_names(self) -> Seq<Seq<char>> {
        Seq::new(self.field_decls().len(), |i: int| self.field_decls()[i].name@)
    }

    /// The names of the variants, in declaration order.
    pub open spec fn variant_names(self) -> Seq<Seq<char>> {
        Seq::new(self.variant_decls().len(), |i: int| self.variant_decls()[i].name@)
    }

    /// The declared name of the type.
    pub fn name(&self) -> (name: &String)
        ensures
            name@ == self.name_text(),
    {
        match self {
            TypeDeclaration::Struct { name, .. } => name,
            TypeDeclaration::Enum { name, .. } => name,
        }
    }

    /// Whether the declaration is a struct.
    pub fn is_struct(&self) -> (yes: bool)
        ensures
            yes == (*self is Struct),
    {
        match self {
            TypeDeclaration::Struct { .. } => true,
            TypeDeclaration::Enum { .. } => false,
        }
    }
}

impl Synthesizer {
    /// The name under which the synthesizer appears in messages.
    pub open spec fn label_text(self) -> Seq<char> {
        match self {
            Synthesizer::AsTable => "AsTable"@,
            Synthesizer::SetEnum => "SetEnum"@,
            Synthesizer::MetaData => "MetaData"@,
            Synthesizer::Reflective => "Reflective"@,
            Synthesizer::AsJsonb => "AsJsonb"@,
        }
    }

    /// The name under which the synthesizer appears in messages.
    pub fn label(self) -> (label: &'static str)
        ensures
            label@ == self.label_text(),
    {
        match self {
            Synthesizer::AsTable => "AsTable",
            Synthesizer::SetEnum => "SetEnum",
            Synthesizer::MetaData => "MetaData",
            Synthesizer::Reflective => "Reflective",
            Synthesizer::AsJsonb => "AsJsonb",
        }
    }
}

impl Fault {
    /// The sentence that states the fault.
    pub open spec fn phrase_text(self) -> Seq<char> {
        match self {
            Fault::StructNotSupported => "Structs are not supported"@,
            Fault::EnumNotSupported => "Enums are not supported"@,
            Fault::NamedFieldsNotSupported => "Named fields are not supported"@,
            Fault::UnnamedFieldsNotSupported => "Unnamed fields are not supported"@,
            Fault::UnknownDefaultVariant => "The default variant is not declared"@,
            Fault::MissingTable => "A table directive is required"@,
            Fault::DuplicateTable => "Only one table directive is accepted"@,
            Fault::UnknownColumnField => "A column directive names an unknown field"@,
            Fault::DuplicateColumn => "Only one column directive per field is accepted"@,
            Fault::MissingAuthor => "An author directive is required"@,
            Fault::DuplicateAuthor => "Only one author directive is accepted"@,
            Fault::UnknownAuthorField => "An author directive names an unknown field"@,
            Fault::DuplicateFieldAuthor => "Only one author directive per field is accepted"@,
        }
    }

    /// The sentence that states the fault.
    pub fn phrase(self) -> (phrase: &'static str)
        ensures
            phrase@ == self.phrase_text(),
    {
        match self {
            Fault::StructNotSupported => "Structs are not supported",
            Fault::EnumNotSupported => "Enums are not supported",
            Fault::NamedFieldsNotSupported => "Named fields are not supported",
            Fault::UnnamedFieldsNotSupported => "Unnamed fields are not supported",
            Fault::UnknownDefaultVariant => "The default variant is not declared",
            Fault::MissingTable => "A table directive is required",
            Fault::DuplicateTable => "Only one table directive is accepted",
            Fault::UnknownColumnField => "A column directive names an unknown field",
            Fault::DuplicateColumn => "Only one column directive per field is accepted",
            Fault::MissingAuthor => "An author directive is required",
            Fault::DuplicateAuthor => "Only one author directive is accepted",
            Fault::UnknownAuthorField => "An author directive names an unknown field",
            Fault::DuplicateFieldAuthor => "Only one author directive per field is accepted",
        }
    }
}

impl View for SchemaError {
    type V = SchemaErrorModel;

    open spec fn view(&self) -> SchemaErrorModel {
        SchemaErrorModel {
            synthesizer: self.synthesizer,
            fault: self.fault,
            owner: self.owner@,
            subject: self.subject@,
        }
    }
}

impl SchemaErrorModel {
    /// The message of the error: the fault, the synthesizer that raised it,
    /// the field or variant at fault, and the type.
    pub open spec fn message(self) -> Seq<char> {
        self.fault.phrase_text() + " by "@ + self.synthesizer.label_text() + ": "@ + self.subject
            + " in "@ + self.owner
    }
}

impl SchemaError {
    /// An error of `synthesizer` about `subject` in the type `owner`.
    pub fn new(synthesizer: Synthesizer, fault: Fault, owner: &String, subject: &String) -> (error:
        SchemaError)
        ensures
            error@ == (SchemaErrorModel {
                synthesizer,
                fault,
                owner: owner@,
                subject: subject@,
            }),
    {
        SchemaError { synthesizer, fault, owner: owner.clone(), subject: subject.clone() }
    }

    /// The message of the error, which names the type and the field or
    /// variant at fault.
    pub fn message(&self) -> (message: String)
        ensures
            message@ == self@.message(),
    {
        let mut message = String::from_str(self.fault.phrase());
        message.append(" by ");
        message.append(self.synthesizer.label());
        message.append(": ");
        message.append(self.subject.as_str());
        message.append(" in ");
        message.append(self.owner.as_str());
        message
    }
}

} // verus!
