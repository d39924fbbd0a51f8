use schema_derive::jsonb::as_jsonb_derive_macro;
use schema_derive::metadata::meta_data_derive_macro;
use schema_derive::model::{
    AuthorDirective, Directive, Fault, FieldAuthorDirective, FieldDecl, Payload, SchemaError, Synthesizer,
    TableDirective, TypeDeclaration, VariantDecl,
};
use schema_derive::reflect::reflective_derive_macro;

fn field(name: &str, declared_type: &str) -> FieldDecl {
    FieldDecl { name: name.to_string(), declared_type: declared_type.to_string() }
}

fn author(name: &str, serial_version: Option<usize>) -> Directive {
    Directive::Author(AuthorDirective { author: name.to_string(), serial_version })
}

fn field_author(field_name: &str, name: &str) -> Directive {
    Directive::FieldAuthor(FieldAuthorDirective { field_name: field_name.to_string(), author: name.to_string() })
}

fn user() -> TypeDeclaration {
    TypeDeclaration::Struct {
        name: "User".to_string(),
        fields: vec![field("id", "i64"), field("email", "String"), field("phone", "String")],
    }
}

fn status() -> TypeDeclaration {
    TypeDeclaration::Enum {
        name: "Status".to_string(),
        variants: vec![VariantDecl { name: "Active".to_string(), payload: Payload::Unit }],
    }
}

#[test]
fn metadata_reads_author_and_version() {
    let directives = vec![field_author("phone", "cy"), author("ann", Some(3)), field_author("id", "bob")];
    let record = meta_data_derive_macro(&user(), &directives).unwrap();
    assert_eq!(record.author(), "ann");
    assert_eq!(record.serial_version(), 3);
    assert_eq!(record.field_authors(), vec![("id", "bob"), ("phone", "cy")]);
    assert_eq!(record.field_author("id"), Some("bob"));
    assert_eq!(record.field_author("phone"), Some("cy"));
    assert_eq!(record.field_author("email"), None);
    assert_eq!(record.field_author("fax"), None);
}

#[test]
fn metadata_serial_version_defaults_to_zero() {
    let record = meta_data_derive_macro(&user(), &vec![author("ann", None)]).unwrap();
    assert_eq!(record.serial_version, 0);
    assert_eq!(record.author, "ann");
    assert!(record.field_authors.is_empty());
}

#[test]
fn metadata_refuses_missing_author() {
    let error = meta_data_derive_macro(&user(), &vec![field_author("id", "bob")]).unwrap_err();
    assert_eq!(error.synthesizer, Synthesizer::MetaData);
    assert_eq!(error.fault, Fault::MissingAuthor);
    assert_eq!(error.owner, "User");
    assert_eq!(error.subject, "User");
    assert_eq!(error.message(), "An author directive is required by MetaData: User in User");
}

#[test]
fn metadata_refuses_repeated_author() {
    let error = meta_data_derive_macro(&user(), &vec![author("ann", None), author("bob", Some(1))]).unwrap_err();
    assert_eq!(error.fault, Fault::DuplicateAuthor);
}

#[test]
fn metadata_refuses_author_of_unknown_field() {
    let directives = vec![author("ann", None), field_author("fax", "bob")];
    let error = meta_data_derive_macro(&user(), &directives).unwrap_err();
    assert_eq!(error.fault, Fault::UnknownAuthorField);
    assert_eq!(error.subject, "fax");
}

#[test]
fn metadata_refuses_repeated_field_author() {
    let directives = vec![author("ann", None), field_author("email", "bob"), field_author("email", "cy")];
    let error = meta_data_derive_macro(&user(), &directives).unwrap_err();
    assert_eq!(error.fault, Fault::DuplicateFieldAuthor);
    assert_eq!(error.subject, "email");
}

#[test]
fn metadata_refuses_enum() {
    let error = meta_data_derive_macro(&status(), &vec![author("ann", None)]).unwrap_err();
    assert_eq!(error.fault, Fault::EnumNotSupported);
    assert_eq!(error.owner, "Status");
}

#[test]
fn metadata_ignores_table_directives() {
    let directives =
        vec![Directive::Table(TableDirective { table_name: "UserRow".to_string() }), author("ann", Some(2))];
    let record = meta_data_derive_macro(&user(), &directives).unwrap();
    assert_eq!(record.serial_version, 2);
}

#[test]
fn reflection_lists_name_and_fields() {
    let reflection = reflective_derive_macro(&user()).unwrap();
    assert_eq!(reflection.name(), "User");
    assert_eq!(reflection.fields(), vec!["id", "email", "phone"]);
}

#[test]
fn reflection_of_a_struct_without_fields() {
    let decl = TypeDeclaration::Struct { name: "Unit".to_string(), fields: vec![] };
    let reflection = reflective_derive_macro(&decl).unwrap();
    assert_eq!(reflection.name(), "Unit");
    assert!(reflection.fields().is_empty());
}

#[test]
fn reflection_refuses_enum() {
    let error = reflective_derive_macro(&status()).unwrap_err();
    assert_eq!(error.synthesizer, Synthesizer::Reflective);
    assert_eq!(error.fault, Fault::EnumNotSupported);
    assert_eq!(error.message(), "Enums are not supported by Reflective: Status in Status");
}

#[test]
fn jsonb_binds_structs_only() {
    assert_eq!(as_jsonb_derive_macro(&user()).unwrap().owner, "User");
    let error = as_jsonb_derive_macro(&status()).unwrap_err();
    assert_eq!(error.synthesizer, Synthesizer::AsJsonb);
    assert_eq!(error.fault, Fault::EnumNotSupported);
    assert_eq!(error.owner, "Status");
}

#[test]
fn model_accessors() {
    assert_eq!(user().name(), "User");
    assert!(user().is_struct());
    assert!(!status().is_struct());
    assert_eq!(Synthesizer::SetEnum.label(), "SetEnum");
    assert_eq!(Fault::DuplicateColumn.phrase(), "Only one column directive per field is accepted");
    let error = SchemaError::new(
        Synthesizer::AsTable,
        Fault::DuplicateColumn,
        &"User".to_string(),
        &"email".to_string(),
    );
    assert_eq!(error.message(), "Only one column directive per field is accepted by AsTable: email in User");
}
