use schema_derive::extract::{field_directives, field_occurrence, is_declared, type_directive, FieldLevel, Occurrence, TypeLevel};
use schema_derive::mirror::{as_table_derive_macro, ColumnBinding, MirrorRow, MirrorType};
use schema_derive::model::{
    AuthorDirective, ColumnDirective, Directive, Fault, FieldAuthorDirective, FieldDecl, Payload, Synthesizer,
    TableDirective, TypeDeclaration, VariantDecl,
};

#[derive(Clone, Debug, PartialEq)]
enum Value {
    Int(i64),
    Text(String),
}

fn field(name: &str, declared_type: &str) -> FieldDecl {
    FieldDecl { name: name.to_string(), declared_type: declared_type.to_string() }
}

fn table(name: &str) -> Directive {
    Directive::Table(TableDirective { table_name: name.to_string() })
}

fn column(field_name: &str, column_type: &str, from: &str, to: &str) -> Directive {
    Directive::Column(ColumnDirective {
        field_name: field_name.to_string(),
        column_type: column_type.to_string(),
        from_converter: from.to_string(),
        to_converter: to.to_string(),
    })
}

fn user() -> TypeDeclaration {
    TypeDeclaration::Struct {
        name: "User".to_string(),
        fields: vec![field("id", "i64"), field("email", "String")],
    }
}

fn user_directives() -> Vec<Directive> {
    vec![
        table("UserRow"),
        column("id", "i64", "identity", "identity"),
        column("email", "String", "identity", "identity"),
    ]
}

fn account() -> TypeDeclaration {
    TypeDeclaration::Struct {
        name: "Account".to_string(),
        fields: vec![field("id", "i64"), field("session", "String"), field("balance", "i64")],
    }
}

fn account_directives() -> Vec<Directive> {
    vec![
        column("balance", "String", "to_text", "to_int"),
        table("AccountRow"),
        column("id", "i64", "identity", "identity"),
    ]
}

fn forth(converter: &String, value: &Value) -> Value {
    match (converter.as_str(), value) {
        ("to_text", Value::Int(n)) => Value::Text(n.to_string()),
        _ => value.clone(),
    }
}

fn back(converter: &String, value: &Value) -> Value {
    match (converter.as_str(), value) {
        ("to_int", Value::Text(text)) => Value::Int(text.parse().unwrap()),
        _ => value.clone(),
    }
}

#[test]
fn mirror_scenario_user() {
    let mirror = as_table_derive_macro(&user(), &user_directives()).unwrap();
    assert_eq!(mirror.source_name, "User");
    assert_eq!(mirror.table_name, "UserRow");
    let source = vec![Value::Int(1), Value::Text("a@b.com".to_string())];
    let row = mirror.to_mirror(&source, forth);
    assert_eq!(row.values, vec![Some(Value::Int(1)), Some(Value::Text("a@b.com".to_string()))]);
    let partial = MirrorRow { values: vec![row.values[0].clone(), None] };
    let defaults = vec![Value::Int(0), Value::Text(String::new())];
    let restored = mirror.from_mirror(&partial, defaults, back);
    assert_eq!(restored, vec![Value::Int(1), Value::Text(String::new())]);
}

#[test]
fn mirror_keeps_every_field_of_the_source() {
    let mirror = as_table_derive_macro(&account(), &account_directives()).unwrap();
    let names: Vec<&str> = mirror.fields.iter().map(|f| f.name.as_str()).collect();
    assert_eq!(names, vec!["id", "session", "balance"]);
    assert_eq!(
        mirror.fields[0].column,
        Some(ColumnBinding {
            column_type: "i64".to_string(),
            from_converter: "identity".to_string(),
            to_converter: "identity".to_string(),
        })
    );
    assert_eq!(mirror.fields[1].column, None);
    assert_eq!(
        mirror.fields[2].column,
        Some(ColumnBinding {
            column_type: "String".to_string(),
            from_converter: "to_text".to_string(),
            to_converter: "to_int".to_string(),
        })
    );
}

#[test]
fn mirror_mapped_fields_are_present_and_others_absent() {
    let mirror = as_table_derive_macro(&account(), &account_directives()).unwrap();
    let source = vec![Value::Int(7), Value::Text("token".to_string()), Value::Int(250)];
    let row = mirror.to_mirror(&source, forth);
    assert_eq!(row.values, vec![Some(Value::Int(7)), None, Some(Value::Text("250".to_string()))]);
}

#[test]
fn mirror_round_trip_restores_mapped_fields() {
    let mirror = as_table_derive_macro(&account(), &account_directives()).unwrap();
    let source = vec![Value::Int(7), Value::Text("token".to_string()), Value::Int(250)];
    let defaults = vec![Value::Int(0), Value::Text("none".to_string()), Value::Int(0)];
    let row = mirror.to_mirror(&source, forth);
    let restored = mirror.from_mirror(&row, defaults, back);
    assert_eq!(restored, vec![Value::Int(7), Value::Text("none".to_string()), Value::Int(250)]);
}

#[test]
fn mirror_ignores_a_present_value_of_an_unmapped_field() {
    let mirror = as_table_derive_macro(&account(), &account_directives()).unwrap();
    let row = MirrorRow {
        values: vec![None, Some(Value::Text("stale".to_string())), Some(Value::Text("12".to_string()))],
    };
    let defaults = vec![Value::Int(-1), Value::Text("none".to_string()), Value::Int(-1)];
    let restored = mirror.from_mirror(&row, defaults, back);
    assert_eq!(restored, vec![Value::Int(-1), Value::Text("none".to_string()), Value::Int(12)]);
}

#[derive(Debug, PartialEq)]
struct Present(usize);

impl From<MirrorRow<Value>> for Present {
    fn from(row: MirrorRow<Value>) -> Self {
        Present(row.values.iter().filter(|value| value.is_some()).count())
    }
}

#[test]
fn mirror_row_converts_on_to_a_target() {
    let mirror = as_table_derive_macro(&account(), &account_directives()).unwrap();
    let source = vec![Value::Int(7), Value::Text("token".to_string()), Value::Int(250)];
    let row = mirror.to_mirror(&source, forth);
    let present: Present = row.to();
    assert_eq!(present, Present(2));
}

#[test]
fn mirror_of_a_struct_without_columns_is_all_absent() {
    let mirror = as_table_derive_macro(&user(), &vec![table("UserRow")]).unwrap();
    let source = vec![Value::Int(1), Value::Text("a@b.com".to_string())];
    let row = mirror.to_mirror(&source, forth);
    assert_eq!(row.values, vec![None, None]);
    let restored = mirror.from_mirror(&row, vec![Value::Int(9), Value::Text("d".to_string())], back);
    assert_eq!(restored, vec![Value::Int(9), Value::Text("d".to_string())]);
}

#[test]
fn mirror_refuses_enum() {
    let decl = TypeDeclaration::Enum {
        name: "Status".to_string(),
        variants: vec![VariantDecl { name: "Active".to_string(), payload: Payload::Unit }],
    };
    let error = as_table_derive_macro(&decl, &user_directives()).unwrap_err();
    assert_eq!(error.synthesizer, Synthesizer::AsTable);
    assert_eq!(error.fault, Fault::EnumNotSupported);
    assert_eq!(error.owner, "Status");
    assert_eq!(error.subject, "Status");
    assert_eq!(error.message(), "Enums are not supported by AsTable: Status in Status");
}

#[test]
fn mirror_refuses_missing_table() {
    let directives = vec![column("id", "i64", "identity", "identity")];
    let error = as_table_derive_macro(&user(), &directives).unwrap_err();
    assert_eq!(error.fault, Fault::MissingTable);
    assert_eq!(error.owner, "User");
    assert_eq!(error.subject, "User");
}

#[test]
fn mirror_refuses_repeated_table() {
    let directives = vec![table("UserRow"), column("id", "i64", "identity", "identity"), table("Users")];
    let error = as_table_derive_macro(&user(), &directives).unwrap_err();
    assert_eq!(error.fault, Fault::DuplicateTable);
    assert_eq!(error.subject, "User");
}

#[test]
fn mirror_refuses_column_on_unknown_field() {
    let directives = vec![
        table("UserRow"),
        column("id", "i64", "identity", "identity"),
        column("phone", "String", "identity", "identity"),
        column("fax", "String", "identity", "identity"),
    ];
    let error = as_table_derive_macro(&user(), &directives).unwrap_err();
    assert_eq!(error.fault, Fault::UnknownColumnField);
    assert_eq!(error.owner, "User");
    assert_eq!(error.subject, "phone");
    assert_eq!(error.message(), "A column directive names an unknown field by AsTable: phone in User");
}

#[test]
fn mirror_refuses_repeated_column() {
    let directives = vec![
        table("UserRow"),
        column("email", "String", "identity", "identity"),
        column("id", "i64", "identity", "identity"),
        column("email", "Text", "identity", "identity"),
        column("id", "i32", "identity", "identity"),
    ];
    let error = as_table_derive_macro(&user(), &directives).unwrap_err();
    assert_eq!(error.fault, Fault::DuplicateColumn);
    assert_eq!(error.subject, "id");
}

#[test]
fn mirror_error_order_table_before_columns() {
    let directives = vec![column("phone", "String", "identity", "identity")];
    let error = as_table_derive_macro(&user(), &directives).unwrap_err();
    assert_eq!(error.fault, Fault::MissingTable);
}

#[test]
fn mirror_ignores_directives_of_other_synthesizers() {
    let mut directives = user_directives();
    directives.push(Directive::Author(AuthorDirective { author: "ann".to_string(), serial_version: None }));
    directives.push(Directive::FieldAuthor(FieldAuthorDirective {
        field_name: "nowhere".to_string(),
        author: "bob".to_string(),
    }));
    let mirror: MirrorType = as_table_derive_macro(&user(), &directives).unwrap();
    assert_eq!(mirror.fields.len(), 2);
}

#[test]
fn extract_type_directive_finds_the_only_one() {
    let owner = "User".to_string();
    let directives = account_directives();
    assert_eq!(type_directive(Synthesizer::AsTable, &owner, &directives, TypeLevel::Table), Ok(1));
    let error = type_directive(Synthesizer::MetaData, &owner, &directives, TypeLevel::Author).unwrap_err();
    assert_eq!(error.fault, Fault::MissingAuthor);
    assert_eq!(error.synthesizer, Synthesizer::MetaData);
}

#[test]
fn extract_field_directives_gives_one_slot_per_field() {
    let owner = "Account".to_string();
    let fields = vec![field("id", "i64"), field("session", "String"), field("balance", "i64")];
    let slots =
        field_directives(Synthesizer::AsTable, &owner, &fields, &account_directives(), FieldLevel::Column).unwrap();
    assert_eq!(slots, vec![Some(2), None, Some(0)]);
    let none =
        field_directives(Synthesizer::MetaData, &owner, &fields, &account_directives(), FieldLevel::FieldAuthor)
            .unwrap();
    assert_eq!(none, vec![None, None, None]);
}

#[test]
fn extract_field_occurrence_counts() {
    let directives = vec![
        column("id", "i64", "a", "b"),
        column("email", "String", "a", "b"),
        column("id", "i32", "a", "b"),
    ];
    assert_eq!(field_occurrence(&directives, FieldLevel::Column, &"id".to_string()), Occurrence::Repeated);
    assert_eq!(field_occurrence(&directives, FieldLevel::Column, &"email".to_string()), Occurrence::Once(1));
    assert_eq!(field_occurrence(&directives, FieldLevel::Column, &"phone".to_string()), Occurrence::Missing);
    assert_eq!(field_occurrence(&directives, FieldLevel::FieldAuthor, &"id".to_string()), Occurrence::Missing);
}

#[test]
fn extract_is_declared() {
    let fields = vec![field("id", "i64"), field("email", "String")];
    assert!(is_declared(&fields, &"email".to_string()));
    assert!(!is_declared(&fields, &"Email".to_string()));
    assert!(!is_declared(&vec![], &"id".to_string()));
}

#[test]
fn mirror_serializes_present_fields_only() {
    let mirror = as_table_derive_macro(&account(), &account_directives()).unwrap();
    let source = vec![Value::Int(7), Value::Text("token".to_string()), Value::Int(250)];
    let row = mirror.to_mirror(&source, forth);
    assert_eq!(
        mirror.present_entries(&row),
        vec![("id", &Value::Int(7)), ("balance", &Value::Text("250".to_string()))]
    );
    let partial = MirrorRow { values: vec![None, None, Some(Value::Int(1))] };
    assert_eq!(mirror.present_entries(&partial), vec![("balance", &Value::Int(1))]);
    let empty: MirrorRow<Value> = MirrorRow { values: vec![None, None, None] };
    assert!(mirror.present_entries(&empty).is_empty());
}
