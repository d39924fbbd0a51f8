use schema_derive::codec::{is_faithful_table, position, set_enum_derive_macro, EnumCodec};
use schema_derive::model::{Fault, FieldDecl, Payload, Synthesizer, TypeDeclaration, VariantDecl};
use std::borrow::Cow;

fn unit(name: &str) -> VariantDecl {
    VariantDecl { name: name.to_string(), payload: Payload::Unit }
}

fn status() -> TypeDeclaration {
    TypeDeclaration::Enum {
        name: "Status".to_string(),
        variants: vec![unit("Active"), unit("Suspended"), unit("Closed")],
    }
}

fn status_codec() -> EnumCodec {
    set_enum_derive_macro(&status(), "Active").unwrap()
}

#[test]
fn codec_renders_uppercase() {
    let codec = status_codec();
    assert_eq!(codec.render(0), "ACTIVE");
    assert_eq!(codec.render(1), "SUSPENDED");
    assert_eq!(codec.render(2), "CLOSED");
    assert_eq!(codec.to_string(1), "SUSPENDED".to_string());
    assert_eq!(codec.serialize(2), "CLOSED");
}

#[test]
fn codec_parses_any_case() {
    let codec = status_codec();
    assert_eq!(codec.parse("suspended"), 1);
    assert_eq!(codec.parse("SUSPENDED"), 1);
    assert_eq!(codec.parse("SuSpEnDeD"), 1);
    assert_eq!(codec.parse("closed"), 2);
    assert_eq!(codec.parse("Active"), 0);
}

#[test]
fn codec_defaults_on_unknown_text() {
    let codec = set_enum_derive_macro(&status(), "Closed").unwrap();
    assert_eq!(codec.default_variant(), 2);
    assert_eq!(codec.parse("unknown"), 2);
    assert_eq!(codec.parse(""), 2);
    assert_eq!(codec.parse("suspended "), 2);
}

#[test]
fn codec_scenario_status() {
    let codec = status_codec();
    assert_eq!(codec.render(1), "SUSPENDED");
    assert_eq!(codec.parse("suspended"), 1);
    assert_eq!(codec.parse("SUSPENDED"), 1);
    assert_eq!(codec.parse("unknown"), 0);
}

#[test]
fn codec_round_trips_every_variant() {
    let codec = status_codec();
    for variant in 0..codec.len() {
        assert_eq!(codec.parse(codec.render(variant)), variant);
    }
    assert!(codec.is_canonical());
}

#[test]
fn codec_renders_distinct_variants_differently() {
    let codec = status_codec();
    for v in 0..codec.len() {
        for w in 0..codec.len() {
            if v != w {
                assert_ne!(codec.render(v), codec.render(w));
            }
        }
    }
}

#[test]
fn codec_entry_points_agree_with_parse() {
    let codec = status_codec();
    assert_eq!(codec.parse_owned("closed".to_string()), 2);
    assert_eq!(codec.parse_optional(Some("Closed")), 2);
    assert_eq!(codec.parse_optional(None), 0);
    assert_eq!(codec.parse_optional_owned(Some("CLOSED".to_string())), 2);
    assert_eq!(codec.parse_optional_owned(None), 0);
    assert_eq!(codec.parse_cow(Cow::Borrowed("suspended")), 1);
    assert_eq!(codec.parse_cow(Cow::Owned("Suspended".to_string())), 1);
    assert_eq!(codec.parse_cow(Cow::Borrowed("nothing")), 0);
}

#[test]
fn codec_getters() {
    let codec = status_codec();
    assert_eq!(codec.enum_name(), "Status");
    assert_eq!(codec.len(), 3);
    assert_eq!(codec.default_variant(), 0);
    assert_eq!(codec.variant_name(1), "Suspended");
}

#[test]
fn codec_refuses_struct() {
    let decl = TypeDeclaration::Struct {
        name: "User".to_string(),
        fields: vec![FieldDecl { name: "id".to_string(), declared_type: "i64".to_string() }],
    };
    let error = set_enum_derive_macro(&decl, "Active").unwrap_err();
    assert_eq!(error.synthesizer, Synthesizer::SetEnum);
    assert_eq!(error.fault, Fault::StructNotSupported);
    assert_eq!(error.owner, "User");
    assert_eq!(error.subject, "User");
    assert_eq!(error.message(), "Structs are not supported by SetEnum: User in User");
}

#[test]
fn codec_refuses_payload_and_names_the_variant() {
    let decl = TypeDeclaration::Enum {
        name: "Event".to_string(),
        variants: vec![
            unit("Started"),
            VariantDecl { name: "Failed".to_string(), payload: Payload::Unnamed },
            VariantDecl { name: "Moved".to_string(), payload: Payload::Named },
        ],
    };
    let error = set_enum_derive_macro(&decl, "Started").unwrap_err();
    assert_eq!(error.fault, Fault::UnnamedFieldsNotSupported);
    assert_eq!(error.owner, "Event");
    assert_eq!(error.subject, "Failed");
    assert_eq!(error.message(), "Unnamed fields are not supported by SetEnum: Failed in Event");
}

#[test]
fn codec_refuses_named_payload() {
    let decl = TypeDeclaration::Enum {
        name: "Event".to_string(),
        variants: vec![VariantDecl { name: "Moved".to_string(), payload: Payload::Named }, unit("Done")],
    };
    let error = set_enum_derive_macro(&decl, "Done").unwrap_err();
    assert_eq!(error.fault, Fault::NamedFieldsNotSupported);
    assert_eq!(error.subject, "Moved");
}

#[test]
fn codec_refuses_unknown_default() {
    let error = set_enum_derive_macro(&status(), "active").unwrap_err();
    assert_eq!(error.fault, Fault::UnknownDefaultVariant);
    assert_eq!(error.owner, "Status");
    assert_eq!(error.subject, "active");
    let empty = TypeDeclaration::Enum { name: "Never".to_string(), variants: vec![] };
    let error = set_enum_derive_macro(&empty, "Any").unwrap_err();
    assert_eq!(error.fault, Fault::UnknownDefaultVariant);
}

#[test]
fn codec_first_match_wins_on_colliding_names() {
    let decl = TypeDeclaration::Enum {
        name: "Level".to_string(),
        variants: vec![unit("Low"), unit("High"), unit("HIGH")],
    };
    let codec = set_enum_derive_macro(&decl, "Low").unwrap();
    assert_eq!(codec.parse("high"), 1);
    assert_eq!(codec.parse(codec.render(2)), 1);
    assert_eq!(codec.render(1), codec.render(2));
    assert!(!codec.is_canonical());
}

#[test]
fn codec_names_that_uppercase_changes_are_not_canonical() {
    let decl = TypeDeclaration::Enum {
        name: "Street".to_string(),
        variants: vec![unit("Weg"), unit("Straße")],
    };
    let codec = set_enum_derive_macro(&decl, "Weg").unwrap();
    assert_eq!(codec.render(1), "STRASSE");
    assert_eq!(codec.parse("STRASSE"), 0);
    assert_eq!(codec.parse("straße"), 1);
    assert!(!codec.is_canonical());
}

#[test]
fn codec_folds_beyond_ascii() {
    let decl = TypeDeclaration::Enum {
        name: "Fruit".to_string(),
        variants: vec![unit("Birne"), unit("Äpfel")],
    };
    let codec = set_enum_derive_macro(&decl, "Birne").unwrap();
    assert_eq!(codec.parse("äPFEL"), 1);
    assert_eq!(codec.render(1), "ÄPFEL");
    assert!(codec.is_canonical());
}

#[test]
fn codec_decodes_stored_text() {
    let codec = status_codec();
    assert_eq!(codec.decode(b"closed"), Ok(2));
    assert_eq!(codec.decode(b"CLOSED"), Ok(2));
    assert_eq!(codec.decode(b"gone"), Ok(0));
    assert_eq!(codec.decode(b""), Ok(0));
}

#[test]
fn codec_decode_fails_on_bytes_that_are_no_text() {
    let codec = status_codec();
    let error = codec.decode(&[0x43, 0xff, 0xfe]).unwrap_err();
    assert_eq!(error.enum_name, "Status");
    assert_eq!(error.raw, vec![0x43, 0xff, 0xfe]);
}

#[test]
fn codec_encodes_canonical_bytes() {
    let codec = status_codec();
    assert_eq!(codec.encode(1), b"SUSPENDED".to_vec());
    for variant in 0..codec.len() {
        assert_eq!(codec.decode(&codec.encode(variant)), Ok(variant));
    }
}

#[test]
fn codec_deserialize_hands_failures_on() {
    let codec = status_codec();
    assert_eq!(codec.deserialize::<String>(Ok("suspended".to_string())), Ok(1));
    assert_eq!(codec.deserialize::<String>(Ok("???".to_string())), Ok(0));
    assert_eq!(codec.deserialize(Err("broken input".to_string())), Err("broken input".to_string()));
}

#[test]
fn codec_position_finds_the_first_entry() {
    let table = vec!["a".to_string(), "b".to_string(), "b".to_string()];
    assert_eq!(position(&table, &"b".to_string()), Some(1));
    assert_eq!(position(&table, &"a".to_string()), Some(0));
    assert_eq!(position(&table, &"B".to_string()), None);
    assert_eq!(position(&Vec::new(), &"a".to_string()), None);
}

#[test]
fn codec_faithful_table() {
    let folded = vec!["low".to_string(), "high".to_string()];
    assert!(is_faithful_table(&folded, &folded.clone()));
    assert!(!is_faithful_table(&folded, &vec!["low".to_string(), "hihg".to_string()]));
    assert!(!is_faithful_table(&folded, &vec!["low".to_string()]));
    let colliding = vec!["low".to_string(), "high".to_string(), "high".to_string()];
    assert!(!is_faithful_table(&colliding, &colliding.clone()));
    assert!(is_faithful_table(&Vec::new(), &Vec::new()));
}

#[test]
fn codec_folded_names() {
    let codec = status_codec();
    assert_eq!(codec.folded_name(0), "active");
    assert_eq!(codec.folded_name(2), "closed");
}

#[test]
fn codec_default_survives_an_unrecognized_canonical_form() {
    let decl = TypeDeclaration::Enum { name: "Street".to_string(), variants: vec![unit("Straße"), unit("Weg")] };
    let codec = set_enum_derive_macro(&decl, "Straße").unwrap();
    assert_eq!(codec.parse(codec.render(0)), 0);
    assert!(!codec.is_canonical());
}
