//! Scenario tests: attribute parsing corner cases, error variants, derived
//! names, analysis determinism, and the storage queries.

use fabrique::attrs::{FabriqueAttrs, FabriqueFieldAttributes};
use fabrique::error::Error;
use fabrique::factory_analysis::FactoryAnalysis;
use fabrique::names::{base_name_of, factory_ident, is_valid_ident, str_eq, to_lower};
use fabrique::queries::PersistableCodegen;
use fabrique::schema::{Annotation, AnnotationValue, FieldDef, RecordShape, ShapeData, StructFields};
use fabrique::values::FieldType;

fn named_struct(ident: &str, fields: Vec<FieldDef>) -> RecordShape {
    RecordShape {
        ident: ident.to_string(),
        attrs: vec![],
        data: ShapeData::Struct(StructFields::Named(fields)),
    }
}

fn typed_field(name: &str, ty: FieldType, attrs: Vec<Annotation>) -> FieldDef {
    FieldDef { ident: Some(name.to_string()), ty, attrs }
}

fn field(name: &str, attrs: Vec<Annotation>) -> FieldDef {
    typed_field(name, FieldType::Uint, attrs)
}

fn ann(key: &str, value: AnnotationValue) -> Annotation {
    Annotation { key: key.to_string(), value }
}

fn s(text: &str) -> AnnotationValue {
    AnnotationValue::Str(text.to_string())
}

#[test]
fn test_unknown_field_attribute_is_rejected_with_its_key() {
    let f = field("weight", vec![ann("colour", s("red"))]);
    let err = FabriqueFieldAttributes::from_field(&f).unwrap_err();
    assert_eq!(err, Error::UnknownAttribute("colour".to_string()));
}

#[test]
fn test_numeric_literal_for_recognized_key_is_unparsable() {
    let f = field("id", vec![ann("primary_key", AnnotationValue::Int(5))]);
    let err = FabriqueFieldAttributes::from_field(&f).unwrap_err();
    assert_eq!(err, Error::UnparsableLiteral("primary_key".to_string()));
}

#[test]
fn test_invalid_identifier_string_is_unparsable_type() {
    let f = field("hammer_id", vec![ann("relation", s("Not A Valid Type"))]);
    let err = FabriqueFieldAttributes::from_field(&f).unwrap_err();
    assert_eq!(err, Error::UnparsableType("Not A Valid Type".to_string()));
}

#[test]
fn test_primary_key_boolean_string_coercion() {
    let f = field("id", vec![ann("primary_key", s("true"))]);
    assert!(FabriqueFieldAttributes::from_field(&f).unwrap().primary_key);
    let f = field("id", vec![ann("primary_key", s("false"))]);
    assert!(!FabriqueFieldAttributes::from_field(&f).unwrap().primary_key);
    let f = field("id", vec![ann("primary_key", s("maybe"))]);
    assert_eq!(
        FabriqueFieldAttributes::from_field(&f).unwrap_err(),
        Error::UnparsableLiteral("primary_key".to_string())
    );
}

#[test]
fn test_primary_key_boolean_literal_and_flag() {
    let f = field("id", vec![ann("primary_key", AnnotationValue::Boolean(false))]);
    assert!(!FabriqueFieldAttributes::from_field(&f).unwrap().primary_key);
    let f = field("id", vec![ann("primary_key", AnnotationValue::Flag)]);
    assert!(FabriqueFieldAttributes::from_field(&f).unwrap().primary_key);
}

#[test]
fn test_relation_as_bare_path_is_accepted() {
    let f = field(
        "hammer_id",
        vec![
            ann("relation", AnnotationValue::Path("Hammer".to_string())),
            ann("referenced_key", AnnotationValue::Path("id".to_string())),
        ],
    );
    let attrs = FabriqueFieldAttributes::from_field(&f).unwrap();
    assert_eq!(attrs.relation.as_deref(), Some("Hammer"));
    assert_eq!(attrs.referenced_key.as_deref(), Some("id"));
}

#[test]
fn test_extract_is_an_alias_of_referenced_key() {
    let analysis = FactoryAnalysis::from(named_struct(
        "Anvil",
        vec![field("hammer_id", vec![ann("relation", s("Hammer")), ann("extract", s("id"))])],
    ));
    let fields = analysis.fields().unwrap();
    let relation = fields[0].relation.as_ref().unwrap();
    assert_eq!(relation.referenced_key, "id");
    assert_eq!(relation.name, "hammer");
}

#[test]
fn test_referenced_key_wins_over_extract() {
    let analysis = FactoryAnalysis::from(named_struct(
        "Anvil",
        vec![field(
            "hammer_id",
            vec![
                ann("relation", s("Hammer")),
                ann("extract", s("weight")),
                ann("referenced_key", s("id")),
            ],
        )],
    ));
    let fields = analysis.fields().unwrap();
    let relation = fields[0].relation.as_ref().unwrap();
    assert_eq!(relation.referenced_key, "id");
}

#[test]
fn test_repeated_key_last_write_wins() {
    let f = field(
        "hammer_id",
        vec![
            ann("relation", s("Hammer")),
            ann("relation", s("Mallet")),
            ann("referenced_key", s("id")),
        ],
    );
    let attrs = FabriqueFieldAttributes::from_field(&f).unwrap();
    assert_eq!(attrs.relation.as_deref(), Some("Mallet"));
}

#[test]
fn test_missing_key_fails_without_suffix_pattern() {
    // A relation field whose name offers no `_<suffix>` pattern and that
    // names no key explicitly fails with the field's name.
    let analysis = FactoryAnalysis::from(named_struct(
        "Anvil",
        vec![field("hammer", vec![ann("relation", s("Hammer"))])],
    ));
    let err = analysis.fields().unwrap_err();
    assert_eq!(err, Error::MissingReferencedKey("hammer".to_string()));
}

#[test]
fn test_base_name_derivation() {
    // `hammer_id` with key `id` strips the suffix; `hammer` keeps its name.
    assert_eq!(base_name_of("hammer_id", "id"), "hammer");
    assert_eq!(base_name_of("hammer", "id"), "hammer");
    assert_eq!(base_name_of("hammer_weight", "id"), "hammer_weight");
    assert_eq!(base_name_of("a_b_id", "id"), "a_b");
}

#[test]
fn test_factory_ident_naming() {
    assert_eq!(factory_ident("Anvil"), "AnvilFactory");
    assert_eq!(factory_ident("Hammer"), "HammerFactory");
}

#[test]
fn test_identifier_validity() {
    assert!(is_valid_ident("Hammer"));
    assert!(is_valid_ident("_hardness"));
    assert!(is_valid_ident("a1_b2"));
    assert!(!is_valid_ident(""));
    assert!(!is_valid_ident("Not A Valid Type"));
    assert!(!is_valid_ident("1abc"));
}

#[test]
fn test_lowercase_folding() {
    assert_eq!(to_lower("Anvil"), "anvil");
    assert_eq!(to_lower("ABC"), "abc");
    assert_eq!(to_lower("a_b9"), "a_b9");
}

#[test]
fn test_str_eq_disagrees_on_different_strings() {
    assert!(str_eq("anvil", "anvil"));
    assert!(!str_eq("anvil", "anvils"));
    assert!(!str_eq("anvil", "anvik"));
}

#[test]
fn test_error_messages() {
    assert_eq!(
        Error::UnsupportedDataStructureEnum.message(),
        "Factory can only be derived from named structs, enum given"
    );
    assert_eq!(
        Error::MissingReferencedKey("hammer_id".to_string()).message(),
        "Missing `referenced_key` attribute for relation hammer_id"
    );
    assert_eq!(
        Error::UnknownAttribute("colour".to_string()).message(),
        "unknown attribute `colour`"
    );
}

#[test]
fn test_record_attrs_accept_only_table() {
    let attrs = vec![ann("table", s("custom_anvils"))];
    let parsed = FabriqueAttrs::from_annotations(&attrs).unwrap();
    assert_eq!(parsed.table.as_deref(), Some("custom_anvils"));

    let attrs = vec![ann("table", AnnotationValue::Int(3))];
    assert_eq!(
        FabriqueAttrs::from_annotations(&attrs).unwrap_err(),
        Error::UnparsableLiteral("table".to_string())
    );
}

#[test]
fn test_analysis_is_deterministic() {
    let make = || {
        named_struct(
            "Anvil",
            vec![
                field("id", vec![ann("primary_key", AnnotationValue::Flag)]),
                field("hammer_id", vec![ann("relation", s("Hammer")), ann("referenced_key", s("id"))]),
                field("weight", vec![]),
            ],
        )
    };
    let a = FactoryAnalysis::from(make()).analyze().unwrap();
    let b = FactoryAnalysis::from(make()).analyze().unwrap();
    assert_eq!(a.base_struct_ident, b.base_struct_ident);
    assert_eq!(a.fields.len(), b.fields.len());
    for (fa, fb) in a.fields.iter().zip(b.fields.iter()) {
        assert_eq!(fa.field.ident, fb.field.ident);
        assert_eq!(fa.primary_key, fb.primary_key);
        match (&fa.relation, &fb.relation) {
            (None, None) => {},
            (Some(ra), Some(rb)) => {
                assert_eq!(ra.factory_field, rb.factory_field);
                assert_eq!(ra.referenced_type, rb.referenced_type);
                assert_eq!(ra.referenced_key, rb.referenced_key);
                assert_eq!(ra.name, rb.name);
            },
            _ => panic!("relation lists differ"),
        }
    }
}

#[test]
fn test_generate_fn_all_query() {
    let input = named_struct("Anvil", vec![typed_field("id", FieldType::Text, vec![])]);
    let codegen = PersistableCodegen::from(input).unwrap();
    assert_eq!(codegen.select_all_query(), "SELECT id FROM anvils");
}

#[test]
fn test_select_query_joins_columns() {
    let input = named_struct(
        "Anvil",
        vec![field("id", vec![]), field("hardness", vec![]), field("weight", vec![])],
    );
    let codegen = PersistableCodegen::from(input).unwrap();
    assert_eq!(codegen.column_list(), "id, hardness, weight");
    assert_eq!(codegen.select_all_query(), "SELECT id, hardness, weight FROM anvils");
}

#[test]
fn test_select_query_uses_table_override() {
    let input = RecordShape {
        ident: "Anvil".to_string(),
        attrs: vec![ann("table", s("custom_anvils"))],
        data: ShapeData::Struct(StructFields::Named(vec![field("id", vec![])])),
    };
    let codegen = PersistableCodegen::from(input).unwrap();
    assert_eq!(codegen.select_all_query(), "SELECT id FROM custom_anvils");
}

#[test]
fn test_codegen_from_rejects_invalid_shape() {
    let input = RecordShape { ident: "Anvil".to_string(), attrs: vec![], data: ShapeData::Enum };
    assert!(PersistableCodegen::from(input).is_err());
}
