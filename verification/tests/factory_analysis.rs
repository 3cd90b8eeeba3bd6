//! Tests of factory analysis: field attribute parsing and relation
//! derivation.

use fabrique::attrs::FabriqueFieldAttributes;
use fabrique::error::Error;
use fabrique::factory_analysis::{FactoryAnalysis, Relation};
use fabrique::schema::{Annotation, AnnotationValue, FieldDef, RecordShape, ShapeData, StructFields};
use fabrique::values::FieldType;

fn named_struct(ident: &str, fields: Vec<FieldDef>) -> RecordShape {
    RecordShape {
        ident: ident.to_string(),
        attrs: vec![],
        data: ShapeData::Struct(StructFields::Named(fields)),
    }
}

fn field(name: &str, attrs: Vec<Annotation>) -> FieldDef {
    FieldDef { ident: Some(name.to_string()), ty: FieldType::Uint, attrs }
}

fn ann(key: &str, value: AnnotationValue) -> Annotation {
    Annotation { key: key.to_string(), value }
}

fn s(text: &str) -> AnnotationValue {
    AnnotationValue::Str(text.to_string())
}

#[test]
fn test_analyze() {
    // Arrange the analysis
    let analysis = FactoryAnalysis::from(named_struct(
        "Anvil",
        vec![
            field("id", vec![ann("primary_key", AnnotationValue::Flag)]),
            field("weight", vec![]),
            field("hammer_id", vec![ann("relation", s("Hammer")), ann("referenced_key", s("id"))]),
        ],
    ));

    // Act the call to the analyze method
    let result = analysis.analyze();

    // Assert the result
    assert!(result.is_ok());
    let result = result.unwrap();
    assert_eq!(result.base_struct_ident, "Anvil");
    assert_eq!(result.fields.len(), 3);

    assert!(
        result
            .fields
            .iter()
            .find(|field| field.field.ident.as_deref() == Some("id"))
            .map(|field| {
                assert!(field.primary_key);
                assert!(field.relation.is_none());

                true
            })
            .unwrap_or(false)
    );

    assert!(
        result
            .fields
            .iter()
            .find(|field| field.field.ident.as_deref() == Some("weight"))
            .map(|field| {
                assert!(!field.primary_key);
                assert!(field.relation.is_none());

                true
            })
            .unwrap_or(false)
    );

    assert!(
        result
            .fields
            .iter()
            .find(|field| field.field.ident.as_deref() == Some("hammer_id"))
            .map(|field| {
                assert!(!field.primary_key);
                assert!(field.relation.is_some());
                let relation = field.relation.as_ref().unwrap();
                assert_eq!(relation.factory_field, "hammer_factory");
                assert_eq!(relation.referenced_type, "Hammer");
                assert_eq!(relation.referenced_key, "id");
                assert_eq!(relation.name, "hammer");

                true
            })
            .unwrap_or(false)
    );
}

#[test]
fn test_analyze_fails_explicitly_on_unknown_attribute() {
    // Arrange the analysis
    let analysis = FactoryAnalysis::from(named_struct(
        "Anvil",
        vec![field("weight", vec![ann("unknown", AnnotationValue::Boolean(true))])],
    ));

    // Act the call to the analyze method
    let result = analysis.analyze();

    // Assert the result
    assert!(result.is_err());
}

#[test]
fn test_analyze_fails_explicitly_on_invalid_relation_attribute() {
    // Arrange the analysis
    let analysis = FactoryAnalysis::from(named_struct(
        "Anvil",
        vec![field("weight", vec![ann("relation", AnnotationValue::Boolean(true))])],
    ));

    // Act the call to the analyze method
    let result = analysis.analyze();

    // Assert the result
    assert!(result.is_err());
}

#[test]
fn test_the_fields_method_handles_no_relations() {
    // Arrange the analysis
    let analysis = FactoryAnalysis::from(named_struct("Anvil", vec![]));

    // Act the call to the analyze method
    let result = analysis.fields();

    // Assert the result
    assert!(result.is_ok());
    assert_eq!(result.unwrap().len(), 0);
}

#[test]
fn test_the_fields_method_handles_some_relations() {
    // Arrange the analysis
    let analysis = FactoryAnalysis::from(named_struct(
        "Anvil",
        vec![field("hammer_id", vec![ann("relation", s("Hammer")), ann("referenced_key", s("id"))])],
    ));

    // Act the call to the analyze method
    let result = analysis.fields();

    // Assert the result
    assert!(result.is_ok());
    assert_eq!(result.unwrap().len(), 1);
}

#[test]
fn test_the_fields_method_fails_explicitely_on_no_referenced_key() {
    // Arrange the analysis
    let analysis = FactoryAnalysis::from(named_struct(
        "Anvil",
        vec![field("hammer_id", vec![ann("relation", s("Hammer"))])],
    ));

    // Act the call to the analyze method
    let result = analysis.fields();

    // Assert the result
    assert!(result.is_err());
    assert!(matches!(
        result.unwrap_err(),
        Error::MissingReferencedKey(rel) if rel == "hammer_id"
    ));
}

#[test]
fn test_the_fields_handles_implicit_referenced_key() {
    // Arrange the analysis
    let analysis = FactoryAnalysis::from(named_struct(
        "Anvil",
        vec![field("hammer_id", vec![ann("relation", s("Hammer")), ann("referenced_key", s("id"))])],
    ));

    // Act the call to the analyze method
    let result = analysis.fields();

    // Assert the result
    assert!(result.is_ok());
    let result = result.unwrap();
    assert!(
        result
            .iter()
            .find(|field| field.field.ident.as_deref() == Some("hammer_id"))
            .map(|field| {
                assert!(field.relation.is_some());
                let relation = field.relation.as_ref().unwrap();
                assert_eq!(relation.referenced_key, "id");
                assert_eq!(relation.name, "hammer");

                true
            })
            .unwrap_or(false)
    );
}

#[test]
fn test_the_fields_handles_explicit_referenced_key() {
    // Arrange the analysis
    let analysis = FactoryAnalysis::from(named_struct(
        "Anvil",
        vec![field("hammer", vec![ann("relation", s("Hammer")), ann("referenced_key", s("id"))])],
    ));

    // Act the call to the analyze method
    let result = analysis.fields();

    // Assert the result
    assert!(result.is_ok());
    let result = result.unwrap();
    assert!(
        result
            .iter()
            .find(|field| field.field.ident.as_deref() == Some("hammer"))
            .map(|field| {
                assert!(field.relation.is_some());
                let relation = field.relation.as_ref().unwrap();
                assert_eq!(relation.referenced_key, "id");
                assert_eq!(relation.name, "hammer");

                true
            })
            .unwrap_or(false)
    );
}

#[test]
fn test_the_fields_method_handles_different_annotations() {
    // Arrange the analysis; an annotation outside the factory namespace
    // never reaches the parser, so the field carries none here.
    let analysis = FactoryAnalysis::from(named_struct("Anvil", vec![field("density", vec![])]));

    // Act the call to the analyze method
    let result = analysis.fields();

    // Assert the result
    assert!(result.is_ok());
    assert_eq!(
        result.unwrap().iter().filter(|field| field.relation.is_none()).count(),
        1
    );
}

#[test]
fn test_a_relation_can_be_created() {
    // Arrange the relation
    let factory = FactoryAnalysis::from(named_struct("Anvil", vec![field("hammer_id", vec![])]));
    let field = &factory.fields().unwrap()[0];

    // Act the relation instantiation
    let result = Relation::new(
        &field.field,
        FabriqueFieldAttributes {
            primary_key: false,
            relation: Some("Hammer".to_string()),
            referenced_key: Some("id".to_string()),
            extract: None,
        },
    );

    // Assert the result
    assert!(result.is_ok());
    assert!(result.unwrap().is_some());
}

#[test]
fn test_field_attribute_parsing_fails_explicitly_on_invalid_referenced_type() {
    // Arrange the field
    let field = field(
        "hammer_id",
        vec![ann("relation", s("Not A Valid Type")), ann("referenced_key", s("id"))],
    );

    // Act the field parsing
    let result = FabriqueFieldAttributes::from_field(&field);

    // Assert the result
    assert!(result.is_err());
}

#[test]
fn test_a_relation_creation_fails_explicitly_on_unit_field() {
    // Arrange the relation with a field that has no name
    let field = FieldDef { ident: None, ty: FieldType::Uint, attrs: vec![] };

    // Act the relation instantiation
    let result = Relation::new(
        &field,
        FabriqueFieldAttributes {
            primary_key: false,
            relation: Some("Hammer".to_string()),
            referenced_key: Some("id".to_string()),
            extract: None,
        },
    );

    // Assert the result
    assert!(result.is_err());
}

#[test]
fn test_deriving_an_enum_fails_explicitly() {
    // Arrange the analysis
    let analysis = FactoryAnalysis::from(RecordShape {
        ident: "Anvil".to_string(),
        attrs: vec![],
        data: ShapeData::Enum,
    });

    // Act the call to the fields method
    let result = analysis.fields();

    // Assert the result
    assert!(result.is_err());
}

#[test]
fn test_deriving_a_tuple_struct_fails_explicitly() {
    // Arrange the analysis
    let analysis = FactoryAnalysis::from(RecordShape {
        ident: "Anvil".to_string(),
        attrs: vec![],
        data: ShapeData::Struct(StructFields::Unnamed),
    });

    // Act the call to the fields method
    let result = analysis.fields();

    // Assert the result
    assert!(result.is_err());
}

#[test]
fn test_deriving_a_unit_struct_fails_explicitly() {
    // Arrange the analysis
    let analysis = FactoryAnalysis::from(RecordShape {
        ident: "Anvil".to_string(),
        attrs: vec![],
        data: ShapeData::Struct(StructFields::Unit),
    });

    // Act the call to the fields method
    let result = analysis.fields();

    // Assert the result
    assert!(result.is_err());
}

#[test]
fn test_deriving_a_union_fails_explicitly() {
    // Arrange the analysis
    let analysis = FactoryAnalysis::from(RecordShape {
        ident: "Anvil".to_string(),
        attrs: vec![],
        data: ShapeData::Union,
    });

    // Act the call to the fields method
    let result = analysis.fields();

    // Assert the result
    assert!(result.is_err());
}
