//! Tests of the runtime factory: empty slots, setters, relation
//! customization, and the construction protocol against the in-memory
//! store.

use fabrique::factory::{Customization, Factory, Registry};
use fabrique::factory_analysis::{FactoryAnalysis, FactoryAnalysisOutput};
use fabrique::persist::{MemoryStore, Persistable};
use fabrique::schema::{Annotation, AnnotationValue, FieldDef, RecordShape, ShapeData, StructFields};
use fabrique::values::{FieldType, Record, Value};

fn named_struct(ident: &str, fields: Vec<FieldDef>) -> RecordShape {
    RecordShape {
        ident: ident.to_string(),
        attrs: vec![],
        data: ShapeData::Struct(StructFields::Named(fields)),
    }
}

fn field(name: &str, attrs: Vec<Annotation>) -> FieldDef {
    FieldDef { ident: Some(name.to_string()), ty: FieldType::Uint, attrs }
}

fn ann(key: &str, value: AnnotationValue) -> Annotation {
    Annotation { key: key.to_string(), value }
}

fn s(text: &str) -> AnnotationValue {
    AnnotationValue::Str(text.to_string())
}

/// The analysis of `Anvil { id (primary key), hammer_id -> Hammer.id,
/// hardness, weight }`.
fn anvil_analysis() -> FactoryAnalysisOutput {
    FactoryAnalysis::from(named_struct(
        "Anvil",
        vec![
            field("id", vec![ann("primary_key", AnnotationValue::Flag)]),
            field("hammer_id", vec![ann("relation", s("Hammer")), ann("referenced_key", s("id"))]),
            field("hardness", vec![]),
            field("weight", vec![]),
        ],
    ))
    .analyze()
    .unwrap()
}

/// The analysis of `Hammer { id (primary key), weight }`.
fn hammer_analysis() -> FactoryAnalysisOutput {
    FactoryAnalysis::from(named_struct(
        "Hammer",
        vec![field("id", vec![ann("primary_key", AnnotationValue::Flag)]), field("weight", vec![])],
    ))
    .analyze()
    .unwrap()
}

fn record(ident: &str, values: Vec<(&str, u64)>) -> Record {
    Record {
        ident: ident.to_string(),
        values: values.into_iter().map(|(n, v)| (n.to_string(), Value::Uint(v))).collect(),
    }
}

#[test]
fn test_test_factory() {
    let analysis = FactoryAnalysis::from(named_struct(
        "Anvil",
        vec![field("_hardness", vec![]), field("_weight", vec![])],
    ))
    .analyze()
    .unwrap();
    let factory = Factory::new(&analysis);
    assert!(factory.slot("_hardness").is_none());
    assert!(factory.slot("_weight").is_none());
}

#[test]
fn integration_test_test_factory() {
    let anvil = anvil_analysis();
    let hammer = hammer_analysis();
    let mut registry = Registry::new();
    registry.register(hammer);
    let mut store = MemoryStore::new(16);

    let result = Factory::new(&anvil)
        .for_relation("hammer", Customization::new().set("id", Value::Uint(100)))
        .create(&registry, &mut store);

    assert!(result.is_ok());
    assert_eq!(
        result.unwrap(),
        record("Anvil", vec![("id", 0), ("hammer_id", 100), ("hardness", 0), ("weight", 0)])
    );
}

#[test]
fn test_factory_calls_all_method() {
    // Act - call the all method
    let store = MemoryStore::new(16);
    let result = store.all();

    // Assert the result
    assert!(result.is_ok());
    assert_eq!(result.unwrap(), vec![]);
}

#[test]
fn test_hammer_factory_with_multiple_fields() {
    // Arrange - create a hammer with specific values
    let hammer = hammer_analysis();
    let registry = Registry::new();
    let mut store = MemoryStore::new(16);
    let result = Factory::new(&hammer)
        .set("id", Value::Uint(42))
        .set("weight", Value::Uint(500))
        .create(&registry, &mut store);

    // Assert the result
    assert!(result.is_ok());
    assert_eq!(result.unwrap(), record("Hammer", vec![("id", 42), ("weight", 500)]));
}

#[test]
fn test_empty_factory_creates_all_defaults() {
    let hammer = hammer_analysis();
    let registry = Registry::new();
    let mut store = MemoryStore::new(16);
    let result = Factory::new(&hammer).create(&registry, &mut store);
    assert_eq!(result.unwrap(), record("Hammer", vec![("id", 0), ("weight", 0)]));
    // The store saw exactly that record.
    assert_eq!(store.records.len(), 1);
    assert_eq!(store.records[0], record("Hammer", vec![("id", 0), ("weight", 0)]));
}

#[test]
fn test_relation_created_before_owner() {
    let anvil = anvil_analysis();
    let mut registry = Registry::new();
    registry.register(hammer_analysis());
    let mut store = MemoryStore::new(16);

    let result = Factory::new(&anvil)
        .for_relation("hammer", Customization::new().set("id", Value::Uint(100)))
        .create(&registry, &mut store);

    assert!(result.is_ok());
    // The related record was created first, the owner after it.
    assert_eq!(store.records.len(), 2);
    assert_eq!(store.records[0], record("Hammer", vec![("id", 100), ("weight", 0)]));
    assert_eq!(
        store.records[1],
        record("Anvil", vec![("id", 0), ("hammer_id", 100), ("hardness", 0), ("weight", 0)])
    );
}

#[test]
fn test_explicit_field_without_callback_is_kept() {
    let anvil = anvil_analysis();
    let registry = Registry::new();
    let mut store = MemoryStore::new(16);

    let result = Factory::new(&anvil)
        .set("hammer_id", Value::Uint(7))
        .create(&registry, &mut store);

    assert_eq!(
        result.unwrap(),
        record("Anvil", vec![("id", 0), ("hammer_id", 7), ("hardness", 0), ("weight", 0)])
    );
}

#[test]
fn test_relation_callback_overwrites_explicit_field() {
    let anvil = anvil_analysis();
    let mut registry = Registry::new();
    registry.register(hammer_analysis());
    let mut store = MemoryStore::new(16);

    let result = Factory::new(&anvil)
        .set("hammer_id", Value::Uint(7))
        .for_relation("hammer", Customization::new().set("id", Value::Uint(100)))
        .create(&registry, &mut store);

    assert_eq!(
        result.unwrap(),
        record("Anvil", vec![("id", 0), ("hammer_id", 100), ("hardness", 0), ("weight", 0)])
    );
}

#[test]
fn test_later_callback_overwrites_earlier_one() {
    let anvil = anvil_analysis();
    let mut registry = Registry::new();
    registry.register(hammer_analysis());
    let mut store = MemoryStore::new(16);

    let result = Factory::new(&anvil)
        .for_relation("hammer", Customization::new().set("id", Value::Uint(1)))
        .for_relation("hammer", Customization::new().set("id", Value::Uint(2)))
        .create(&registry, &mut store);

    assert_eq!(
        result.unwrap(),
        record("Anvil", vec![("id", 0), ("hammer_id", 2), ("hardness", 0), ("weight", 0)])
    );
    // Only one related record was created: the second callback replaced the
    // first instead of accumulating.
    assert_eq!(store.records.len(), 2);
}

#[test]
fn test_store_failure_aborts_creation() {
    let anvil = anvil_analysis();
    let mut registry = Registry::new();
    registry.register(hammer_analysis());

    // Capacity zero: creating the related record already fails, and the
    // owning record is never constructed.
    let mut store = MemoryStore::new(0);
    let result = Factory::new(&anvil)
        .for_relation("hammer", Customization::new().set("id", Value::Uint(100)))
        .create(&registry, &mut store);
    assert!(result.is_err());
    assert_eq!(store.records.len(), 0);

    // Capacity one: the related record is created, then the owner fails.
    let mut store = MemoryStore::new(1);
    let result = Factory::new(&anvil)
        .for_relation("hammer", Customization::new().set("id", Value::Uint(100)))
        .create(&registry, &mut store);
    assert!(result.is_err());
    assert_eq!(store.records.len(), 1);
    assert_eq!(store.records[0], record("Hammer", vec![("id", 100), ("weight", 0)]));
}

#[test]
fn test_uncustomized_relation_falls_back_to_default() {
    // A relation without a callback is never resolved: the field falls back
    // to its type's zero value like any ordinary field.
    let anvil = anvil_analysis();
    let registry = Registry::new();
    let mut store = MemoryStore::new(16);
    let result = Factory::new(&anvil).create(&registry, &mut store);
    assert_eq!(
        result.unwrap(),
        record("Anvil", vec![("id", 0), ("hammer_id", 0), ("hardness", 0), ("weight", 0)])
    );
    assert_eq!(store.records.len(), 1);
}

#[test]
fn test_setter_returns_updated_builder_value() {
    let hammer = hammer_analysis();
    let factory = Factory::new(&hammer).set("id", Value::Uint(42));
    assert_eq!(factory.slot("id"), Some(&Value::Uint(42)));
    assert!(factory.slot("weight").is_none());
    // A name that labels no field changes nothing.
    let factory = factory.set("nonexistent", Value::Uint(1));
    assert!(factory.slot("nonexistent").is_none());
}

#[test]
fn test_text_and_boolean_defaults() {
    let analysis = FactoryAnalysis::from(named_struct(
        "Note",
        vec![
            FieldDef { ident: Some("title".to_string()), ty: FieldType::Text, attrs: vec![] },
            FieldDef { ident: Some("done".to_string()), ty: FieldType::Boolean, attrs: vec![] },
        ],
    ))
    .analyze()
    .unwrap();
    let registry = Registry::new();
    let mut store = MemoryStore::new(4);
    let result = Factory::new(&analysis)
        .set("title", Value::Text("anvil care".to_string()))
        .create(&registry, &mut store);
    let rec = result.unwrap();
    assert_eq!(rec.get("title"), Some(&Value::Text("anvil care".to_string())));
    assert_eq!(rec.get("done"), Some(&Value::Boolean(false)));
}

#[test]
fn test_two_relations_resolved_in_field_order() {
    let analysis = FactoryAnalysis::from(named_struct(
        "Bomb",
        vec![
            field("explosive_id", vec![ann("relation", s("Explosive")), ann("referenced_key", s("id"))]),
            field("hammer_id", vec![ann("relation", s("Hammer")), ann("referenced_key", s("id"))]),
        ],
    ))
    .analyze()
    .unwrap();
    let explosive = FactoryAnalysis::from(named_struct(
        "Explosive",
        vec![field("id", vec![ann("primary_key", AnnotationValue::Flag)])],
    ))
    .analyze()
    .unwrap();
    let mut registry = Registry::new();
    registry.register(explosive);
    registry.register(hammer_analysis());
    let mut store = MemoryStore::new(16);

    let result = Factory::new(&analysis)
        .for_relation("hammer", Customization::new().set("id", Value::Uint(2)))
        .for_relation("explosive", Customization::new().set("id", Value::Uint(1)))
        .create(&registry, &mut store);

    assert_eq!(result.unwrap(), record("Bomb", vec![("explosive_id", 1), ("hammer_id", 2)]));
    // Resolution follows field declaration order, not the order the
    // customizations were stored in.
    assert_eq!(store.records.len(), 3);
    assert_eq!(store.records[0], record("Explosive", vec![("id", 1)]));
    assert_eq!(store.records[1], record("Hammer", vec![("id", 2), ("weight", 0)]));
    assert_eq!(store.records[2], record("Bomb", vec![("explosive_id", 1), ("hammer_id", 2)]));
}

#[test]
fn test_unregistered_relation_target_leaves_slot_alone() {
    // A relation whose target type is not registered is skipped: the field
    // falls back to its set value or default, and nothing else is created.
    let anvil = anvil_analysis();
    let registry = Registry::new();
    let mut store = MemoryStore::new(16);
    let result = Factory::new(&anvil)
        .set("hammer_id", Value::Uint(9))
        .for_relation("hammer", Customization::new().set("id", Value::Uint(100)))
        .create(&registry, &mut store);
    assert_eq!(
        result.unwrap(),
        record("Anvil", vec![("id", 0), ("hammer_id", 9), ("hardness", 0), ("weight", 0)])
    );
    assert_eq!(store.records.len(), 1);
}
