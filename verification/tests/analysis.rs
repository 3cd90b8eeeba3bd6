//! Tests of the schema analyzer state machine and the derived storage
//! identity.

use fabrique::analysis::{Analysis, AnalysisBuilder};
use fabrique::schema::{Annotation, AnnotationValue, FieldDef, RecordShape, ShapeData, StructFields};
use fabrique::values::FieldType;

fn named_struct(ident: &str, fields: Vec<FieldDef>) -> RecordShape {
    RecordShape {
        ident: ident.to_string(),
        attrs: vec![],
        data: ShapeData::Struct(StructFields::Named(fields)),
    }
}

fn uint_field(name: &str) -> FieldDef {
    FieldDef { ident: Some(name.to_string()), ty: FieldType::Uint, attrs: vec![] }
}

#[test]
fn test_parsing_a_struct_works() {
    // Arrange the analysis
    let input = named_struct("Anvil", vec![]);
    let analysis = AnalysisBuilder::new(input);

    // Act the call to the fields method
    let result = analysis.parse_struct();

    // Assert the result
    assert!(result.is_ok());
}

#[test]
fn test_parsing_an_enum_fails_explicitly() {
    // Arrange the analysis
    let input = RecordShape { ident: "Anvil".to_string(), attrs: vec![], data: ShapeData::Enum };
    let analysis = AnalysisBuilder::new(input);

    // Act the call to the fields method
    let result = analysis.parse_struct();

    // Assert the result
    assert!(result.is_err());
}

#[test]
fn test_parsing_a_union_fails_explicitly() {
    // Arrange the analysis
    let input = RecordShape { ident: "Anvil".to_string(), attrs: vec![], data: ShapeData::Union };
    let analysis = AnalysisBuilder::new(input);

    // Act the call to the fields method
    let result = analysis.parse_struct();

    // Assert the result
    assert!(result.is_err());
}

#[test]
fn test_parsing_a_named_struct_works() {
    // Arrange the analysis
    let input = named_struct("Anvil", vec![]);
    let analysis = AnalysisBuilder::new(input);

    // Act the call to the fields method
    let result = analysis.parse_struct().unwrap().parse_fields();
    println!("analysis: {:?}", &result);

    // Assert the result
    assert!(result.is_ok());
}

#[test]
fn test_parsing_a_unit_struct_fails_explicitly() {
    // Arrange the analysis
    let input = RecordShape {
        ident: "Anvil".to_string(),
        attrs: vec![],
        data: ShapeData::Struct(StructFields::Unit),
    };
    let analysis = AnalysisBuilder::new(input);

    // Act the call to the fields method
    let result = analysis.parse_struct().unwrap().parse_fields();

    // Assert the result
    assert!(result.is_err());
}

#[test]
fn test_parsing_a_tuple_struct_fails_explicitly() {
    // Arrange the analysis
    let input = RecordShape {
        ident: "Anvil".to_string(),
        attrs: vec![],
        data: ShapeData::Struct(StructFields::Unnamed),
    };
    let analysis = AnalysisBuilder::new(input);

    // Act the call to the fields method
    let result = analysis.parse_struct().unwrap().parse_fields();

    // Assert the result
    assert!(result.is_err());
}

#[test]
fn test_analysis_fails_explicitly_on_invalid_struct() {
    // Arrange the analysis
    let input = RecordShape { ident: "Anvil".to_string(), attrs: vec![], data: ShapeData::Enum };
    let analysis = Analysis::from(input);

    // Assert the result
    assert!(analysis.is_err());
}

#[test]
fn test_analysis_fails_explicitly_on_invalid_fields() {
    // Arrange the analysis
    let input = RecordShape {
        ident: "Anvil".to_string(),
        attrs: vec![],
        data: ShapeData::Struct(StructFields::Unnamed),
    };
    let analysis = Analysis::from(input);

    // Assert the result
    assert!(analysis.is_err());
}

#[test]
fn test_validate_with_default_table_name() {
    // Arrange the analysis without a custom table name
    let input = named_struct("Anvil", vec![uint_field("id")]);

    // Act the call to the Analysis::from method
    let result = Analysis::from(input);

    // Assert the result is ok and has the default table name
    assert!(result.is_ok());
    let analysis = result.unwrap();
    assert_eq!(analysis.table_name, "anvils");
}

#[test]
fn test_validate_with_custom_table_name() {
    // Arrange the analysis with a custom table name
    let input = RecordShape {
        ident: "Anvil".to_string(),
        attrs: vec![Annotation {
            key: "table".to_string(),
            value: AnnotationValue::Str("custom_anvils".to_string()),
        }],
        data: ShapeData::Struct(StructFields::Named(vec![uint_field("id")])),
    };

    // Act the call to the Analysis::from method
    let result = Analysis::from(input);

    // Assert the result is ok and has the custom table name
    assert!(result.is_ok());
    let analysis = result.unwrap();
    assert_eq!(analysis.table_name, "custom_anvils");
}

#[test]
fn test_validate_with_unknown_attribute_fails() {
    // Arrange the analysis with an unknown attribute field
    let input = RecordShape {
        ident: "Anvil".to_string(),
        attrs: vec![Annotation {
            key: "unknown_field".to_string(),
            value: AnnotationValue::Str("value".to_string()),
        }],
        data: ShapeData::Struct(StructFields::Named(vec![uint_field("id")])),
    };

    // Act the call to the Analysis::from method
    let result = Analysis::from(input);

    // Assert the result is an error (unknown record attribute)
    assert!(result.is_err());
}

#[test]
fn test_state_constructors_compose() {
    // The states can also be built directly from their parts.
    let vs = fabrique::analysis::ValidatedStruct::new(
        "Anvil".to_string(),
        StructFields::Named(vec![uint_field("id")]),
        vec![],
    );
    let pf = vs.parse_fields().unwrap();
    let analysis = pf.validate().unwrap();
    assert_eq!(analysis.ident, "Anvil");
    assert_eq!(analysis.table_name, "anvils");

    let pf2 = fabrique::analysis::ParsedFields::new(vec![uint_field("id")], "Hammer".to_string(), vec![]);
    let analysis2 = pf2.validate().unwrap();
    assert_eq!(analysis2.table_name, "hammers");

    let analysis3 = Analysis::new(vec![], "Anvil".to_string(), "custom".to_string());
    assert_eq!(analysis3.table_name, "custom");
}
