//! The schema analyzer: a linear, forward-only state machine that validates
//! a record shape and derives the record-level storage identity.
//!
//! The states are [`AnalysisBuilder`] (unvalidated input), [`ValidatedStruct`]
//! (the input is a struct), [`ParsedFields`] (the struct has named fields),
//! and [`Analysis`] (terminal). Each transition consumes the previous state,
//! so no order of calls other than the intended one can be written.

use vstd::prelude::*;
use vstd::string::StringExecFns;
use crate::attrs::{spec_parse_record_attrs, FabriqueAttrs};
use crate::error::{Error, ErrorV};
use crate::names::{lower_chars, to_lower};
use crate::schema::{
    annotations_view, fields_view, Annotation, FieldDef, FieldDefV, RecordShape, RecordShapeV,
    ShapeData, ShapeDataV, StructFields, StructFieldsV,
};

verus! {

/// The storage identity of a record: the explicit override when one is
/// given, else the lowercased record name with `s` appended.
pub open spec fn spec_table_name(ident: Seq<char>, over: Option<Seq<char>>) -> Seq<char> {
    match over {
        Some(t) => t,
        None => lower_chars(ident) + "s"@,
    }
}

/// The abstract form of an [`Analysis`].
pub ghost struct AnalysisV {
    pub fields: Seq<FieldDefV>,
    pub ident: Seq<char>,
    pub table_name: Seq<char>,
}

/// The complete analysis of a record shape, or the first error found:
/// shape validation first, then the record-level annotations.
pub open spec fn spec_analyze_record(shape: RecordShapeV) -> Result<AnalysisV, ErrorV> {
    match shape.data {
        ShapeDataV::Enum => Err(ErrorV::UnsupportedDataStructureEnum),
        ShapeDataV::Union => Err(ErrorV::UnsupportedDataStructureUnion),
        ShapeDataV::Struct(sf) => match sf {
            StructFieldsV::Unit => Err(ErrorV::UnsupportedDataStructureUnitStruct),
            StructFieldsV::Unnamed => Err(ErrorV::UnsupportedDataStructureTupleStruct),
            StructFieldsV::Named(fields) => match spec_parse_record_attrs(shape.attrs) {
                Err(e) => Err(e),
                Ok(ra) => Ok(
                    AnalysisV {
                        fields,
                        ident: shape.ident,
                        table_name: spec_table_name(shape.ident, ra.table),
                    },
                ),
            },
        },
    }
}

/// Initial analyzer state: holds the raw record shape.
#[derive(Debug)]
pub struct AnalysisBuilder {
    input: RecordShape,
}

impl View for AnalysisBuilder {
    type V = RecordShapeV;

    closed spec fn view(&self) -> RecordShapeV {
        self.input@
    }
}

/// Analyzer state after shape validation: the input is a struct.
#[derive(Debug)]
pub struct ValidatedStruct {
    /// The record type's name.
    pub ident: String,
    data: StructFields,
    attrs: Vec<Annotation>,
}

/// The abstract form of a [`ValidatedStruct`].
pub ghost struct ValidatedStructV {
    pub ident: Seq<char>,
    pub data: StructFieldsV,
    pub attrs: Seq<crate::schema::AnnotationV>,
}

impl View for ValidatedStruct {
    type V = ValidatedStructV;

    closed spec fn view(&self) -> ValidatedStructV {
        ValidatedStructV {
            ident: self.ident@,
            data: self.data@,
            attrs: annotations_view(self.attrs@),
        }
    }
}

/// Analyzer state after field validation: the struct has named fields.
#[derive(Debug)]
pub struct ParsedFields {
    fields: Vec<FieldDef>,
    ident: String,
    attrs: Vec<Annotation>,
}

/// The abstract form of a [`ParsedFields`].
pub ghost struct ParsedFieldsV {
    pub fields: Seq<FieldDefV>,
    pub ident: Seq<char>,
    pub attrs: Seq<crate::schema::AnnotationV>,
}

impl View for ParsedFields {
    type V = ParsedFieldsV;

    closed spec fn view(&self) -> ParsedFieldsV {
        ParsedFieldsV {
            fields: fields_view(self.fields@),
            ident: self.ident@,
            attrs: annotations_view(self.attrs@),
        }
    }
}

/// Terminal analyzer state: the validated field list, the record's name,
/// and its derived storage identity.
#[derive(Debug)]
pub struct Analysis {
    /// Named fields of the analyzed record, in declaration order.
    pub fields: Vec<FieldDef>,
    /// The record type's name.
    pub ident: String,
    /// The storage identity (table name) for this record.
    pub table_name: String,
}

impl View for Analysis {
    type V = AnalysisV;

    open spec fn view(&self) -> AnalysisV {
        AnalysisV {
            fields: fields_view(self.fields@),
            ident: self.ident@,
            table_name: self.table_name@,
        }
    }
}

impl AnalysisBuilder {
    /// Wraps the raw record shape for analysis.
    pub fn new(input: RecordShape) -> (r: Self)
        ensures
            r@ == input@,
    {
        Self { input }
    }

    /// Validates that the input is a struct; a tagged-union or shared-overlay
    /// shape is rejected before any field is inspected.
    pub fn parse_struct(self) -> (r: Result<ValidatedStruct, Error>)
        ensures
            match r {
                Ok(vs) => {
                    &&& self@.data is Struct
                    &&& vs@.ident == self@.ident
                    &&& vs@.data == self@.data->Struct_0
                    &&& vs@.attrs == self@.attrs
                },
                Err(e) => match self@.data {
                    ShapeDataV::Enum => e@ == ErrorV::UnsupportedDataStructureEnum,
                    ShapeDataV::Union => e@ == ErrorV::UnsupportedDataStructureUnion,
                    ShapeDataV::Struct(_) => false,
                },
            },
    {
        let RecordShape { ident, attrs, data } = self.input;
        match data {
            ShapeData::Struct(sf) => Ok(ValidatedStruct { ident, data: sf, attrs }),
            ShapeData::Enum => Err(Error::UnsupportedDataStructureEnum),
            ShapeData::Union => Err(Error::UnsupportedDataStructureUnion),
        }
    }
}

impl ValidatedStruct {
    /// Builds the state directly from its parts.
    pub fn new(ident: String, data: StructFields, attrs: Vec<Annotation>) -> (r: Self)
        ensures
            r@.ident == ident@,
            r@.data == data@,
            r@.attrs == annotations_view(attrs@),
    {
        Self { ident, data, attrs }
    }

    /// Validates that the struct is made of named fields; unit and tuple
    /// structs are rejected.
    pub fn parse_fields(self) -> (r: Result<ParsedFields, Error>)
        ensures
            match r {
                Ok(pf) => {
                    &&& self@.data is Named
                    &&& pf@.fields == self@.data->Named_0
                    &&& pf@.ident == self@.ident
                    &&& pf@.attrs == self@.attrs
                },
                Err(e) => match self@.data {
                    StructFieldsV::Unit => e@ == ErrorV::UnsupportedDataStructureUnitStruct,
                    StructFieldsV::Unnamed => e@ == ErrorV::UnsupportedDataStructureTupleStruct,
                    StructFieldsV::Named(_) => false,
                },
            },
    {
        let ValidatedStruct { ident, data, attrs } = self;
        match data {
            StructFields::Named(fields) => Ok(ParsedFields { fields, ident, attrs }),
            StructFields::Unit => Err(Error::UnsupportedDataStructureUnitStruct),
            StructFields::Unnamed => Err(Error::UnsupportedDataStructureTupleStruct),
        }
    }
}

impl ParsedFields {
    /// Builds the state directly from its parts.
    pub fn new(fields: Vec<FieldDef>, ident: String, attrs: Vec<Annotation>) -> (r: Self)
        ensures
            r@.fields == fields_view(fields@),
            r@.ident == ident@,
            r@.attrs == annotations_view(attrs@),
    {
        Self { fields, ident, attrs }
    }

    /// Parses the record-level annotations and derives the storage identity:
    /// the explicit `table` override when given, else the lowercased record
    /// name with `s` appended.
    pub fn validate(self) -> (r: Result<Analysis, Error>)
        ensures
            match r {
                Ok(a) => match spec_parse_record_attrs(self@.attrs) {
                    Ok(ra) => {
                        &&& a@.fields == self@.fields
                        &&& a@.ident == self@.ident
                        &&& a@.table_name == spec_table_name(self@.ident, ra.table)
                    },
                    Err(_) => false,
                },
                Err(e) => spec_parse_record_attrs(self@.attrs) == Err::<
                    crate::attrs::RecordAttrsV,
                    ErrorV,
                >(e@),
            },
    {
        let parsed = match FabriqueAttrs::from_annotations(&self.attrs) {
            Ok(ra) => ra,
            Err(e) => {
                return Err(e);
            },
        };
        let table_name = match parsed.table {
            Some(t) => t,
            None => {
                let mut t = to_lower(self.ident.as_str());
                t.append("s");
                t
            },
        };
        Ok(Analysis { fields: self.fields, ident: self.ident, table_name })
    }
}

impl Analysis {
    /// Builds a terminal analysis directly from its parts.
    pub fn new(fields: Vec<FieldDef>, ident: String, table_name: String) -> (r: Self)
        ensures
            r@.fields == fields_view(fields@),
            r@.ident == ident@,
            r@.table_name == table_name@,
    {
        Self { fields, ident, table_name }
    }

    /// Runs the complete analysis of a record shape.
    pub fn from(input: RecordShape) -> (r: Result<Analysis, Error>)
        ensures
            match r {
                Ok(a) => spec_analyze_record(input@) == Ok::<AnalysisV, ErrorV>(a@),
                Err(e) => spec_analyze_record(input@) == Err::<AnalysisV, ErrorV>(e@),
            },
    {
        let vs = match AnalysisBuilder::new(input).parse_struct() {
            Ok(vs) => vs,
            Err(e) => {
                return Err(e);
            },
        };
        let pf = match vs.parse_fields() {
            Ok(pf) => pf,
            Err(e) => {
                return Err(e);
            },
        };
        match pf.validate() {
            Ok(a) => Ok(a),
            Err(e) => Err(e),
        }
    }
}

} // verus!
