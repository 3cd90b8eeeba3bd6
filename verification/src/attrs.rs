//! The attribute parser: turns the raw annotations attached to one field, or
//! to the record itself, into typed attribute values.
//!
//! Recognized field keys are exactly `primary_key`, `relation`,
//! `referenced_key` and `extract`; the recognized record key is `table`.
//! Any other key is an [`Error::UnknownAttribute`]. Annotations are merged
//! in order; a repeated key is overwritten, the last write wins. The first
//! malformed annotation aborts the parse.

use vstd::prelude::*;
use crate::error::{Error, ErrorV};
use crate::names::{is_valid_ident, str_eq, valid_ident};
use crate::schema::{AnnotationV, AnnotationValueV, FieldDef, RecordShape};

verus! {

/// The typed attributes of one field.
#[derive(Debug)]
pub struct FabriqueFieldAttributes {
    /// Whether the field is marked as a primary key.
    pub primary_key: bool,
    /// The related record type's name, when the field is a relation.
    pub relation: Option<String>,
    /// The related record's field whose value is copied back.
    pub referenced_key: Option<String>,
    /// Alias of `referenced_key`: which field of the related record to pull
    /// up into this one.
    pub extract: Option<String>,
}

/// The abstract form of [`FabriqueFieldAttributes`].
pub ghost struct FieldAttrsV {
    pub primary_key: bool,
    pub relation: Option<Seq<char>>,
    pub referenced_key: Option<Seq<char>>,
    pub extract: Option<Seq<char>>,
}

impl View for FabriqueFieldAttributes {
    type V = FieldAttrsV;

    open spec fn view(&self) -> FieldAttrsV {
        FieldAttrsV {
            primary_key: self.primary_key,
            relation: match self.relation {
                Some(s) => Some(s@),
                None => None,
            },
            referenced_key: match self.referenced_key {
                Some(s) => Some(s@),
                None => None,
            },
            extract: match self.extract {
                Some(s) => Some(s@),
                None => None,
            },
        }
    }
}

/// The typed attributes of the record itself.
#[derive(Debug)]
pub struct FabriqueAttrs {
    /// The storage identity (table name) override, if given.
    pub table: Option<String>,
}

/// The abstract form of [`FabriqueAttrs`].
pub ghost struct RecordAttrsV {
    pub table: Option<Seq<char>>,
}

impl View for FabriqueAttrs {
    type V = RecordAttrsV;

    open spec fn view(&self) -> RecordAttrsV {
        RecordAttrsV {
            table: match self.table {
                Some(s) => Some(s@),
                None => None,
            },
        }
    }
}

/// Field attributes before any annotation is applied: no primary key, no
/// relation, no referenced key, no extract.
pub open spec fn empty_field_attrs() -> FieldAttrsV {
    FieldAttrsV { primary_key: false, relation: None, referenced_key: None, extract: None }
}

/// A boolean-valued annotation: a bare flag means `true`; a boolean literal
/// gives its value; the string literals `"true"` and `"false"` coerce.
pub open spec fn bool_of_annotation(key: Seq<char>, v: AnnotationValueV) -> Result<bool, ErrorV> {
    match v {
        AnnotationValueV::Flag => Ok(true),
        AnnotationValueV::Boolean(b) => Ok(b),
        AnnotationValueV::Str(s) => if s == "true"@ {
            Ok(true)
        } else if s == "false"@ {
            Ok(false)
        } else {
            Err(ErrorV::UnparsableLiteral(key))
        },
        _ => Err(ErrorV::UnparsableLiteral(key)),
    }
}

/// An identifier-valued annotation: a string literal or a bare path, which
/// must be a valid identifier.
pub open spec fn ident_of_annotation(key: Seq<char>, v: AnnotationValueV) -> Result<
    Seq<char>,
    ErrorV,
> {
    match v {
        AnnotationValueV::Str(s) => if valid_ident(s) {
            Ok(s)
        } else {
            Err(ErrorV::UnparsableType(s))
        },
        AnnotationValueV::Path(s) => if valid_ident(s) {
            Ok(s)
        } else {
            Err(ErrorV::UnparsableType(s))
        },
        _ => Err(ErrorV::UnparsableLiteral(key)),
    }
}

/// Applies one field annotation to the attributes accumulated so far.
pub open spec fn apply_field_annotation(acc: FieldAttrsV, a: AnnotationV) -> Result<
    FieldAttrsV,
    ErrorV,
> {
    if a.key == "primary_key"@ {
        match bool_of_annotation(a.key, a.value) {
            Ok(b) => Ok(FieldAttrsV { primary_key: b, ..acc }),
            Err(e) => Err(e),
        }
    } else if a.key == "relation"@ {
        match ident_of_annotation(a.key, a.value) {
            Ok(s) => Ok(FieldAttrsV { relation: Some(s), ..acc }),
            Err(e) => Err(e),
        }
    } else if a.key == "referenced_key"@ {
        match ident_of_annotation(a.key, a.value) {
            Ok(s) => Ok(FieldAttrsV { referenced_key: Some(s), ..acc }),
            Err(e) => Err(e),
        }
    } else if a.key == "extract"@ {
        match ident_of_annotation(a.key, a.value) {
            Ok(s) => Ok(FieldAttrsV { extract: Some(s), ..acc }),
            Err(e) => Err(e),
        }
    } else {
        Err(ErrorV::UnknownAttribute(a.key))
    }
}

/// Folds the field annotations over an accumulator, left to right, stopping
/// at the first malformed one.
pub open spec fn parse_field_annotations_from(acc: FieldAttrsV, attrs: Seq<AnnotationV>) -> Result<
    FieldAttrsV,
    ErrorV,
>
    decreases attrs.len(),
{
    if attrs.len() == 0 {
        Ok(acc)
    } else {
        match apply_field_annotation(acc, attrs[0]) {
            Ok(acc2) => parse_field_annotations_from(acc2, attrs.drop_first()),
            Err(e) => Err(e),
        }
    }
}

/// The typed attributes of a field with the given annotations, or the first
/// error among them.
pub open spec fn spec_parse_field_attrs(attrs: Seq<AnnotationV>) -> Result<FieldAttrsV, ErrorV> {
    parse_field_annotations_from(empty_field_attrs(), attrs)
}

/// Applies one record annotation to the attributes accumulated so far.
pub open spec fn apply_record_annotation(acc: RecordAttrsV, a: AnnotationV) -> Result<
    RecordAttrsV,
    ErrorV,
> {
    if a.key == "table"@ {
        match a.value {
            AnnotationValueV::Str(s) => Ok(RecordAttrsV { table: Some(s) }),
            _ => Err(ErrorV::UnparsableLiteral(a.key)),
        }
    } else {
        Err(ErrorV::UnknownAttribute(a.key))
    }
}

/// Folds the record annotations over an accumulator, left to right.
pub open spec fn parse_record_annotations_from(acc: RecordAttrsV, attrs: Seq<AnnotationV>) -> Result<
    RecordAttrsV,
    ErrorV,
>
    decreases attrs.len(),
{
    if attrs.len() == 0 {
        Ok(acc)
    } else {
        match apply_record_annotation(acc, attrs[0]) {
            Ok(acc2) => parse_record_annotations_from(acc2, attrs.drop_first()),
            Err(e) => Err(e),
        }
    }
}

/// The typed attributes of a record with the given annotations, or the
/// first error among them.
pub open spec fn spec_parse_record_attrs(attrs: Seq<AnnotationV>) -> Result<RecordAttrsV, ErrorV> {
    parse_record_annotations_from(RecordAttrsV { table: None }, attrs)
}

impl FabriqueFieldAttributes {
    /// Parses the annotations attached to one field.
    pub fn from_field(field: &FieldDef) -> (r: Result<FabriqueFieldAttributes, Error>)
        ensures
            match r {
                Ok(fa) => spec_parse_field_attrs(field@.attrs) == Ok::<FieldAttrsV, ErrorV>(fa@),
                Err(e) => spec_parse_field_attrs(field@.attrs) == Err::<FieldAttrsV, ErrorV>(e@),
            },
    {
        let mut acc = FabriqueFieldAttributes {
            primary_key: false,
            relation: None,
            referenced_key: None,
            extract: None,
        };
        proof {
            assert(field@.attrs.skip(0) =~= field@.attrs);
            assert(acc@ == empty_field_attrs());
        }
        let mut i: usize = 0;
        while i < field.attrs.len()
            invariant
                0 <= i <= field.attrs@.len(),
                spec_parse_field_attrs(field@.attrs) == parse_field_annotations_from(
                    acc@,
                    field@.attrs.skip(i as int),
                ),
            decreases field.attrs@.len() - i,
        {
            let a = &field.attrs[i];
            proof {
                assert(field@.attrs[i as int] == a@);
                assert(field@.attrs.skip(i as int)[0] == field@.attrs[i as int]);
                assert(field@.attrs.skip(i as int).drop_first() =~= field@.attrs.skip(i + 1));
            }
            match Self::apply_one(acc, a) {
                Ok(acc2) => {
                    acc = acc2;
                },
                Err(e) => {
                    return Err(e);
                },
            }
            i = i + 1;
        }
        proof {
            assert(field@.attrs.skip(field@.attrs.len() as int) =~= Seq::<AnnotationV>::empty());
        }
        Ok(acc)
    }

    /// Applies one annotation to the attributes accumulated so far.
    fn apply_one(acc: FabriqueFieldAttributes, a: &crate::schema::Annotation) -> (r: Result<
        FabriqueFieldAttributes,
        Error,
    >)
        ensures
            match r {
                Ok(acc2) => apply_field_annotation(acc@, a@) == Ok::<FieldAttrsV, ErrorV>(acc2@),
                Err(e) => apply_field_annotation(acc@, a@) == Err::<FieldAttrsV, ErrorV>(e@),
            },
    {
        let key = a.key.as_str();
        if str_eq(key, "primary_key") {
            match Self::bool_value(key, &a.value) {
                Ok(b) => Ok(FabriqueFieldAttributes { primary_key: b, ..acc }),
                Err(e) => Err(e),
            }
        } else if str_eq(key, "relation") {
            match Self::ident_value(key, &a.value) {
                Ok(s) => Ok(FabriqueFieldAttributes { relation: Some(s), ..acc }),
                Err(e) => Err(e),
            }
        } else if str_eq(key, "referenced_key") {
            match Self::ident_value(key, &a.value) {
                Ok(s) => Ok(FabriqueFieldAttributes { referenced_key: Some(s), ..acc }),
                Err(e) => Err(e),
            }
        } else if str_eq(key, "extract") {
            match Self::ident_value(key, &a.value) {
                Ok(s) => Ok(FabriqueFieldAttributes { extract: Some(s), ..acc }),
                Err(e) => Err(e),
            }
        } else {
            Err(Error::UnknownAttribute(a.key.clone()))
        }
    }

    /// Reads a boolean-valued annotation.
    fn bool_value(key: &str, v: &crate::schema::AnnotationValue) -> (r: Result<bool, Error>)
        ensures
            match r {
                Ok(b) => bool_of_annotation(key@, v@) == Ok::<bool, ErrorV>(b),
                Err(e) => bool_of_annotation(key@, v@) == Err::<bool, ErrorV>(e@),
            },
    {
        match v {
            crate::schema::AnnotationValue::Flag => Ok(true),
            crate::schema::AnnotationValue::Boolean(b) => Ok(*b),
            crate::schema::AnnotationValue::Str(s) => {
                if str_eq(s.as_str(), "true") {
                    Ok(true)
                } else if str_eq(s.as_str(), "false") {
                    Ok(false)
                } else {
                    Err(Error::UnparsableLiteral(String::from_str(key)))
                }
            },
            _ => Err(Error::UnparsableLiteral(String::from_str(key))),
        }
    }

    /// Reads an identifier-valued annotation.
    fn ident_value(key: &str, v: &crate::schema::AnnotationValue) -> (r: Result<String, Error>)
        ensures
            match r {
                Ok(s) => ident_of_annotation(key@, v@) == Ok::<Seq<char>, ErrorV>(s@),
                Err(e) => ident_of_annotation(key@, v@) == Err::<Seq<char>, ErrorV>(e@),
            },
    {
        match v {
            crate::schema::AnnotationValue::Str(s) => {
                if is_valid_ident(s.as_str()) {
                    Ok(s.clone())
                } else {
                    Err(Error::UnparsableType(s.clone()))
                }
            },
            crate::schema::AnnotationValue::Path(s) => {
                if is_valid_ident(s.as_str()) {
                    Ok(s.clone())
                } else {
                    Err(Error::UnparsableType(s.clone()))
                }
            },
            _ => Err(Error::UnparsableLiteral(String::from_str(key))),
        }
    }
}

impl FabriqueAttrs {
    /// Parses the annotations attached to the record itself.
    pub fn from_record(shape: &RecordShape) -> (r: Result<FabriqueAttrs, Error>)
        ensures
            match r {
                Ok(fa) => spec_parse_record_attrs(shape@.attrs) == Ok::<RecordAttrsV, ErrorV>(fa@),
                Err(e) => spec_parse_record_attrs(shape@.attrs) == Err::<RecordAttrsV, ErrorV>(e@),
            },
    {
        Self::from_annotations(&shape.attrs)
    }

    /// Parses a record-level annotation list.
    pub fn from_annotations(attrs: &Vec<crate::schema::Annotation>) -> (r: Result<
        FabriqueAttrs,
        Error,
    >)
        ensures
            match r {
                Ok(fa) => spec_parse_record_attrs(crate::schema::annotations_view(attrs@)) == Ok::<
                    RecordAttrsV,
                    ErrorV,
                >(fa@),
                Err(e) => spec_parse_record_attrs(crate::schema::annotations_view(attrs@)) == Err::<
                    RecordAttrsV,
                    ErrorV,
                >(e@),
            },
    {
        let ghost attrs_v = crate::schema::annotations_view(attrs@);
        let mut acc = FabriqueAttrs { table: None };
        proof {
            assert(attrs_v.skip(0) =~= attrs_v);
        }
        let mut i: usize = 0;
        while i < attrs.len()
            invariant
                0 <= i <= attrs@.len(),
                attrs_v == crate::schema::annotations_view(attrs@),
                spec_parse_record_attrs(attrs_v) == parse_record_annotations_from(
                    acc@,
                    attrs_v.skip(i as int),
                ),
            decreases attrs@.len() - i,
        {
            let a = &attrs[i];
            proof {
                assert(attrs_v[i as int] == a@);
                assert(attrs_v.skip(i as int)[0] == attrs_v[i as int]);
                assert(attrs_v.skip(i as int).drop_first() =~= attrs_v.skip(i + 1));
            }
            if str_eq(a.key.as_str(), "table") {
                match &a.value {
                    crate::schema::AnnotationValue::Str(s) => {
                        acc = FabriqueAttrs { table: Some(s.clone()) };
                    },
                    _ => {
                        return Err(Error::UnparsableLiteral(a.key.clone()));
                    },
                }
            } else {
                return Err(Error::UnknownAttribute(a.key.clone()));
            }
            i = i + 1;
        }
        proof {
            assert(attrs_v.skip(attrs_v.len() as int) =~= Seq::<AnnotationV>::empty());
        }
        Ok(acc)
    }
}

} // verus!
