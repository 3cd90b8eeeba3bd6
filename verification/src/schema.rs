//! The raw schema model: a record shape as the application declares it —
//! a name, a body of fields, and the annotations attached to the record and
//! to each field.

use vstd::prelude::*;
use crate::values::FieldType;

verus! {

/// The value given with one annotation key.
#[derive(Debug)]
pub enum AnnotationValue {
    /// A bare key with no value, as in `primary_key`.
    Flag,
    /// A boolean literal, as in `primary_key = true`.
    Boolean(bool),
    /// A string literal, as in `relation = "Hammer"`.
    Str(String),
    /// A bare identifier path, as in `relation = Hammer`.
    Path(String),
    /// An integer literal; no recognized key accepts one.
    Int(u64),
}

/// One raw annotation attached to a record or a field: a key and its value.
#[derive(Debug)]
pub struct Annotation {
    pub key: String,
    pub value: AnnotationValue,
}

/// One declared field: its name (absent in unnamed-field shapes), its
/// semantic type, and its annotations.
#[derive(Debug)]
pub struct FieldDef {
    pub ident: Option<String>,
    pub ty: FieldType,
    pub attrs: Vec<Annotation>,
}

/// The fields of a struct-like shape.
#[derive(Debug)]
pub enum StructFields {
    /// Named fields, in declaration order.
    Named(Vec<FieldDef>),
    /// Unnamed tuple fields.
    Unnamed,
    /// No fields at all.
    Unit,
}

/// The body of a record shape.
#[derive(Debug)]
pub enum ShapeData {
    Struct(StructFields),
    Enum,
    Union,
}

/// The raw input to analysis: a record type's name, its record-level
/// annotations, and its body.
#[derive(Debug)]
pub struct RecordShape {
    pub ident: String,
    pub attrs: Vec<Annotation>,
    pub data: ShapeData,
}

/// The abstract form of an [`AnnotationValue`].
pub ghost enum AnnotationValueV {
    Flag,
    Boolean(bool),
    Str(Seq<char>),
    Path(Seq<char>),
    Int(u64),
}

/// The abstract form of an [`Annotation`].
pub ghost struct AnnotationV {
    pub key: Seq<char>,
    pub value: AnnotationValueV,
}

/// The abstract form of a [`FieldDef`].
pub ghost struct FieldDefV {
    pub ident: Option<Seq<char>>,
    pub ty: FieldType,
    pub attrs: Seq<AnnotationV>,
}

/// The abstract form of a [`StructFields`].
pub ghost enum StructFieldsV {
    Named(Seq<FieldDefV>),
    Unnamed,
    Unit,
}

/// The abstract form of a [`ShapeData`].
pub ghost enum ShapeDataV {
    Struct(StructFieldsV),
    Enum,
    Union,
}

/// The abstract form of a [`RecordShape`].
pub ghost struct RecordShapeV {
    pub ident: Seq<char>,
    pub attrs: Seq<AnnotationV>,
    pub data: ShapeDataV,
}

impl View for AnnotationValue {
    type V = AnnotationValueV;

    open spec fn view(&self) -> AnnotationValueV {
        match self {
            AnnotationValue::Flag => AnnotationValueV::Flag,
            AnnotationValue::Boolean(b) => AnnotationValueV::Boolean(*b),
            AnnotationValue::Str(s) => AnnotationValueV::Str(s@),
            AnnotationValue::Path(s) => AnnotationValueV::Path(s@),
            AnnotationValue::Int(n) => AnnotationValueV::Int(*n),
        }
    }
}

impl View for Annotation {
    type V = AnnotationV;

    open spec fn view(&self) -> AnnotationV {
        AnnotationV { key: self.key@, value: self.value@ }
    }
}

/// The abstract form of an annotation list.
pub open spec fn annotations_view(attrs: Seq<Annotation>) -> Seq<AnnotationV> {
    attrs.map_values(|a: Annotation| a@)
}

impl View for FieldDef {
    type V = FieldDefV;

    open spec fn view(&self) -> FieldDefV {
        FieldDefV {
            ident: match self.ident {
                Some(s) => Some(s@),
                None => None,
            },
            ty: self.ty,
            attrs: annotations_view(self.attrs@),
        }
    }
}

/// The abstract form of a field list.
pub open spec fn fields_view(fields: Seq<FieldDef>) -> Seq<FieldDefV> {
    fields.map_values(|f: FieldDef| f@)
}

impl View for StructFields {
    type V = StructFieldsV;

    open spec fn view(&self) -> StructFieldsV {
        match self {
            StructFields::Named(fields) => StructFieldsV::Named(fields_view(fields@)),
            StructFields::Unnamed => StructFieldsV::Unnamed,
            StructFields::Unit => StructFieldsV::Unit,
        }
    }
}

impl View for ShapeData {
    type V = ShapeDataV;

    open spec fn view(&self) -> ShapeDataV {
        match self {
            ShapeData::Struct(fields) => ShapeDataV::Struct(fields@),
            ShapeData::Enum => ShapeDataV::Enum,
            ShapeData::Union => ShapeDataV::Union,
        }
    }
}

impl View for RecordShape {
    type V = RecordShapeV;

    open spec fn view(&self) -> RecordShapeV {
        RecordShapeV { ident: self.ident@, attrs: annotations_view(self.attrs@), data: self.data@ }
    }
}

impl Clone for AnnotationValue {
    fn clone(&self) -> (r: Self)
        ensures
            r@ == self@,
    {
        match self {
            AnnotationValue::Flag => AnnotationValue::Flag,
            AnnotationValue::Boolean(b) => AnnotationValue::Boolean(*b),
            AnnotationValue::Str(s) => AnnotationValue::Str(s.clone()),
            AnnotationValue::Path(s) => AnnotationValue::Path(s.clone()),
            AnnotationValue::Int(n) => AnnotationValue::Int(*n),
        }
    }
}

impl Clone for Annotation {
    fn clone(&self) -> (r: Self)
        ensures
            r@ == self@,
    {
        Annotation { key: self.key.clone(), value: self.value.clone() }
    }
}

/// Appending an annotation extends the abstract annotation list pointwise.
pub proof fn lemma_annotations_view_push(attrs: Seq<Annotation>, a: Annotation)
    ensures
        annotations_view(attrs.push(a)) =~= annotations_view(attrs).push(a@),
{
    assert forall|j: int| 0 <= j < attrs.len() + 1 implies annotations_view(attrs.push(a))[j]
        == annotations_view(attrs).push(a@)[j] by {
        if j < attrs.len() {
            assert(attrs.push(a)[j] == attrs[j]);
        } else {
            assert(attrs.push(a)[j] == a);
        }
    }
}

/// Appending a field extends the abstract field list pointwise.
pub proof fn lemma_fields_view_push(fields: Seq<FieldDef>, f: FieldDef)
    ensures
        fields_view(fields.push(f)) =~= fields_view(fields).push(f@),
{
    assert forall|j: int| 0 <= j < fields.len() + 1 implies fields_view(fields.push(f))[j]
        == fields_view(fields).push(f@)[j] by {
        if j < fields.len() {
            assert(fields.push(f)[j] == fields[j]);
        } else {
            assert(fields.push(f)[j] == f);
        }
    }
}

impl Clone for FieldDef {
    fn clone(&self) -> (r: Self)
        ensures
            r@ == self@,
    {
        let ident = match &self.ident {
            Some(s) => Some(s.clone()),
            None => None,
        };
        let mut attrs: Vec<Annotation> = Vec::new();
        let mut i: usize = 0;
        while i < self.attrs.len()
            invariant
                0 <= i <= self.attrs@.len(),
                annotations_view(attrs@) =~= annotations_view(self.attrs@).subrange(0, i as int),
            decreases self.attrs@.len() - i,
        {
            let a = self.attrs[i].clone();
            proof {
                lemma_annotations_view_push(attrs@, a);
                assert(annotations_view(self.attrs@)[i as int] == self.attrs@[i as int]@);
            }
            attrs.push(a);
            proof {
                assert(annotations_view(attrs@) =~= annotations_view(self.attrs@).subrange(
                    0,
                    i + 1,
                ));
            }
            i = i + 1;
        }
        proof {
            assert(annotations_view(attrs@) =~= annotations_view(self.attrs@));
        }
        FieldDef { ident, ty: self.ty, attrs }
    }
}

} // verus!
