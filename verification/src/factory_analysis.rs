//! Factory analysis: validates a record shape, parses every field's
//! annotations in declaration order, and derives the relation carried by
//! each relation-bearing field.
//!
//! Key policy: a relation must name its referenced key explicitly, through
//! `referenced_key` or its alias `extract` (with `referenced_key` winning
//! when both are given); a relation without one is a
//! [`Error::MissingReferencedKey`]. The relation's base name strips a
//! trailing `_<referenced key>` from the owning field's name when present.

use vstd::prelude::*;
use vstd::string::StringExecFns;
use crate::attrs::{spec_parse_field_attrs, FabriqueFieldAttributes, FieldAttrsV};
use crate::error::{Error, ErrorV};
use crate::names::{base_name_of, spec_base_name};
use crate::schema::{FieldDef, FieldDefV, RecordShape, RecordShapeV, ShapeDataV, StructFieldsV};

verus! {

/// A factory relation extracted from one field's attributes.
#[derive(Debug)]
pub struct Relation {
    /// The name of the factory slot holding the deferred customization,
    /// e.g. `hammer_factory`.
    pub factory_field: String,
    /// The related record type, e.g. `Hammer`.
    pub referenced_type: String,
    /// The field of the related record whose value is copied back, e.g. `id`.
    pub referenced_key: String,
    /// The relation's base name, e.g. `hammer`.
    pub name: String,
}

/// The abstract form of a [`Relation`].
pub ghost struct RelationV {
    pub factory_field: Seq<char>,
    pub referenced_type: Seq<char>,
    pub referenced_key: Seq<char>,
    pub name: Seq<char>,
}

impl View for Relation {
    type V = RelationV;

    open spec fn view(&self) -> RelationV {
        RelationV {
            factory_field: self.factory_field@,
            referenced_type: self.referenced_type@,
            referenced_key: self.referenced_key@,
            name: self.name@,
        }
    }
}

impl Clone for Relation {
    fn clone(&self) -> (r: Self)
        ensures
            r@ == self@,
    {
        Relation {
            factory_field: self.factory_field.clone(),
            referenced_type: self.referenced_type.clone(),
            referenced_key: self.referenced_key.clone(),
            name: self.name.clone(),
        }
    }
}

/// The referenced key resolved from a field's attributes: the explicit
/// `referenced_key` when given, else the `extract` alias.
pub open spec fn resolved_key(attrs: FieldAttrsV) -> Option<Seq<char>> {
    match attrs.referenced_key {
        Some(k) => Some(k),
        None => attrs.extract,
    }
}

/// The relation derived from one field and its parsed attributes: `None`
/// when the field carries no relation; an error when the field is unnamed
/// or no referenced key is resolvable.
pub open spec fn spec_relation(field: FieldDefV, attrs: FieldAttrsV) -> Result<
    Option<RelationV>,
    ErrorV,
> {
    match attrs.relation {
        None => Ok(None),
        Some(referenced_type) => match field.ident {
            None => Err(ErrorV::UnsupportedDataStructureTupleStruct),
            Some(field_name) => match resolved_key(attrs) {
                None => Err(ErrorV::MissingReferencedKey(field_name)),
                Some(key) => Ok(
                    Some(
                        RelationV {
                            factory_field: spec_base_name(field_name, key) + "_factory"@,
                            referenced_type,
                            referenced_key: key,
                            name: spec_base_name(field_name, key),
                        },
                    ),
                ),
            },
        },
    }
}

impl Relation {
    /// Derives the relation carried by one field, if any, from the field and
    /// its parsed attributes.
    pub fn new(field: &FieldDef, attributes: FabriqueFieldAttributes) -> (r: Result<
        Option<Relation>,
        Error,
    >)
        ensures
            match r {
                Ok(Some(rel)) => spec_relation(field@, attributes@) == Ok::<
                    Option<RelationV>,
                    ErrorV,
                >(Some(rel@)),
                Ok(None) => spec_relation(field@, attributes@) == Ok::<
                    Option<RelationV>,
                    ErrorV,
                >(None),
                Err(e) => spec_relation(field@, attributes@) == Err::<Option<RelationV>, ErrorV>(
                    e@,
                ),
            },
    {
        let referenced_type = match attributes.relation {
            None => {
                return Ok(None);
            },
            Some(t) => t,
        };
        let field_name = match &field.ident {
            None => {
                return Err(Error::UnsupportedDataStructureTupleStruct);
            },
            Some(n) => n,
        };
        let key = match attributes.referenced_key {
            Some(k) => k,
            None => match attributes.extract {
                Some(k) => k,
                None => {
                    return Err(Error::MissingReferencedKey(field_name.clone()));
                },
            },
        };
        let name = base_name_of(field_name.as_str(), key.as_str());
        let mut factory_field = name.clone();
        factory_field.append("_factory");
        Ok(
            Some(
                Relation { factory_field, referenced_type, referenced_key: key, name },
            ),
        )
    }
}

/// The analysis of one field: its declaration, its primary-key mark, and
/// its derived relation, if any.
#[derive(Debug)]
pub struct FactoryFieldAnalysisOutput {
    /// The analyzed field as declared.
    pub field: FieldDef,
    /// Whether the field is marked as a primary key.
    pub primary_key: bool,
    /// The relation carried by the field, if any.
    pub relation: Option<Relation>,
}

/// The abstract form of a [`FactoryFieldAnalysisOutput`].
pub ghost struct FactoryFieldV {
    pub field: FieldDefV,
    pub primary_key: bool,
    pub relation: Option<RelationV>,
}

impl View for FactoryFieldAnalysisOutput {
    type V = FactoryFieldV;

    open spec fn view(&self) -> FactoryFieldV {
        FactoryFieldV {
            field: self.field@,
            primary_key: self.primary_key,
            relation: match self.relation {
                Some(r) => Some(r@),
                None => None,
            },
        }
    }
}

impl Clone for FactoryFieldAnalysisOutput {
    fn clone(&self) -> (r: Self)
        ensures
            r@ == self@,
    {
        FactoryFieldAnalysisOutput {
            field: self.field.clone(),
            primary_key: self.primary_key,
            relation: match &self.relation {
                Some(rel) => Some(rel.clone()),
                None => None,
            },
        }
    }
}

/// The analysis of one field: its parsed attributes, then its relation.
pub open spec fn spec_analyze_field(field: FieldDefV) -> Result<FactoryFieldV, ErrorV> {
    match spec_parse_field_attrs(field.attrs) {
        Err(e) => Err(e),
        Ok(fa) => match spec_relation(field, fa) {
            Err(e) => Err(e),
            Ok(rel) => Ok(FactoryFieldV { field, primary_key: fa.primary_key, relation: rel }),
        },
    }
}

/// The analysis of a field list, in declaration order; the first error
/// aborts the whole analysis.
pub open spec fn spec_analyze_fields(fields: Seq<FieldDefV>) -> Result<Seq<FactoryFieldV>, ErrorV>
    decreases fields.len(),
{
    if fields.len() == 0 {
        Ok(Seq::empty())
    } else {
        match spec_analyze_field(fields[0]) {
            Err(e) => Err(e),
            Ok(f0) => match spec_analyze_fields(fields.drop_first()) {
                Err(e) => Err(e),
                Ok(rest) => Ok(seq![f0] + rest),
            },
        }
    }
}

/// When every field up to `i` analyzes without error, the whole analysis of
/// the first `i` fields plus the rest unfolds pointwise.
proof fn lemma_analyze_fields_ok(fields: Seq<FieldDefV>, out: Seq<FactoryFieldV>)
    requires
        out.len() == fields.len(),
        forall|j: int|
            0 <= j < fields.len() ==> spec_analyze_field(#[trigger] fields[j]) == Ok::<
                FactoryFieldV,
                ErrorV,
            >(out[j]),
    ensures
        spec_analyze_fields(fields) == Ok::<Seq<FactoryFieldV>, ErrorV>(out),
    decreases fields.len(),
{
    if fields.len() == 0 {
        assert(out =~= Seq::<FactoryFieldV>::empty());
    } else {
        assert forall|j: int| 0 <= j < fields.drop_first().len() implies spec_analyze_field(
            #[trigger] fields.drop_first()[j],
        ) == Ok::<FactoryFieldV, ErrorV>(out.drop_first()[j]) by {
            assert(fields.drop_first()[j] == fields[j + 1]);
            assert(out.drop_first()[j] == out[j + 1]);
        }
        lemma_analyze_fields_ok(fields.drop_first(), out.drop_first());
        assert(out =~= seq![out[0]] + out.drop_first());
    }
}

/// When every field before `i` analyzes without error and field `i` fails,
/// the whole analysis fails with field `i`'s error.
proof fn lemma_analyze_fields_err(fields: Seq<FieldDefV>, i: int, e: ErrorV)
    requires
        0 <= i < fields.len(),
        spec_analyze_field(fields[i]) == Err::<FactoryFieldV, ErrorV>(e),
        forall|j: int| 0 <= j < i ==> spec_analyze_field(#[trigger] fields[j]) is Ok,
    ensures
        spec_analyze_fields(fields) == Err::<Seq<FactoryFieldV>, ErrorV>(e),
    decreases fields.len(),
{
    if i == 0 {
    } else {
        assert(spec_analyze_field(fields[0]) is Ok);
        assert(fields.drop_first()[i - 1] == fields[i]);
        assert forall|j: int| 0 <= j < i - 1 implies spec_analyze_field(
            #[trigger] fields.drop_first()[j],
        ) is Ok by {
            assert(fields.drop_first()[j] == fields[j + 1]);
        }
        lemma_analyze_fields_err(fields.drop_first(), i - 1, e);
    }
}

/// The named fields of a record shape, or the matching shape error: enums,
/// unions, unit structs and tuple structs are rejected.
pub open spec fn spec_named_fields(shape: RecordShapeV) -> Result<Seq<FieldDefV>, ErrorV> {
    match shape.data {
        ShapeDataV::Enum => Err(ErrorV::UnsupportedDataStructureEnum),
        ShapeDataV::Union => Err(ErrorV::UnsupportedDataStructureUnion),
        ShapeDataV::Struct(sf) => match sf {
            StructFieldsV::Named(fields) => Ok(fields),
            StructFieldsV::Unit => Err(ErrorV::UnsupportedDataStructureUnitStruct),
            StructFieldsV::Unnamed => Err(ErrorV::UnsupportedDataStructureTupleStruct),
        },
    }
}

/// The whole factory analysis of a record shape: shape validation, then
/// every field in order.
pub open spec fn spec_factory_analysis(shape: RecordShapeV) -> Result<
    FactoryAnalysisOutputV,
    ErrorV,
> {
    match spec_named_fields(shape) {
        Err(e) => Err(e),
        Ok(fields) => match spec_analyze_fields(fields) {
            Err(e) => Err(e),
            Ok(fs) => Ok(FactoryAnalysisOutputV { base_struct_ident: shape.ident, fields: fs }),
        },
    }
}

/// Analyzes a record shape to extract factory-related information.
///
/// Only flat named-field shapes are supported.
#[derive(Debug)]
pub struct FactoryAnalysis {
    input: RecordShape,
}

impl View for FactoryAnalysis {
    type V = RecordShapeV;

    closed spec fn view(&self) -> RecordShapeV {
        self.input@
    }
}

/// Output of factory analysis: the record's identity and its analyzed
/// fields with their relations.
#[derive(Debug)]
pub struct FactoryAnalysisOutput {
    /// The name of the analyzed record type.
    pub base_struct_ident: String,
    /// All named fields of the record, analyzed, in declaration order.
    pub fields: Vec<FactoryFieldAnalysisOutput>,
}

/// The abstract form of a [`FactoryAnalysisOutput`].
pub ghost struct FactoryAnalysisOutputV {
    pub base_struct_ident: Seq<char>,
    pub fields: Seq<FactoryFieldV>,
}

/// The abstract form of an analyzed field list.
pub open spec fn factory_fields_view(fields: Seq<FactoryFieldAnalysisOutput>) -> Seq<
    FactoryFieldV,
> {
    fields.map_values(|f: FactoryFieldAnalysisOutput| f@)
}

impl View for FactoryAnalysisOutput {
    type V = FactoryAnalysisOutputV;

    open spec fn view(&self) -> FactoryAnalysisOutputV {
        FactoryAnalysisOutputV {
            base_struct_ident: self.base_struct_ident@,
            fields: factory_fields_view(self.fields@),
        }
    }
}

/// Appending an analyzed field extends the abstract field list pointwise.
proof fn lemma_factory_fields_view_push(
    fields: Seq<FactoryFieldAnalysisOutput>,
    f: FactoryFieldAnalysisOutput,
)
    ensures
        factory_fields_view(fields.push(f)) =~= factory_fields_view(fields).push(f@),
{
    assert forall|j: int| 0 <= j < fields.len() + 1 implies factory_fields_view(fields.push(f))[j]
        == factory_fields_view(fields).push(f@)[j] by {
        if j < fields.len() {
            assert(fields.push(f)[j] == fields[j]);
        } else {
            assert(fields.push(f)[j] == f);
        }
    }
}

impl FactoryAnalysis {
    /// Wraps a record shape for factory analysis.
    pub fn from(input: RecordShape) -> (r: Self)
        ensures
            r@ == input@,
    {
        Self { input }
    }

    /// Performs the analysis and returns the output.
    pub fn analyze(self) -> (r: Result<FactoryAnalysisOutput, Error>)
        ensures
            match r {
                Ok(out) => spec_factory_analysis(self@) == Ok::<FactoryAnalysisOutputV, ErrorV>(
                    out@,
                ),
                Err(e) => spec_factory_analysis(self@) == Err::<FactoryAnalysisOutputV, ErrorV>(
                    e@,
                ),
            },
    {
        let fields = match self.fields() {
            Ok(fields) => fields,
            Err(e) => {
                return Err(e);
            },
        };
        Ok(FactoryAnalysisOutput { base_struct_ident: self.input.ident, fields })
    }

    /// Analyzes the fields of a named struct, in declaration order.
    ///
    /// # Errors
    ///
    /// Returns an error for enums, unions, unit structs, or tuple structs,
    /// and the first field-analysis error otherwise.
    pub fn fields(&self) -> (r: Result<Vec<FactoryFieldAnalysisOutput>, Error>)
        ensures
            match r {
                Ok(out) => {
                    &&& spec_named_fields(self@) is Ok
                    &&& spec_analyze_fields(spec_named_fields(self@)->Ok_0) == Ok::<
                        Seq<FactoryFieldV>,
                        ErrorV,
                    >(factory_fields_view(out@))
                },
                Err(e) => match spec_named_fields(self@) {
                    Err(se) => se == e@,
                    Ok(fields) => spec_analyze_fields(fields) == Err::<Seq<FactoryFieldV>, ErrorV>(
                        e@,
                    ),
                },
            },
    {
        let fields: &Vec<FieldDef> = match &self.input.data {
            crate::schema::ShapeData::Struct(crate::schema::StructFields::Named(fields)) => fields,
            crate::schema::ShapeData::Struct(crate::schema::StructFields::Unit) => {
                return Err(Error::UnsupportedDataStructureUnitStruct);
            },
            crate::schema::ShapeData::Struct(crate::schema::StructFields::Unnamed) => {
                return Err(Error::UnsupportedDataStructureTupleStruct);
            },
            crate::schema::ShapeData::Enum => {
                return Err(Error::UnsupportedDataStructureEnum);
            },
            crate::schema::ShapeData::Union => {
                return Err(Error::UnsupportedDataStructureUnion);
            },
        };
        let ghost fields_v = crate::schema::fields_view(fields@);
        proof {
            assert(spec_named_fields(self@) == Ok::<Seq<FieldDefV>, ErrorV>(fields_v));
        }
        let mut out: Vec<FactoryFieldAnalysisOutput> = Vec::new();
        let mut i: usize = 0;
        while i < fields.len()
            invariant
                0 <= i <= fields@.len(),
                fields_v == crate::schema::fields_view(fields@),
                spec_named_fields(self@) == Ok::<Seq<FieldDefV>, ErrorV>(fields_v),
                out@.len() == i,
                forall|j: int|
                    0 <= j < i ==> spec_analyze_field(#[trigger] fields_v[j]) == Ok::<
                        FactoryFieldV,
                        ErrorV,
                    >(factory_fields_view(out@)[j]),
            decreases fields@.len() - i,
        {
            let field = &fields[i];
            proof {
                assert(fields_v[i as int] == field@);
            }
            let attributes = match FabriqueFieldAttributes::from_field(field) {
                Ok(fa) => fa,
                Err(e) => {
                    proof {
                        lemma_analyze_fields_err(fields_v, i as int, e@);
                    }
                    return Err(e);
                },
            };
            let primary_key = attributes.primary_key;
            let relation = match Relation::new(field, attributes) {
                Ok(rel) => rel,
                Err(e) => {
                    proof {
                        lemma_analyze_fields_err(fields_v, i as int, e@);
                    }
                    return Err(e);
                },
            };
            let analyzed = FactoryFieldAnalysisOutput { field: field.clone(), primary_key, relation };
            proof {
                assert(spec_analyze_field(fields_v[i as int]) == Ok::<FactoryFieldV, ErrorV>(
                    analyzed@,
                ));
                lemma_factory_fields_view_push(out@, analyzed);
            }
            out.push(analyzed);
            i = i + 1;
        }
        proof {
            lemma_analyze_fields_ok(fields_v, factory_fields_view(out@));
        }
        Ok(out)
    }
}

/// A view of the relations among analyzed fields, each with its owning
/// field, in declaration order.
pub open spec fn spec_relations_of(fields: Seq<FactoryFieldV>) -> Seq<(FieldDefV, RelationV)>
    decreases fields.len(),
{
    if fields.len() == 0 {
        Seq::empty()
    } else {
        let rest = spec_relations_of(fields.drop_first());
        match fields[0].relation {
            Some(rel) => seq![(fields[0].field, rel)] + rest,
            None => rest,
        }
    }
}

/// The abstract form of a field-relation pair list.
pub open spec fn relation_pairs_view(pairs: Seq<(FieldDef, Relation)>) -> Seq<
    (FieldDefV, RelationV),
> {
    pairs.map_values(|p: (FieldDef, Relation)| (p.0@, p.1@))
}

/// Appending a pair extends the abstract pair list pointwise.
proof fn lemma_relation_pairs_view_push(pairs: Seq<(FieldDef, Relation)>, p: (FieldDef, Relation))
    ensures
        relation_pairs_view(pairs.push(p)) =~= relation_pairs_view(pairs).push((p.0@, p.1@)),
{
    assert forall|j: int| 0 <= j < pairs.len() + 1 implies relation_pairs_view(pairs.push(p))[j]
        == relation_pairs_view(pairs).push((p.0@, p.1@))[j] by {
        if j < pairs.len() {
            assert(pairs.push(p)[j] == pairs[j]);
        } else {
            assert(pairs.push(p)[j] == p);
        }
    }
}

/// Appending a relation-bearing field appends its pair to the relation list.
proof fn lemma_relations_of_push_some(fields: Seq<FactoryFieldV>, f: FactoryFieldV, rel: RelationV)
    requires
        f.relation == Some(rel),
    ensures
        spec_relations_of(fields.push(f)) == spec_relations_of(fields).push((f.field, rel)),
    decreases fields.len(),
{
    reveal_with_fuel(spec_relations_of, 2);
    if fields.len() == 0 {
        assert(fields.push(f)[0] == f);
        assert(fields.push(f).drop_first() =~= Seq::<FactoryFieldV>::empty());
        assert(spec_relations_of(fields.push(f)) == seq![(f.field, rel)] + Seq::<
            (FieldDefV, RelationV),
        >::empty());
        assert(seq![(f.field, rel)] + Seq::<(FieldDefV, RelationV)>::empty() =~= spec_relations_of(
            fields,
        ).push((f.field, rel)));
    } else {
        assert(fields.push(f)[0] == fields[0]);
        assert(fields.push(f).drop_first() =~= fields.drop_first().push(f));
        lemma_relations_of_push_some(fields.drop_first(), f, rel);
        let a = spec_relations_of(fields.drop_first());
        match fields[0].relation {
            Some(rel0) => {
                assert(spec_relations_of(fields.push(f)) == seq![(fields[0].field, rel0)] + a.push(
                    (f.field, rel),
                ));
                assert(seq![(fields[0].field, rel0)] + a.push((f.field, rel)) =~= (seq![
                    (fields[0].field, rel0),
                ] + a).push((f.field, rel)));
            },
            None => {
            },
        }
    }
}

/// Appending a field without a relation leaves the relation list unchanged.
proof fn lemma_relations_of_push_none(fields: Seq<FactoryFieldV>, f: FactoryFieldV)
    requires
        f.relation is None,
    ensures
        spec_relations_of(fields.push(f)) == spec_relations_of(fields),
    decreases fields.len(),
{
    reveal_with_fuel(spec_relations_of, 2);
    if fields.len() == 0 {
        assert(fields.push(f)[0] == f);
        assert(fields.push(f).drop_first() =~= Seq::<FactoryFieldV>::empty());
    } else {
        assert(fields.push(f)[0] == fields[0]);
        assert(fields.push(f).drop_first() =~= fields.drop_first().push(f));
        lemma_relations_of_push_none(fields.drop_first(), f);
    }
}

impl FactoryAnalysisOutput {
    /// The relations among the analyzed fields, each paired with its owning
    /// field, in declaration order.
    pub fn relations(&self) -> (r: Vec<(FieldDef, Relation)>)
        ensures
            relation_pairs_view(r@) == spec_relations_of(self@.fields),
    {
        let mut out: Vec<(FieldDef, Relation)> = Vec::new();
        let mut i: usize = 0;
        while i < self.fields.len()
            invariant
                0 <= i <= self.fields@.len(),
                relation_pairs_view(out@) =~= spec_relations_of(self@.fields.take(i as int)),
            decreases self.fields@.len() - i,
        {
            let f = &self.fields[i];
            proof {
                assert(self@.fields[i as int] == f@);
                assert(self@.fields.take(i + 1) =~= self@.fields.take(i as int).push(f@));
            }
            match &f.relation {
                Some(rel) => {
                    let p = (f.field.clone(), rel.clone());
                    proof {
                        lemma_relations_of_push_some(self@.fields.take(i as int), f@, rel@);
                        lemma_relation_pairs_view_push(out@, p);
                    }
                    out.push(p);
                },
                None => {
                    proof {
                        lemma_relations_of_push_none(self@.fields.take(i as int), f@);
                    }
                },
            }
            i = i + 1;
        }
        proof {
            assert(self@.fields.take(self@.fields.len() as int) =~= self@.fields);
        }
        out
    }
}

} // verus!
