//! Query synthesis for persistable records: the storage queries derived
//! from an analyzed record — its column list and its retrieval query.

use vstd::prelude::*;
use vstd::string::StringExecFns;
use crate::analysis::{spec_analyze_record, Analysis, AnalysisV};
use crate::error::{Error, ErrorV};
use crate::schema::{FieldDefV, RecordShape};

verus! {

/// The column names of an analyzed record: the named fields, in order.
pub open spec fn spec_column_names(fields: Seq<FieldDefV>) -> Seq<Seq<char>>
    decreases fields.len(),
{
    if fields.len() == 0 {
        Seq::empty()
    } else {
        let rest = spec_column_names(fields.drop_first());
        match fields[0].ident {
            Some(n) => seq![n] + rest,
            None => rest,
        }
    }
}

/// The parts joined with the separator between each two.
pub open spec fn spec_join(parts: Seq<Seq<char>>, sep: Seq<char>) -> Seq<char>
    decreases parts.len(),
{
    if parts.len() == 0 {
        Seq::empty()
    } else if parts.len() == 1 {
        parts[0]
    } else {
        parts[0] + sep + spec_join(parts.drop_first(), sep)
    }
}

/// The retrieval query of an analyzed record: every column, from its table.
pub open spec fn spec_select_all_query(a: AnalysisV) -> Seq<char> {
    "SELECT "@ + spec_join(spec_column_names(a.fields), ", "@) + " FROM "@ + a.table_name
}

/// Appending a named field appends its name to the column list.
proof fn lemma_column_names_push_some(fields: Seq<FieldDefV>, f: FieldDefV, n: Seq<char>)
    requires
        f.ident == Some(n),
    ensures
        spec_column_names(fields.push(f)) == spec_column_names(fields).push(n),
    decreases fields.len(),
{
    reveal_with_fuel(spec_column_names, 2);
    if fields.len() == 0 {
        assert(fields.push(f)[0] == f);
        assert(fields.push(f).drop_first() =~= Seq::<FieldDefV>::empty());
        assert(seq![n] + Seq::<Seq<char>>::empty() =~= spec_column_names(fields).push(n));
    } else {
        assert(fields.push(f)[0] == fields[0]);
        assert(fields.push(f).drop_first() =~= fields.drop_first().push(f));
        lemma_column_names_push_some(fields.drop_first(), f, n);
        let a = spec_column_names(fields.drop_first());
        match fields[0].ident {
            Some(n0) => {
                assert(seq![n0] + a.push(n) =~= (seq![n0] + a).push(n));
            },
            None => {
            },
        }
    }
}

/// Appending an unnamed field leaves the column list unchanged.
proof fn lemma_column_names_push_none(fields: Seq<FieldDefV>, f: FieldDefV)
    requires
        f.ident is None,
    ensures
        spec_column_names(fields.push(f)) == spec_column_names(fields),
    decreases fields.len(),
{
    reveal_with_fuel(spec_column_names, 2);
    if fields.len() == 0 {
        assert(fields.push(f)[0] == f);
        assert(fields.push(f).drop_first() =~= Seq::<FieldDefV>::empty());
    } else {
        assert(fields.push(f)[0] == fields[0]);
        assert(fields.push(f).drop_first() =~= fields.drop_first().push(f));
        lemma_column_names_push_none(fields.drop_first(), f);
    }
}

/// Joining one more part appends the separator and the part.
proof fn lemma_join_push(parts: Seq<Seq<char>>, sep: Seq<char>, p: Seq<char>)
    requires
        parts.len() > 0,
    ensures
        spec_join(parts.push(p), sep) == spec_join(parts, sep) + sep + p,
    decreases parts.len(),
{
    reveal_with_fuel(spec_join, 3);
    assert(parts.push(p)[0] == parts[0]);
    assert(parts.push(p).drop_first() =~= parts.drop_first().push(p));
    if parts.len() == 1 {
        assert(parts.drop_first() =~= Seq::<Seq<char>>::empty());
        assert(parts.drop_first().push(p) =~= seq![p]);
        assert(spec_join(seq![p], sep) == p);
        assert(spec_join(parts.push(p), sep) == parts[0] + sep + p);
        assert(spec_join(parts, sep) + sep + p == parts[0] + sep + p);
    } else {
        lemma_join_push(parts.drop_first(), sep, p);
        assert(spec_join(parts.push(p), sep) == parts[0] + sep + (spec_join(
            parts.drop_first(),
            sep,
        ) + sep + p));
        assert(parts[0] + sep + (spec_join(parts.drop_first(), sep) + sep + p) =~= (parts[0] + sep
            + spec_join(parts.drop_first(), sep)) + sep + p);
    }
}

/// Synthesizes the storage queries of one analyzed record.
pub struct PersistableCodegen {
    /// The analysis the queries are derived from.
    pub analysis: Analysis,
}

impl View for PersistableCodegen {
    type V = AnalysisV;

    open spec fn view(&self) -> AnalysisV {
        self.analysis@
    }
}

impl PersistableCodegen {
    /// Analyzes the record shape and wraps the result for query synthesis.
    pub fn from(input: RecordShape) -> (r: Result<Self, Error>)
        ensures
            match r {
                Ok(cg) => spec_analyze_record(input@) == Ok::<AnalysisV, ErrorV>(cg@),
                Err(e) => spec_analyze_record(input@) == Err::<AnalysisV, ErrorV>(e@),
            },
    {
        match Analysis::from(input) {
            Ok(analysis) => Ok(PersistableCodegen { analysis }),
            Err(e) => Err(e),
        }
    }

    /// The record's column names joined with `, `.
    pub fn column_list(&self) -> (r: String)
        ensures
            r@ == spec_join(spec_column_names(self@.fields), ", "@),
    {
        let ghost fields_v = self@.fields;
        let mut cols = String::new();
        let mut any: bool = false;
        let mut i: usize = 0;
        proof {
            assert(fields_v.take(0) =~= Seq::<FieldDefV>::empty());
            assert(spec_column_names(fields_v.take(0)) =~= Seq::<Seq<char>>::empty());
        }
        while i < self.analysis.fields.len()
            invariant
                0 <= i <= self.analysis.fields@.len(),
                fields_v == self@.fields,
                fields_v.len() == self.analysis.fields@.len(),
                any <==> spec_column_names(fields_v.take(i as int)).len() > 0,
                cols@ == spec_join(spec_column_names(fields_v.take(i as int)), ", "@),
            decreases self.analysis.fields@.len() - i,
        {
            let field = &self.analysis.fields[i];
            proof {
                assert(fields_v[i as int] == field@);
                assert(fields_v.take(i + 1) =~= fields_v.take(i as int).push(field@));
            }
            match &field.ident {
                Some(n) => {
                    proof {
                        lemma_column_names_push_some(fields_v.take(i as int), field@, n@);
                    }
                    if any {
                        proof {
                            lemma_join_push(
                                spec_column_names(fields_v.take(i as int)),
                                ", "@,
                                n@,
                            );
                        }
                        cols.append(", ");
                        cols.append(n.as_str());
                    } else {
                        proof {
                            assert(spec_column_names(fields_v.take(i as int)).push(n@)
                                =~= seq![n@]);
                            assert(cols@ =~= Seq::<char>::empty());
                        }
                        cols.append(n.as_str());
                        any = true;
                    }
                },
                None => {
                    proof {
                        lemma_column_names_push_none(fields_v.take(i as int), field@);
                    }
                },
            }
            i = i + 1;
        }
        proof {
            assert(fields_v.take(fields_v.len() as int) =~= fields_v);
        }
        cols
    }

    /// The retrieval query: `SELECT <columns> FROM <table>`.
    pub fn select_all_query(&self) -> (r: String)
        ensures
            r@ == spec_select_all_query(self@),
    {
        let cols = self.column_list();
        let mut q = String::from_str("SELECT ");
        q.append(cols.as_str());
        q.append(" FROM ");
        q.append(self.analysis.table_name.as_str());
        proof {
            assert(q@ =~= spec_select_all_query(self@));
        }
        q
    }
}

} // verus!
