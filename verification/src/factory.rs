//! The runtime factory: one optional value slot per field, one deferred
//! customization slot per relation, and the ordered construction protocol
//! that resolves related records first and then persists the assembled
//! record.
//!
//! A customization is the deferred transformation of the related type's
//! default factory: a list of setter applications, applied to that factory
//! before the related record is created.

use vstd::prelude::*;
use vstd::string::StringExecFns;
use crate::factory_analysis::{FactoryAnalysisOutput, FactoryAnalysisOutputV, FactoryFieldV};
use crate::names::str_eq;
use crate::persist::Persistable;
use crate::values::{
    default_value, default_of, pairs_view, spec_record_get, Record, RecordV, Value, ValueV,
};

verus! {

/// A deferred, single-use customization of a related type's factory: the
/// setter applications to apply to that factory before its record is
/// created.
#[derive(Debug)]
pub struct Customization {
    /// The field settings, in application order.
    pub settings: Vec<(String, Value)>,
}

impl View for Customization {
    type V = Seq<(Seq<char>, ValueV)>;

    open spec fn view(&self) -> Seq<(Seq<char>, ValueV)> {
        pairs_view(self.settings@)
    }
}

impl Customization {
    /// A customization that changes nothing.
    pub fn new() -> (r: Self)
        ensures
            r@ == Seq::<(Seq<char>, ValueV)>::empty(),
    {
        let r = Customization { settings: Vec::new() };
        proof {
            assert(pairs_view(r.settings@) =~= Seq::<(Seq<char>, ValueV)>::empty());
        }
        r
    }

    /// Adds one setter application: set the field `name` to `value`.
    pub fn set(self, name: &str, value: Value) -> (r: Self)
        ensures
            r@ == self@.push((name@, value@)),
    {
        let mut this = self;
        let pair = (String::from_str(name), value);
        proof {
            crate::values::lemma_pairs_view_push(this.settings@, pair);
        }
        this.settings.push(pair);
        this
    }
}

/// The registered analyses the factory resolves related types from.
#[derive(Debug)]
pub struct Registry {
    /// The registered analyses, in registration order.
    pub entries: Vec<FactoryAnalysisOutput>,
}

/// The abstract form of a [`Registry`].
pub open spec fn analyses_view(entries: Seq<FactoryAnalysisOutput>) -> Seq<
    FactoryAnalysisOutputV,
> {
    entries.map_values(|a: FactoryAnalysisOutput| a@)
}

impl View for Registry {
    type V = Seq<FactoryAnalysisOutputV>;

    open spec fn view(&self) -> Seq<FactoryAnalysisOutputV> {
        analyses_view(self.entries@)
    }
}

/// The position of the first registered analysis of the type named `ident`,
/// or `-1` when none is.
pub open spec fn registry_position(reg: Seq<FactoryAnalysisOutputV>, ident: Seq<char>) -> int
    decreases reg.len(),
{
    if reg.len() == 0 {
        -1
    } else if reg[0].base_struct_ident == ident {
        0
    } else {
        let r = registry_position(reg.drop_first(), ident);
        if r < 0 {
            -1
        } else {
            r + 1
        }
    }
}

/// The first registered analysis of the type named `ident`, if any.
pub open spec fn spec_registry_lookup(reg: Seq<FactoryAnalysisOutputV>, ident: Seq<char>) -> Option<
    FactoryAnalysisOutputV,
> {
    let p = registry_position(reg, ident);
    if p < 0 {
        None
    } else {
        Some(reg[p])
    }
}

/// The first analysis of `ident` stands at `i` when no earlier entry is of
/// that type and entry `i` is.
proof fn lemma_registry_position_found(reg: Seq<FactoryAnalysisOutputV>, ident: Seq<char>, i: int)
    requires
        0 <= i < reg.len(),
        reg[i].base_struct_ident == ident,
        forall|j: int| 0 <= j < i ==> (#[trigger] reg[j]).base_struct_ident != ident,
    ensures
        registry_position(reg, ident) == i,
    decreases reg.len(),
{
    if i > 0 {
        assert(reg[0].base_struct_ident != ident);
        assert(reg.drop_first()[i - 1] == reg[i]);
        assert forall|j: int| 0 <= j < i - 1 implies (#[trigger] reg.drop_first()[j])
            .base_struct_ident != ident by {
            assert(reg.drop_first()[j] == reg[j + 1]);
        }
        lemma_registry_position_found(reg.drop_first(), ident, i - 1);
    }
}

/// No entry is of type `ident` exactly when its position is `-1`.
proof fn lemma_registry_position_absent(reg: Seq<FactoryAnalysisOutputV>, ident: Seq<char>)
    requires
        forall|j: int| 0 <= j < reg.len() ==> (#[trigger] reg[j]).base_struct_ident != ident,
    ensures
        registry_position(reg, ident) == -1,
    decreases reg.len(),
{
    if reg.len() > 0 {
        assert forall|j: int| 0 <= j < reg.drop_first().len() implies (#[trigger] reg.drop_first()[j]).base_struct_ident != ident by {
            assert(reg.drop_first()[j] == reg[j + 1]);
        }
        lemma_registry_position_absent(reg.drop_first(), ident);
    }
}

impl Registry {
    /// An empty registry.
    pub fn new() -> (r: Self)
        ensures
            r@ == Seq::<FactoryAnalysisOutputV>::empty(),
    {
        let r = Registry { entries: Vec::new() };
        proof {
            assert(analyses_view(r.entries@) =~= Seq::<FactoryAnalysisOutputV>::empty());
        }
        r
    }

    /// Registers one analysis, after all already registered.
    pub fn register(&mut self, analysis: FactoryAnalysisOutput)
        ensures
            final(self)@ == old(self)@.push(analysis@),
    {
        proof {
            let entries = self.entries@;
            let a = analysis;
            assert forall|j: int| 0 <= j < entries.len() + 1 implies analyses_view(entries.push(a))[
                j] == analyses_view(entries).push(a@)[j] by {
                if j < entries.len() {
                    assert(entries.push(a)[j] == entries[j]);
                } else {
                    assert(entries.push(a)[j] == a);
                }
            }
            assert(analyses_view(entries.push(a)) =~= analyses_view(entries).push(a@));
        }
        self.entries.push(analysis);
    }

    /// The first registered analysis of the type named `ident`, if any.
    pub fn lookup(&self, ident: &str) -> (r: Option<&FactoryAnalysisOutput>)
        ensures
            match r {
                Some(a) => spec_registry_lookup(self@, ident@) == Some(a@),
                None => spec_registry_lookup(self@, ident@) is None,
            },
    {
        let mut i: usize = 0;
        while i < self.entries.len()
            invariant
                0 <= i <= self.entries@.len(),
                forall|j: int| 0 <= j < i ==> (#[trigger] self@[j]).base_struct_ident != ident@,
            decreases self.entries@.len() - i,
        {
            let entry = &self.entries[i];
            proof {
                assert(self@[i as int] == entry@);
            }
            if str_eq(entry.base_struct_ident.as_str(), ident) {
                proof {
                    lemma_registry_position_found(self@, ident@, i as int);
                }
                return Some(entry);
            }
            i = i + 1;
        }
        proof {
            lemma_registry_position_absent(self@, ident@);
        }
        None
    }
}

/// The label a field contributes to records: its name, or the empty string
/// for an unnamed field.
pub open spec fn field_label(f: crate::schema::FieldDefV) -> Seq<char> {
    match f.ident {
        Some(n) => n,
        None => Seq::empty(),
    }
}

/// The position of the first field labelled `name`, or `-1` when none is.
pub open spec fn label_index_of(fields: Seq<FactoryFieldV>, name: Seq<char>) -> int
    decreases fields.len(),
{
    if fields.len() == 0 {
        -1
    } else if field_label(fields[0].field) == name {
        0
    } else {
        let r = label_index_of(fields.drop_first(), name);
        if r < 0 {
            -1
        } else {
            r + 1
        }
    }
}

/// The first field labelled `name` stands at `i` when no earlier field has
/// that label and field `i` does.
proof fn lemma_label_index_found(fields: Seq<FactoryFieldV>, name: Seq<char>, i: int)
    requires
        0 <= i < fields.len(),
        field_label(fields[i].field) == name,
        forall|j: int| 0 <= j < i ==> field_label((#[trigger] fields[j]).field) != name,
    ensures
        label_index_of(fields, name) == i,
    decreases fields.len(),
{
    if i > 0 {
        assert(field_label(fields[0].field) != name);
        assert(fields.drop_first()[i - 1] == fields[i]);
        assert forall|j: int| 0 <= j < i - 1 implies field_label(
            (#[trigger] fields.drop_first()[j]).field,
        ) != name by {
            assert(fields.drop_first()[j] == fields[j + 1]);
        }
        lemma_label_index_found(fields.drop_first(), name, i - 1);
    }
}

/// No field is labelled `name` exactly when its position is `-1`.
proof fn lemma_label_index_absent(fields: Seq<FactoryFieldV>, name: Seq<char>)
    requires
        forall|j: int|
            0 <= j < fields.len() ==> field_label((#[trigger] fields[j]).field) != name,
    ensures
        label_index_of(fields, name) == -1,
    decreases fields.len(),
{
    if fields.len() > 0 {
        assert forall|j: int| 0 <= j < fields.drop_first().len() implies field_label(
            (#[trigger] fields.drop_first()[j]).field,
        ) != name by {
            assert(fields.drop_first()[j] == fields[j + 1]);
        }
        lemma_label_index_absent(fields.drop_first(), name);
    }
}

/// The position of the first relation whose base name is `base`, or `-1`.
pub open spec fn relation_index_of(fields: Seq<FactoryFieldV>, base: Seq<char>) -> int
    decreases fields.len(),
{
    if fields.len() == 0 {
        -1
    } else if match fields[0].relation {
        Some(rel) => rel.name == base,
        None => false,
    } {
        0
    } else {
        let r = relation_index_of(fields.drop_first(), base);
        if r < 0 {
            -1
        } else {
            r + 1
        }
    }
}

/// Whether a field's relation has base name `base`.
pub open spec fn relation_named(f: FactoryFieldV, base: Seq<char>) -> bool {
    match f.relation {
        Some(rel) => rel.name == base,
        None => false,
    }
}

/// The first relation named `base` stands at `i` when no earlier field has
/// one and field `i` does.
proof fn lemma_relation_index_found(fields: Seq<FactoryFieldV>, base: Seq<char>, i: int)
    requires
        0 <= i < fields.len(),
        relation_named(fields[i], base),
        forall|j: int| 0 <= j < i ==> !relation_named(#[trigger] fields[j], base),
    ensures
        relation_index_of(fields, base) == i,
    decreases fields.len(),
{
    if i > 0 {
        assert(!relation_named(fields[0], base));
        assert(fields.drop_first()[i - 1] == fields[i]);
        assert forall|j: int| 0 <= j < i - 1 implies !relation_named(
            #[trigger] fields.drop_first()[j],
            base,
        ) by {
            assert(fields.drop_first()[j] == fields[j + 1]);
        }
        lemma_relation_index_found(fields.drop_first(), base, i - 1);
    }
}

/// No field's relation is named `base` exactly when its position is `-1`.
proof fn lemma_relation_index_absent(fields: Seq<FactoryFieldV>, base: Seq<char>)
    requires
        forall|j: int| 0 <= j < fields.len() ==> !relation_named(#[trigger] fields[j], base),
    ensures
        relation_index_of(fields, base) == -1,
    decreases fields.len(),
{
    if fields.len() > 0 {
        assert forall|j: int| 0 <= j < fields.drop_first().len() implies !relation_named(
            #[trigger] fields.drop_first()[j],
            base,
        ) by {
            assert(fields.drop_first()[j] == fields[j + 1]);
        }
        lemma_relation_index_absent(fields.drop_first(), base);
    }
}

/// The abstract form of a slot list.
pub open spec fn opt_values_view(slots: Seq<Option<Value>>) -> Seq<Option<ValueV>> {
    slots.map_values(
        |o: Option<Value>|
            match o {
                Some(v) => Some(v@),
                None => None,
            },
    )
}

/// Appending a slot extends the abstract slot list pointwise.
proof fn lemma_opt_values_view_push(slots: Seq<Option<Value>>, o: Option<Value>)
    ensures
        opt_values_view(slots.push(o)) =~= opt_values_view(slots).push(
            match o {
                Some(v) => Some(v@),
                None => None,
            },
        ),
{
    assert forall|j: int| 0 <= j < slots.len() + 1 implies opt_values_view(slots.push(o))[j]
        == opt_values_view(slots).push(
        match o {
            Some(v) => Some(v@),
            None => None,
        },
    )[j] by {
        if j < slots.len() {
            assert(slots.push(o)[j] == slots[j]);
        } else {
            assert(slots.push(o)[j] == o);
        }
    }
}

/// Updating a slot updates the abstract slot list pointwise.
proof fn lemma_opt_values_view_update(slots: Seq<Option<Value>>, i: int, o: Option<Value>)
    requires
        0 <= i < slots.len(),
    ensures
        opt_values_view(slots.update(i, o)) =~= opt_values_view(slots).update(
            i,
            match o {
                Some(v) => Some(v@),
                None => None,
            },
        ),
{
    assert forall|j: int| 0 <= j < slots.len() implies opt_values_view(slots.update(i, o))[j]
        == opt_values_view(slots).update(
        i,
        match o {
            Some(v) => Some(v@),
            None => None,
        },
    )[j] by {
        if j == i {
            assert(slots.update(i, o)[j] == o);
        } else {
            assert(slots.update(i, o)[j] == slots[j]);
        }
    }
}

/// The abstract form of a pending-customization list.
pub open spec fn pending_view(pending: Seq<Option<Customization>>) -> Seq<
    Option<Seq<(Seq<char>, ValueV)>>,
> {
    pending.map_values(
        |o: Option<Customization>|
            match o {
                Some(c) => Some(c@),
                None => None,
            },
    )
}

/// Appending a pending slot extends the abstract list pointwise.
proof fn lemma_pending_view_push(pending: Seq<Option<Customization>>, o: Option<Customization>)
    ensures
        pending_view(pending.push(o)) =~= pending_view(pending).push(
            match o {
                Some(c) => Some(c@),
                None => None,
            },
        ),
{
    assert forall|j: int| 0 <= j < pending.len() + 1 implies pending_view(pending.push(o))[j]
        == pending_view(pending).push(
        match o {
            Some(c) => Some(c@),
            None => None,
        },
    )[j] by {
        if j < pending.len() {
            assert(pending.push(o)[j] == pending[j]);
        } else {
            assert(pending.push(o)[j] == o);
        }
    }
}

/// Updating a pending slot updates the abstract list pointwise.
proof fn lemma_pending_view_update(
    pending: Seq<Option<Customization>>,
    i: int,
    o: Option<Customization>,
)
    requires
        0 <= i < pending.len(),
    ensures
        pending_view(pending.update(i, o)) =~= pending_view(pending).update(
            i,
            match o {
                Some(c) => Some(c@),
                None => None,
            },
        ),
{
    assert forall|j: int| 0 <= j < pending.len() implies pending_view(pending.update(i, o))[j]
        == pending_view(pending).update(
        i,
        match o {
            Some(c) => Some(c@),
            None => None,
        },
    )[j] by {
        if j == i {
            assert(pending.update(i, o)[j] == o);
        } else {
            assert(pending.update(i, o)[j] == pending[j]);
        }
    }
}

/// The abstract form of a [`Factory`].
pub ghost struct FactoryV {
    pub analysis: FactoryAnalysisOutputV,
    pub slots: Seq<Option<ValueV>>,
    pub pending: Seq<Option<Seq<(Seq<char>, ValueV)>>>,
}

/// A factory is well formed when it holds one value slot and one pending
/// slot per analyzed field.
pub open spec fn factory_wf(f: FactoryV) -> bool {
    &&& f.slots.len() == f.analysis.fields.len()
    &&& f.pending.len() == f.analysis.fields.len()
}

/// The slot list after setting the field labelled `name` to `value`: the
/// first such field's slot is overwritten; no other slot changes; nothing
/// changes when no field has that label.
pub open spec fn spec_set_slot(
    a: FactoryAnalysisOutputV,
    slots: Seq<Option<ValueV>>,
    name: Seq<char>,
    value: ValueV,
) -> Seq<Option<ValueV>> {
    let i = label_index_of(a.fields, name);
    if 0 <= i < slots.len() {
        slots.update(i, Some(value))
    } else {
        slots
    }
}

/// The pending list after storing a customization for the relation named
/// `base`: the first such relation's slot is overwritten — the last stored
/// customization wins; nothing changes when no relation has that name.
pub open spec fn spec_store_callback(
    a: FactoryAnalysisOutputV,
    pending: Seq<Option<Seq<(Seq<char>, ValueV)>>>,
    base: Seq<char>,
    cust: Seq<(Seq<char>, ValueV)>,
) -> Seq<Option<Seq<(Seq<char>, ValueV)>>> {
    let i = relation_index_of(a.fields, base);
    if 0 <= i < pending.len() {
        pending.update(i, Some(cust))
    } else {
        pending
    }
}

/// The value a slot contributes to the assembled record: its value when
/// set, the field type's zero value otherwise.
pub open spec fn slot_or_default(f: FactoryFieldV, s: Option<ValueV>) -> ValueV {
    match s {
        Some(v) => v,
        None => default_value(f.field.ty),
    }
}

/// The record assembled from an analysis and a slot list: every field, in
/// order, with its set value or its type's zero value.
pub open spec fn spec_assemble(a: FactoryAnalysisOutputV, slots: Seq<Option<ValueV>>) -> RecordV {
    RecordV {
        ident: a.base_struct_ident,
        values: Seq::new(
            a.fields.len(),
            |i: int| (field_label(a.fields[i].field), slot_or_default(a.fields[i], slots[i])),
        ),
    }
}

/// A factory for one record type: a value slot per field and a deferred
/// customization slot per relation, built against a borrowed analysis.
#[derive(Debug)]
pub struct Factory<'a> {
    analysis: &'a FactoryAnalysisOutput,
    slots: Vec<Option<Value>>,
    pending: Vec<Option<Customization>>,
}

impl<'a> View for Factory<'a> {
    type V = FactoryV;

    closed spec fn view(&self) -> FactoryV {
        FactoryV {
            analysis: self.analysis@,
            slots: opt_values_view(self.slots@),
            pending: pending_view(self.pending@),
        }
    }
}

impl<'a> Factory<'a> {
    /// A fresh factory with every slot empty.
    pub fn new(analysis: &'a FactoryAnalysisOutput) -> (r: Self)
        ensures
            factory_wf(r@),
            r@.analysis == analysis@,
            forall|i: int| 0 <= i < r@.slots.len() ==> r@.slots[i] is None,
            forall|i: int| 0 <= i < r@.pending.len() ==> r@.pending[i] is None,
    {
        let n = analysis.fields.len();
        let mut slots: Vec<Option<Value>> = Vec::new();
        let mut pending: Vec<Option<Customization>> = Vec::new();
        let mut i: usize = 0;
        while i < n
            invariant
                0 <= i <= n,
                slots@.len() == i,
                pending@.len() == i,
                forall|j: int| 0 <= j < i ==> slots@[j] is None,
                forall|j: int| 0 <= j < i ==> pending@[j] is None,
            decreases n - i,
        {
            slots.push(None);
            pending.push(None);
            i = i + 1;
        }
        let r = Factory { analysis, slots, pending };
        proof {
            assert forall|j: int| 0 <= j < r@.slots.len() implies r@.slots[j] is None by {
                assert(r@.slots[j] == (match r.slots@[j] {
                    Some(v) => Some(v@),
                    None => None::<ValueV>,
                }));
            }
            assert forall|j: int| 0 <= j < r@.pending.len() implies r@.pending[j] is None by {
                assert(r@.pending[j] == (match r.pending@[j] {
                    Some(c) => Some(c@),
                    None => None::<Seq<(Seq<char>, ValueV)>>,
                }));
            }
        }
        r
    }

    /// Sets the slot of the field labelled `name` to `value`; a pure value
    /// update, no other slot is affected. A name that labels no field
    /// changes nothing.
    pub fn set(self, name: &str, value: Value) -> (r: Self)
        requires
            factory_wf(self@),
        ensures
            factory_wf(r@),
            r@.analysis == self@.analysis,
            r@.pending == self@.pending,
            r@.slots == spec_set_slot(self@.analysis, self@.slots, name@, value@),
    {
        let mut this = self;
        let ghost fields_v = this@.analysis.fields;
        let n = this.analysis.fields.len();
        let mut i: usize = 0;
        while i < n
            invariant
                0 <= i <= n,
                n == fields_v.len(),
                this@ == self@,
                fields_v == this@.analysis.fields,
                factory_wf(this@),
                forall|j: int|
                    0 <= j < i ==> field_label((#[trigger] fields_v[j]).field) != name@,
            decreases n - i,
        {
            let field = &this.analysis.fields[i];
            proof {
                assert(fields_v[i as int] == field@);
            }
            let matches_label = match &field.field.ident {
                Some(s) => str_eq(s.as_str(), name),
                None => name.is_empty(),
            };
            proof {
                if name@.len() == 0 {
                    assert(name@ =~= Seq::<char>::empty());
                }
            }
            if matches_label {
                proof {
                    assert(field_label(fields_v[i as int].field) == name@);
                    lemma_label_index_found(fields_v, name@, i as int);
                    lemma_opt_values_view_update(this.slots@, i as int, Some(value));
                }
                this.slots[i] = Some(value);
                return this;
            }
            proof {
                if name@.len() == 0 {
                    assert(name@ =~= Seq::<char>::empty());
                }
                assert(field_label(fields_v[i as int].field) != name@);
            }
            i = i + 1;
        }
        proof {
            lemma_label_index_absent(fields_v, name@);
        }
        this
    }

    /// Stores a deferred customization for the relation named `base`,
    /// overwriting any customization stored for it before — the last one
    /// wins. A name that matches no relation changes nothing.
    pub fn for_relation(self, base: &str, customization: Customization) -> (r: Self)
        requires
            factory_wf(self@),
        ensures
            factory_wf(r@),
            r@.analysis == self@.analysis,
            r@.slots == self@.slots,
            r@.pending == spec_store_callback(self@.analysis, self@.pending, base@, customization@),
    {
        let mut this = self;
        let ghost fields_v = this@.analysis.fields;
        let n = this.analysis.fields.len();
        let mut i: usize = 0;
        while i < n
            invariant
                0 <= i <= n,
                n == fields_v.len(),
                this@ == self@,
                fields_v == this@.analysis.fields,
                factory_wf(this@),
                forall|j: int| 0 <= j < i ==> !relation_named(#[trigger] fields_v[j], base@),
            decreases n - i,
        {
            let field = &this.analysis.fields[i];
            proof {
                assert(fields_v[i as int] == field@);
            }
            let matches_base = match &field.relation {
                Some(rel) => str_eq(rel.name.as_str(), base),
                None => false,
            };
            if matches_base {
                proof {
                    assert(relation_named(fields_v[i as int], base@));
                    lemma_relation_index_found(fields_v, base@, i as int);
                    lemma_pending_view_update(this.pending@, i as int, Some(customization));
                }
                this.pending[i] = Some(customization);
                return this;
            }
            proof {
                assert(!relation_named(fields_v[i as int], base@));
            }
            i = i + 1;
        }
        proof {
            lemma_relation_index_absent(fields_v, base@);
        }
        this
    }

    /// Applies a customization: its setter applications, in order.
    pub fn customize(self, customization: &Customization) -> (r: Self)
        requires
            factory_wf(self@),
        ensures
            factory_wf(r@),
            r@.analysis == self@.analysis,
            r@.pending == self@.pending,
            r@.slots == spec_apply_settings(self@.analysis, self@.slots, customization@),
    {
        let ghost cust_v = customization@;
        let mut out = self;
        let ghost start = out@;
        let mut i: usize = 0;
        proof {
            assert(cust_v.skip(0) =~= cust_v);
        }
        while i < customization.settings.len()
            invariant
                0 <= i <= customization.settings@.len(),
                cust_v == customization@,
                factory_wf(out@),
                out@.analysis == start.analysis,
                out@.pending == start.pending,
                spec_apply_settings(start.analysis, start.slots, cust_v) == spec_apply_settings(
                    out@.analysis,
                    out@.slots,
                    cust_v.skip(i as int),
                ),
            decreases customization.settings@.len() - i,
        {
            let pair = &customization.settings[i];
            proof {
                assert(cust_v[i as int] == (pair.0@, pair.1@));
                assert(cust_v.skip(i as int)[0] == cust_v[i as int]);
                assert(cust_v.skip(i as int).drop_first() =~= cust_v.skip(i + 1));
            }
            out = out.set(pair.0.as_str(), pair.1.clone());
            i = i + 1;
        }
        proof {
            assert(cust_v.skip(cust_v.len() as int) =~= Seq::<(Seq<char>, ValueV)>::empty());
        }
        out
    }

    /// The value slot of the field labelled `name`, if that field exists
    /// and its slot is set.
    pub fn slot(&self, name: &str) -> (r: Option<&Value>)
        requires
            factory_wf(self@),
        ensures
            match r {
                Some(v) => {
                    let i = label_index_of(self@.analysis.fields, name@);
                    0 <= i && self@.slots[i] == Some(v@)
                },
                None => {
                    let i = label_index_of(self@.analysis.fields, name@);
                    i < 0 || self@.slots[i] is None
                },
            },
    {
        let ghost fields_v = self@.analysis.fields;
        let n = self.analysis.fields.len();
        let mut i: usize = 0;
        while i < n
            invariant
                0 <= i <= n,
                n == fields_v.len(),
                fields_v == self@.analysis.fields,
                factory_wf(self@),
                forall|j: int|
                    0 <= j < i ==> field_label((#[trigger] fields_v[j]).field) != name@,
            decreases n - i,
        {
            let field = &self.analysis.fields[i];
            proof {
                assert(fields_v[i as int] == field@);
            }
            let matches_label = match &field.field.ident {
                Some(s) => str_eq(s.as_str(), name),
                None => name.is_empty(),
            };
            proof {
                if name@.len() == 0 {
                    assert(name@ =~= Seq::<char>::empty());
                }
            }
            if matches_label {
                proof {
                    assert(field_label(fields_v[i as int].field) == name@);
                    lemma_label_index_found(fields_v, name@, i as int);
                    assert(self@.slots[i as int] == (match self.slots@[i as int] {
                        Some(v) => Some(v@),
                        None => None::<ValueV>,
                    }));
                }
                return match &self.slots[i] {
                    Some(v) => Some(v),
                    None => None,
                };
            }
            proof {
                assert(field_label(fields_v[i as int].field) != name@);
            }
            i = i + 1;
        }
        proof {
            lemma_label_index_absent(fields_v, name@);
        }
        None
    }

    /// Assembles the record: every field's set value, or its type's zero
    /// value where the slot is empty.
    pub fn assemble(&self) -> (r: Record)
        requires
            factory_wf(self@),
        ensures
            r@ == spec_assemble(self@.analysis, self@.slots),
    {
        let ghost target = spec_assemble(self@.analysis, self@.slots);
        let n = self.analysis.fields.len();
        let mut values: Vec<(String, Value)> = Vec::new();
        let mut i: usize = 0;
        while i < n
            invariant
                0 <= i <= n,
                n == self@.analysis.fields.len(),
                factory_wf(self@),
                target == spec_assemble(self@.analysis, self@.slots),
                pairs_view(values@) =~= target.values.subrange(0, i as int),
            decreases n - i,
        {
            let field = &self.analysis.fields[i];
            proof {
                assert(self@.analysis.fields[i as int] == field@);
            }
            let name = match &field.field.ident {
                Some(s) => s.clone(),
                None => String::new(),
            };
            let value = match &self.slots[i] {
                Some(v) => v.clone(),
                None => default_of(field.field.ty),
            };
            let pair = (name, value);
            proof {
                assert(self@.slots[i as int] == (match self.slots@[i as int] {
                    Some(v) => Some(v@),
                    None => None::<ValueV>,
                }));
                assert((pair.0@, pair.1@) == target.values[i as int]);
                crate::values::lemma_pairs_view_push(values@, pair);
            }
            values.push(pair);
            i = i + 1;
        }
        proof {
            assert(pairs_view(values@) =~= target.values);
        }
        let r = Record { ident: self.analysis.base_struct_ident.clone(), values };
        proof {
            assert(r@.values =~= target.values);
        }
        r
    }
}


/// A slot list of `n` empty slots.
pub open spec fn empty_slots(n: nat) -> Seq<Option<ValueV>> {
    Seq::new(n, |i: int| None)
}

/// How many customizations are pending.
pub open spec fn count_pending(p: Seq<Option<Seq<(Seq<char>, ValueV)>>>) -> nat
    decreases p.len(),
{
    if p.len() == 0 {
        0
    } else {
        (if p.last() is Some {
            1nat
        } else {
            0nat
        }) + count_pending(p.drop_last())
    }
}

/// A list with no pending customization counts zero.
proof fn lemma_count_pending_zero(p: Seq<Option<Seq<(Seq<char>, ValueV)>>>)
    requires
        forall|j: int| 0 <= j < p.len() ==> p[j] is None,
    ensures
        count_pending(p) == 0,
    decreases p.len(),
{
    if p.len() > 0 {
        assert(p.last() is None);
        assert forall|j: int| 0 <= j < p.drop_last().len() implies p.drop_last()[j] is None by {
            assert(p.drop_last()[j] == p[j]);
        }
        lemma_count_pending_zero(p.drop_last());
    }
}

/// A list with a pending customization counts at least one.
proof fn lemma_count_pending_pos(p: Seq<Option<Seq<(Seq<char>, ValueV)>>>, j: int)
    requires
        0 <= j < p.len(),
        p[j] is Some,
    ensures
        count_pending(p) >= 1,
    decreases p.len(),
{
    if j == p.len() - 1 {
        assert(p.last() is Some);
    } else {
        assert(p.drop_last()[j] == p[j]);
        lemma_count_pending_pos(p.drop_last(), j);
    }
}

/// The relation-resolution pass of the construction protocol, from field
/// `i` on: for each relation with a pending customization, in field order,
/// the related type's default factory is customized, its record assembled
/// and created against the store, and the referenced key of the stored form
/// written into the owner's field slot — overwriting any value set before.
/// A store failure aborts the pass at once and leaves the remaining
/// relations unresolved. A relation whose target type is not registered, or
/// whose referenced key is absent from the stored form, leaves its field
/// slot as it was.
pub open spec fn spec_resolve<P: Persistable>(
    a: FactoryAnalysisOutputV,
    slots: Seq<Option<ValueV>>,
    pending: Seq<Option<Seq<(Seq<char>, ValueV)>>>,
    reg: Seq<FactoryAnalysisOutputV>,
    store: P::V,
    i: int,
) -> (P::V, Result<Seq<Option<ValueV>>, ()>)
    decreases a.fields.len() - i,
{
    if i < 0 || i >= a.fields.len() {
        (store, Ok(slots))
    } else if !(a.fields[i].relation is Some && pending[i] is Some) {
        spec_resolve::<P>(a, slots, pending, reg, store, i + 1)
    } else {
        let rel = a.fields[i].relation->Some_0;
        let settings = pending[i]->Some_0;
        match spec_registry_lookup(reg, rel.referenced_type) {
            None => spec_resolve::<P>(a, slots, pending, reg, store, i + 1),
            Some(child) => {
                let child_slots = spec_apply_settings(
                    child,
                    empty_slots(child.fields.len() as nat),
                    settings,
                );
                let child_rec = spec_assemble(child, child_slots);
                if P::accepts(store, child_rec) {
                    let store2 = P::store_after(store, child_rec);
                    let stored = P::stored(store, child_rec);
                    match spec_record_get(stored.values, rel.referenced_key) {
                        Some(v) => spec_resolve::<P>(
                            a,
                            slots.update(i, Some(v)),
                            pending,
                            reg,
                            store2,
                            i + 1,
                        ),
                        None => spec_resolve::<P>(a, slots, pending, reg, store2, i + 1),
                    }
                } else {
                    (store, Err(()))
                }
            },
        }
    }
}

/// The whole construction protocol: resolve every customized relation in
/// field order, assemble the record from the final slots, and create it
/// against the store. The outcome pairs the store's final state with the
/// stored record, or with an error when the store rejected the assembled
/// record or any related one.
pub open spec fn spec_create<P: Persistable>(
    f: FactoryV,
    reg: Seq<FactoryAnalysisOutputV>,
    store: P::V,
) -> (P::V, Result<RecordV, ()>) {
    let pass = spec_resolve::<P>(f.analysis, f.slots, f.pending, reg, store, 0);
    match pass.1 {
        Err(_) => (pass.0, Err(())),
        Ok(slots2) => {
            let rec = spec_assemble(f.analysis, slots2);
            if P::accepts(pass.0, rec) {
                (P::store_after(pass.0, rec), Ok(P::stored(pass.0, rec)))
            } else {
                (pass.0, Err(()))
            }
        },
    }
}

/// With nothing pending, the resolution pass changes neither slots nor
/// store.
pub proof fn lemma_resolve_no_pending<P: Persistable>(
    a: FactoryAnalysisOutputV,
    slots: Seq<Option<ValueV>>,
    pending: Seq<Option<Seq<(Seq<char>, ValueV)>>>,
    reg: Seq<FactoryAnalysisOutputV>,
    store: P::V,
    i: int,
)
    requires
        forall|j: int| 0 <= j < pending.len() ==> pending[j] is None,
        pending.len() == a.fields.len(),
        0 <= i,
    ensures
        spec_resolve::<P>(a, slots, pending, reg, store, i) == (store, Ok::<
            Seq<Option<ValueV>>,
            (),
        >(slots)),
    decreases a.fields.len() - i,
{
    if i < a.fields.len() {
        lemma_resolve_no_pending::<P>(a, slots, pending, reg, store, i + 1);
    }
}

/// The slot list after applying a customization's settings, in order.
pub open spec fn spec_apply_settings(
    a: FactoryAnalysisOutputV,
    slots: Seq<Option<ValueV>>,
    settings: Seq<(Seq<char>, ValueV)>,
) -> Seq<Option<ValueV>>
    decreases settings.len(),
{
    if settings.len() == 0 {
        slots
    } else {
        spec_apply_settings(
            a,
            spec_set_slot(a, slots, settings[0].0, settings[0].1),
            settings.drop_first(),
        )
    }
}

} // verus!

verus! {

impl<'a> Factory<'a> {
    /// The central construction operation: resolves every relation with a
    /// pending customization, in field declaration order — creating the
    /// related record first and copying its referenced key into the owning
    /// field, overwriting any value set before — then assembles this
    /// record, with every unset slot at its field type's zero value, and
    /// creates it against the store. The first store failure aborts the
    /// whole call: no further relation is resolved and the owning record is
    /// never created.
    pub fn create<P: Persistable>(self, registry: &'a Registry, connection: &mut P) -> (r: Result<
        Record,
        P::Error,
    >)
        requires
            factory_wf(self@),
        ensures
            ({
                let pr = spec_create::<P>(self@, registry@, old(connection)@);
                &&& final(connection)@ == pr.0
                &&& match (r, pr.1) {
                    (Ok(rec), Ok(recv)) => rec@ == recv,
                    (Err(_), Err(_)) => true,
                    _ => false,
                }
            }),
        decreases count_pending(self@.pending),
    {
        let mut this = self;
        let ghost orig = this@;
        let ghost store0 = connection@;
        let ghost regv = registry@;
        let n = this.analysis.fields.len();
        let mut i: usize = 0;
        while i < n
            invariant
                0 <= i <= n,
                orig == self@,
                store0 == old(connection)@,
                regv == registry@,
                factory_wf(this@),
                this@.analysis == orig.analysis,
                this@.pending == orig.pending,
                n == orig.analysis.fields.len(),
                spec_resolve::<P>(orig.analysis, orig.slots, orig.pending, regv, store0, 0)
                    == spec_resolve::<P>(
                    orig.analysis,
                    this@.slots,
                    orig.pending,
                    regv,
                    connection@,
                    i as int,
                ),
            decreases n - i,
        {
            let ghost pre_slots = this@.slots;
            let ghost pre_store = connection@;
            let field = &this.analysis.fields[i];
            proof {
                assert(orig.analysis.fields[i as int] == field@);
            }
            let rel = match &field.relation {
                None => {
                    proof {
                        assert(spec_resolve::<P>(
                            orig.analysis,
                            pre_slots,
                            orig.pending,
                            regv,
                            pre_store,
                            i as int,
                        ) == spec_resolve::<P>(
                            orig.analysis,
                            pre_slots,
                            orig.pending,
                            regv,
                            pre_store,
                            i + 1,
                        ));
                    }
                    i = i + 1;
                    continue ;
                },
                Some(rel) => rel,
            };
            let pending_here = match &this.pending[i] {
                None => {
                    proof {
                        assert(this@.pending[i as int] == (match this.pending@[i as int] {
                            Some(c) => Some(c@),
                            None => None::<Seq<(Seq<char>, ValueV)>>,
                        }));
                        assert(spec_resolve::<P>(
                            orig.analysis,
                            pre_slots,
                            orig.pending,
                            regv,
                            pre_store,
                            i as int,
                        ) == spec_resolve::<P>(
                            orig.analysis,
                            pre_slots,
                            orig.pending,
                            regv,
                            pre_store,
                            i + 1,
                        ));
                    }
                    i = i + 1;
                    continue ;
                },
                Some(cust) => cust,
            };
            proof {
                assert(this@.pending[i as int] == (match this.pending@[i as int] {
                    Some(c) => Some(c@),
                    None => None::<Seq<(Seq<char>, ValueV)>>,
                }));
                assert(orig.pending[i as int] == Some(pending_here@));
            }
            let child_entry = match registry.lookup(rel.referenced_type.as_str()) {
                None => {
                    proof {
                        assert(spec_resolve::<P>(
                            orig.analysis,
                            pre_slots,
                            orig.pending,
                            regv,
                            pre_store,
                            i as int,
                        ) == spec_resolve::<P>(
                            orig.analysis,
                            pre_slots,
                            orig.pending,
                            regv,
                            pre_store,
                            i + 1,
                        ));
                    }
                    i = i + 1;
                    continue ;
                },
                Some(entry) => entry,
            };
            let child0 = Factory::new(child_entry);
            proof {
                assert(child0@.slots =~= empty_slots(child_entry@.fields.len() as nat));
            }
            let child = child0.customize(pending_here);
            let ghost child_v = child@;
            proof {
                lemma_count_pending_zero(child_v.pending);
                lemma_count_pending_pos(self@.pending, i as int);
            }
            let created = child.create(registry, connection);
            proof {
                lemma_resolve_no_pending::<P>(
                    child_v.analysis,
                    child_v.slots,
                    child_v.pending,
                    regv,
                    pre_store,
                    0,
                );
            }
            let rec = match created {
                Err(e) => {
                    proof {
                        assert(spec_resolve::<P>(
                            orig.analysis,
                            pre_slots,
                            orig.pending,
                            regv,
                            pre_store,
                            i as int,
                        ) == (pre_store, Err::<Seq<Option<ValueV>>, ()>(())));
                    }
                    return Err(e);
                },
                Ok(rec) => rec,
            };
            match rec.get(rel.referenced_key.as_str()) {
                Some(v) => {
                    let value = v.clone();
                    proof {
                        lemma_opt_values_view_update(this.slots@, i as int, Some(value));
                    }
                    this.slots[i] = Some(value);
                },
                None => {
                },
            }
            proof {
                assert(spec_resolve::<P>(
                    orig.analysis,
                    pre_slots,
                    orig.pending,
                    regv,
                    pre_store,
                    i as int,
                ) == spec_resolve::<P>(
                    orig.analysis,
                    this@.slots,
                    orig.pending,
                    regv,
                    connection@,
                    i + 1,
                ));
            }
            i = i + 1;
        }
        proof {
            assert(spec_resolve::<P>(
                orig.analysis,
                this@.slots,
                orig.pending,
                regv,
                connection@,
                n as int,
            ) == (connection@, Ok::<Seq<Option<ValueV>>, ()>(this@.slots)));
        }
        let record = this.assemble();
        match connection.create(record) {
            Ok(rec) => Ok(rec),
            Err(e) => Err(e),
        }
    }
}

} // verus!
