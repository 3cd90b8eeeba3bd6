//! Laws of the construction protocol and of analysis, stated over the same
//! spec functions the executable contracts use.

use vstd::prelude::*;
use crate::analysis::spec_analyze_record;
use crate::factory::{
    empty_slots, lemma_resolve_no_pending, spec_apply_settings, spec_assemble, spec_create,
    spec_registry_lookup, spec_resolve, factory_wf, FactoryV,
};
use crate::factory_analysis::{spec_factory_analysis, FactoryAnalysisOutputV};
use crate::persist::{MemoryStoreV, MemoryStore, Persistable};
use crate::schema::RecordShapeV;
use crate::values::{spec_record_get, RecordV, ValueV};

verus! {

/// A factory as `new` returns it: every value slot and every pending slot
/// empty.
pub open spec fn spec_empty_factory(a: FactoryAnalysisOutputV) -> FactoryV {
    FactoryV {
        analysis: a,
        slots: empty_slots(a.fields.len() as nat),
        pending: Seq::new(a.fields.len() as nat, |i: int| None),
    }
}

/// The all-defaults record of a record type: every field at its type's zero
/// value.
pub open spec fn spec_default_record(a: FactoryAnalysisOutputV) -> RecordV {
    spec_assemble(a, empty_slots(a.fields.len() as nat))
}

/// Builder default round trip: creating from a factory with every slot
/// empty hands the store exactly the all-defaults record — the store's
/// answer is its stored form of that record and nothing else.
pub proof fn lemma_default_round_trip<P: Persistable>(
    a: FactoryAnalysisOutputV,
    reg: Seq<FactoryAnalysisOutputV>,
    store: P::V,
)
    ensures
        ({
            let f = spec_empty_factory(a);
            let rec = spec_default_record(a);
            spec_create::<P>(f, reg, store) == if P::accepts(store, rec) {
                (P::store_after(store, rec), Ok::<RecordV, ()>(P::stored(store, rec)))
            } else {
                (store, Err::<RecordV, ()>(()))
            }
        }),
{
    let f = spec_empty_factory(a);
    lemma_resolve_no_pending::<P>(a, f.slots, f.pending, reg, store, 0);
}

/// Builder default round trip against the in-memory store, which returns
/// every record unchanged: the created record is the all-defaults record.
pub proof fn lemma_default_round_trip_memory(
    a: FactoryAnalysisOutputV,
    reg: Seq<FactoryAnalysisOutputV>,
    store: MemoryStoreV,
)
    requires
        store.records.len() < store.capacity,
    ensures
        spec_create::<MemoryStore>(spec_empty_factory(a), reg, store) == (
            MemoryStoreV {
                records: store.records.push(spec_default_record(a)),
                capacity: store.capacity,
            },
            Ok::<RecordV, ()>(spec_default_record(a)),
        ),
{
    lemma_default_round_trip::<MemoryStore>(a, reg, store);
}

/// An explicitly set field keeps its value when its relation is never
/// customized: with nothing pending, the record handed to the store holds
/// the set value at that field.
pub proof fn lemma_explicit_value_kept<P: Persistable>(
    f: FactoryV,
    reg: Seq<FactoryAnalysisOutputV>,
    store: P::V,
    k: int,
)
    requires
        factory_wf(f),
        forall|j: int| 0 <= j < f.pending.len() ==> f.pending[j] is None,
        0 <= k < f.slots.len(),
        f.slots[k] is Some,
    ensures
        spec_assemble(f.analysis, f.slots).values[k].1 == f.slots[k]->Some_0,
        ({
            let rec = spec_assemble(f.analysis, f.slots);
            spec_create::<P>(f, reg, store) == if P::accepts(store, rec) {
                (P::store_after(store, rec), Ok::<RecordV, ()>(P::stored(store, rec)))
            } else {
                (store, Err::<RecordV, ()>(()))
            }
        }),
{
    lemma_resolve_no_pending::<P>(f.analysis, f.slots, f.pending, reg, store, 0);
}

/// A resolution pass with nothing pending between `i` and `k` reaches `k`
/// unchanged.
proof fn lemma_resolve_skip_to<P: Persistable>(
    a: FactoryAnalysisOutputV,
    slots: Seq<Option<ValueV>>,
    pending: Seq<Option<Seq<(Seq<char>, ValueV)>>>,
    reg: Seq<FactoryAnalysisOutputV>,
    store: P::V,
    i: int,
    k: int,
)
    requires
        0 <= i <= k <= a.fields.len(),
        pending.len() == a.fields.len(),
        forall|j: int| i <= j < k ==> pending[j] is None,
    ensures
        spec_resolve::<P>(a, slots, pending, reg, store, i) == spec_resolve::<P>(
            a,
            slots,
            pending,
            reg,
            store,
            k,
        ),
    decreases k - i,
{
    if i < k {
        lemma_resolve_skip_to::<P>(a, slots, pending, reg, store, i + 1, k);
    }
}

/// A resolution pass with nothing pending from `i` on changes neither slots
/// nor store.
proof fn lemma_resolve_none_from<P: Persistable>(
    a: FactoryAnalysisOutputV,
    slots: Seq<Option<ValueV>>,
    pending: Seq<Option<Seq<(Seq<char>, ValueV)>>>,
    reg: Seq<FactoryAnalysisOutputV>,
    store: P::V,
    i: int,
)
    requires
        0 <= i,
        pending.len() == a.fields.len(),
        forall|j: int| i <= j < pending.len() ==> pending[j] is None,
    ensures
        spec_resolve::<P>(a, slots, pending, reg, store, i) == (store, Ok::<
            Seq<Option<ValueV>>,
            (),
        >(slots)),
    decreases a.fields.len() - i,
{
    if i < a.fields.len() {
        lemma_resolve_none_from::<P>(a, slots, pending, reg, store, i + 1);
    }
}

/// Relation-first ordering, and relation over explicit value: with exactly
/// one relation customized, the related record is created first and the
/// owning record after it — the store's log holds them in that order — and
/// the owning field holds the related record's referenced key, whatever
/// value was set for it before.
pub proof fn lemma_relation_first_ordering(
    f: FactoryV,
    reg: Seq<FactoryAnalysisOutputV>,
    store: MemoryStoreV,
    k: int,
)
    requires
        factory_wf(f),
        0 <= k < f.pending.len(),
        f.pending[k] is Some,
        forall|j: int| 0 <= j < f.pending.len() && j != k ==> f.pending[j] is None,
        f.analysis.fields[k].relation is Some,
        ({
            let rel = f.analysis.fields[k].relation->Some_0;
            match spec_registry_lookup(reg, rel.referenced_type) {
                None => false,
                Some(child) => {
                    let child_rec = spec_assemble(
                        child,
                        spec_apply_settings(
                            child,
                            empty_slots(child.fields.len() as nat),
                            f.pending[k]->Some_0,
                        ),
                    );
                    spec_record_get(child_rec.values, rel.referenced_key) is Some
                },
            }
        }),
        store.records.len() + 2 <= store.capacity,
    ensures
        ({
            let rel = f.analysis.fields[k].relation->Some_0;
            let child = spec_registry_lookup(reg, rel.referenced_type)->Some_0;
            let child_rec = spec_assemble(
                child,
                spec_apply_settings(
                    child,
                    empty_slots(child.fields.len() as nat),
                    f.pending[k]->Some_0,
                ),
            );
            let key_val = spec_record_get(child_rec.values, rel.referenced_key)->Some_0;
            let owner_rec = spec_assemble(f.analysis, f.slots.update(k, Some(key_val)));
            &&& spec_create::<MemoryStore>(f, reg, store) == (
                MemoryStoreV {
                    records: store.records.push(child_rec).push(owner_rec),
                    capacity: store.capacity,
                },
                Ok::<RecordV, ()>(owner_rec),
            )
            &&& owner_rec.values[k].1 == key_val
        }),
{
    let rel = f.analysis.fields[k].relation->Some_0;
    let child = spec_registry_lookup(reg, rel.referenced_type)->Some_0;
    let child_rec = spec_assemble(
        child,
        spec_apply_settings(child, empty_slots(child.fields.len() as nat), f.pending[k]->Some_0),
    );
    let key_val = spec_record_get(child_rec.values, rel.referenced_key)->Some_0;
    let store2 = MemoryStoreV { records: store.records.push(child_rec), capacity: store.capacity };
    let slots2 = f.slots.update(k, Some(key_val));
    lemma_resolve_skip_to::<MemoryStore>(f.analysis, f.slots, f.pending, reg, store, 0, k);
    assert(spec_resolve::<MemoryStore>(f.analysis, f.slots, f.pending, reg, store, k) ==
        spec_resolve::<MemoryStore>(f.analysis, slots2, f.pending, reg, store2, k + 1));
    lemma_resolve_none_from::<MemoryStore>(f.analysis, slots2, f.pending, reg, store2, k + 1);
}


/// A resolution pass against the in-memory store only appends: whatever it
/// creates, the records already stored stay, in place and in order.
proof fn lemma_resolve_appends(
    a: FactoryAnalysisOutputV,
    slots: Seq<Option<ValueV>>,
    pending: Seq<Option<Seq<(Seq<char>, ValueV)>>>,
    reg: Seq<FactoryAnalysisOutputV>,
    store: MemoryStoreV,
    i: int,
)
    ensures
        ({
            let pass = spec_resolve::<MemoryStore>(a, slots, pending, reg, store, i);
            &&& pass.0.capacity == store.capacity
            &&& pass.0.records.len() >= store.records.len()
            &&& forall|j: int|
                0 <= j < store.records.len() ==> pass.0.records[j] == store.records[j]
        }),
    decreases a.fields.len() - i,
{
    if i < 0 || i >= a.fields.len() {
    } else if !(a.fields[i].relation is Some && pending[i] is Some) {
        lemma_resolve_appends(a, slots, pending, reg, store, i + 1);
    } else {
        let rel = a.fields[i].relation->Some_0;
        let settings = pending[i]->Some_0;
        match spec_registry_lookup(reg, rel.referenced_type) {
            None => {
                lemma_resolve_appends(a, slots, pending, reg, store, i + 1);
            },
            Some(child) => {
                let child_rec = spec_assemble(
                    child,
                    spec_apply_settings(child, empty_slots(child.fields.len() as nat), settings),
                );
                if store.records.len() < store.capacity {
                    let store2 = MemoryStoreV {
                        records: store.records.push(child_rec),
                        capacity: store.capacity,
                    };
                    match spec_record_get(child_rec.values, rel.referenced_key) {
                        Some(v) => {
                            lemma_resolve_appends(
                                a,
                                slots.update(i, Some(v)),
                                pending,
                                reg,
                                store2,
                                i + 1,
                            );
                            let pass = spec_resolve::<MemoryStore>(
                                a,
                                slots.update(i, Some(v)),
                                pending,
                                reg,
                                store2,
                                i + 1,
                            );
                            assert(spec_resolve::<MemoryStore>(a, slots, pending, reg, store, i)
                                == pass);
                            assert forall|j: int| 0 <= j < store.records.len() implies pass.0
                                .records[j] == store.records[j] by {
                                assert(store2.records[j] == store.records[j]);
                            }
                        },
                        None => {
                            lemma_resolve_appends(a, slots, pending, reg, store2, i + 1);
                            let pass = spec_resolve::<MemoryStore>(
                                a,
                                slots,
                                pending,
                                reg,
                                store2,
                                i + 1,
                            );
                            assert(spec_resolve::<MemoryStore>(a, slots, pending, reg, store, i)
                                == pass);
                            assert forall|j: int| 0 <= j < store.records.len() implies pass.0
                                .records[j] == store.records[j] by {
                                assert(store2.records[j] == store.records[j]);
                            }
                        },
                    }
                }
            },
        }
    }
}

/// The owning record is created last: on success against the in-memory
/// store, every record stored before stays in place, the related records
/// created by the pass stand after them, and the created owning record is
/// the final entry of the log.
pub proof fn lemma_owner_created_last(
    f: FactoryV,
    reg: Seq<FactoryAnalysisOutputV>,
    store: MemoryStoreV,
)
    ensures
        ({
            let out = spec_create::<MemoryStore>(f, reg, store);
            match out.1 {
                Ok(rec) => {
                    &&& out.0.records.len() > store.records.len()
                    &&& out.0.records.last() == rec
                    &&& forall|j: int|
                        0 <= j < store.records.len() ==> out.0.records[j] == store.records[j]
                },
                Err(_) => true,
            }
        }),
{
    lemma_resolve_appends(f.analysis, f.slots, f.pending, reg, store, 0);
}

/// Analysis is deterministic: its outcome is a function of the schema input
/// alone, so re-running it on the same input yields an identical field
/// order, relation list and identity name. The executable analyses promise
/// exactly these outcomes in their contracts.
pub proof fn lemma_analysis_deterministic(a: RecordShapeV, b: RecordShapeV)
    requires
        a == b,
    ensures
        spec_factory_analysis(a) == spec_factory_analysis(b),
        spec_analyze_record(a) == spec_analyze_record(b),
{
}

} // verus!
