//! The persistence interface: the abstract two-operation contract a factory
//! persists through, and a verified in-memory store implementing it.
//!
//! Every implementor describes itself by three model functions — which
//! records it accepts in a given state, the state after a successful
//! create, and the stored form it returns — and proves that its `create`
//! follows that model and that the stored form keeps the record's shape
//! (same identity and field names; values may change, as when the store
//! fills generated keys).

use vstd::prelude::*;
use crate::values::{pairs_view, Record, RecordV};

verus! {

/// The abstract form of a record list.
pub open spec fn records_view(records: Seq<Record>) -> Seq<RecordV> {
    records.map_values(|r: Record| r@)
}

/// Appending a record extends the abstract record list pointwise.
pub proof fn lemma_records_view_push(records: Seq<Record>, r: Record)
    ensures
        records_view(records.push(r)) =~= records_view(records).push(r@),
{
    assert forall|j: int| 0 <= j < records.len() + 1 implies records_view(records.push(r))[j]
        == records_view(records).push(r@)[j] by {
        if j < records.len() {
            assert(records.push(r)[j] == records[j]);
        } else {
            assert(records.push(r)[j] == r);
        }
    }
}

/// A pluggable persistence backend for records.
pub trait Persistable: Sized + View {
    /// The error type returned by persistence operations.
    type Error;

    /// Whether the store, in state `pre`, accepts `record`.
    spec fn accepts(pre: Self::V, record: RecordV) -> bool;

    /// The store's state after successfully creating `record` in state
    /// `pre`.
    spec fn store_after(pre: Self::V, record: RecordV) -> Self::V;

    /// The stored form of `record` returned by a successful create in
    /// state `pre`.
    spec fn stored(pre: Self::V, record: RecordV) -> RecordV;

    /// The records the store holds in state `pre`, as `all` reports them.
    spec fn all_of(pre: Self::V) -> Seq<RecordV>;

    /// Whether `all` succeeds in state `pre`.
    spec fn all_succeeds(pre: Self::V) -> bool;

    /// The stored form of a record keeps its shape: the same identity and
    /// the same field names in the same order.
    proof fn stored_preserves_shape(pre: Self::V, record: RecordV)
        ensures
            Self::stored(pre, record).ident == record.ident,
            Self::stored(pre, record).values.len() == record.values.len(),
            forall|i: int|
                0 <= i < record.values.len() ==> (#[trigger] Self::stored(
                    pre,
                    record,
                ).values[i]).0 == record.values[i].0,
    ;

    /// Persists `record`, returning the stored form. A rejected record
    /// leaves the store unchanged.
    fn create(&mut self, record: Record) -> (r: Result<Record, Self::Error>)
        ensures
            Self::accepts(old(self)@, record@) ==> {
                &&& final(self)@ == Self::store_after(old(self)@, record@)
                &&& match r {
                    Ok(rec) => rec@ == Self::stored(old(self)@, record@),
                    Err(_) => false,
                }
            },
            !Self::accepts(old(self)@, record@) ==> {
                &&& final(self)@ == old(self)@
                &&& r is Err
            },
    ;

    /// Retrieves every stored record.
    fn all(&self) -> (r: Result<Vec<Record>, Self::Error>)
        ensures
            match r {
                Ok(records) => records_view(records@) == Self::all_of(self@),
                Err(_) => !Self::all_succeeds(self@),
            },
            Self::all_succeeds(self@) ==> r is Ok,
    ;
}

/// The error of the in-memory store: it is full.
#[derive(Clone, Copy, Debug, PartialEq, Eq, Structural)]
pub struct StoreFull;

/// A verified in-memory store: keeps every created record in order, returns
/// each record unchanged, and rejects records once its capacity is reached.
#[derive(Debug)]
pub struct MemoryStore {
    /// The records created so far, in creation order.
    pub records: Vec<Record>,
    /// How many records the store accepts in all.
    pub capacity: usize,
}

/// The abstract form of a [`MemoryStore`].
pub ghost struct MemoryStoreV {
    pub records: Seq<RecordV>,
    pub capacity: usize,
}

impl View for MemoryStore {
    type V = MemoryStoreV;

    open spec fn view(&self) -> MemoryStoreV {
        MemoryStoreV { records: records_view(self.records@), capacity: self.capacity }
    }
}

impl MemoryStore {
    /// An empty store accepting up to `capacity` records.
    pub fn new(capacity: usize) -> (r: Self)
        ensures
            r@.records == Seq::<RecordV>::empty(),
            r@.capacity == capacity,
    {
        let r = MemoryStore { records: Vec::new(), capacity };
        proof {
            assert(records_view(r.records@) =~= Seq::<RecordV>::empty());
        }
        r
    }
}

impl Persistable for MemoryStore {
    type Error = StoreFull;

    open spec fn accepts(pre: MemoryStoreV, record: RecordV) -> bool {
        pre.records.len() < pre.capacity
    }

    open spec fn store_after(pre: MemoryStoreV, record: RecordV) -> MemoryStoreV {
        MemoryStoreV { records: pre.records.push(record), capacity: pre.capacity }
    }

    open spec fn stored(pre: MemoryStoreV, record: RecordV) -> RecordV {
        record
    }

    open spec fn all_of(pre: MemoryStoreV) -> Seq<RecordV> {
        pre.records
    }

    open spec fn all_succeeds(pre: MemoryStoreV) -> bool {
        true
    }

    proof fn stored_preserves_shape(pre: MemoryStoreV, record: RecordV) {
    }

    fn create(&mut self, record: Record) -> (r: Result<Record, StoreFull>) {
        if self.records.len() < self.capacity {
            let copy = record.clone();
            proof {
                lemma_records_view_push(self.records@, copy);
            }
            self.records.push(copy);
            Ok(record)
        } else {
            Err(StoreFull)
        }
    }

    fn all(&self) -> (r: Result<Vec<Record>, StoreFull>) {
        let mut out: Vec<Record> = Vec::new();
        let mut i: usize = 0;
        while i < self.records.len()
            invariant
                0 <= i <= self.records@.len(),
                records_view(out@) =~= records_view(self.records@).subrange(0, i as int),
            decreases self.records@.len() - i,
        {
            let copy = self.records[i].clone();
            proof {
                lemma_records_view_push(out@, copy);
                assert(records_view(self.records@)[i as int] == self.records@[i as int]@);
            }
            out.push(copy);
            i = i + 1;
        }
        proof {
            assert(records_view(out@) =~= records_view(self.records@));
        }
        Ok(out)
    }
}

} // verus!
