//! Runtime values: the semantic field types a record can hold, their default
//! values, and the dynamic record instances the factory produces.

use vstd::prelude::*;
use crate::names::str_eq;

verus! {

/// The semantic type of a record field.
#[derive(Clone, Copy, Debug, PartialEq, Eq, Structural)]
pub enum FieldType {
    /// An unsigned integer field.
    Uint,
    /// A boolean field.
    Boolean,
    /// A text field.
    Text,
}

/// A runtime field value.
#[derive(Debug)]
pub enum Value {
    Uint(u64),
    Boolean(bool),
    Text(String),
}

/// The abstract form of a [`Value`].
pub ghost enum ValueV {
    Uint(u64),
    Boolean(bool),
    Text(Seq<char>),
}

impl View for Value {
    type V = ValueV;

    open spec fn view(&self) -> ValueV {
        match self {
            Value::Uint(n) => ValueV::Uint(*n),
            Value::Boolean(b) => ValueV::Boolean(*b),
            Value::Text(s) => ValueV::Text(s@),
        }
    }
}

impl Clone for Value {
    fn clone(&self) -> (r: Self)
        ensures
            r@ == self@,
    {
        match self {
            Value::Uint(n) => Value::Uint(*n),
            Value::Boolean(b) => Value::Boolean(*b),
            Value::Text(s) => Value::Text(s.clone()),
        }
    }
}

impl PartialEq for Value {
    fn eq(&self, other: &Self) -> (r: bool)
    {
        match (self, other) {
            (Value::Uint(a), Value::Uint(b)) => a == b,
            (Value::Boolean(a), Value::Boolean(b)) => a == b,
            (Value::Text(a), Value::Text(b)) => str_eq(a.as_str(), b.as_str()),
            _ => false,
        }
    }
}

impl vstd::std_specs::cmp::PartialEqSpecImpl for Value {
    open spec fn obeys_eq_spec() -> bool {
        true
    }

    open spec fn eq_spec(&self, other: &Self) -> bool {
        self@ == other@
    }
}

impl Eq for Value {

}

/// The zero value of a field type: `0`, `false`, or the empty string.
pub open spec fn default_value(t: FieldType) -> ValueV {
    match t {
        FieldType::Uint => ValueV::Uint(0),
        FieldType::Boolean => ValueV::Boolean(false),
        FieldType::Text => ValueV::Text(Seq::empty()),
    }
}

/// Builds the zero value of a field type.
pub fn default_of(t: FieldType) -> (r: Value)
    ensures
        r@ == default_value(t),
{
    match t {
        FieldType::Uint => Value::Uint(0),
        FieldType::Boolean => Value::Boolean(false),
        FieldType::Text => Value::Text(String::new()),
    }
}

/// A fully populated record instance: the record type's name and one value
/// per field, in field order.
#[derive(Debug)]
pub struct Record {
    /// The record type's name.
    pub ident: String,
    /// The field values, each with its field name, in declaration order.
    pub values: Vec<(String, Value)>,
}

/// The abstract form of a [`Record`].
pub ghost struct RecordV {
    pub ident: Seq<char>,
    pub values: Seq<(Seq<char>, ValueV)>,
}

/// The abstract form of a field-value list.
pub open spec fn pairs_view(values: Seq<(String, Value)>) -> Seq<(Seq<char>, ValueV)> {
    values.map_values(|p: (String, Value)| (p.0@, p.1@))
}

impl View for Record {
    type V = RecordV;

    open spec fn view(&self) -> RecordV {
        RecordV { ident: self.ident@, values: pairs_view(self.values@) }
    }
}

/// Appending a pair extends the abstract field-value list pointwise.
pub proof fn lemma_pairs_view_push(values: Seq<(String, Value)>, p: (String, Value))
    ensures
        pairs_view(values.push(p)) =~= pairs_view(values).push((p.0@, p.1@)),
{
    assert forall|j: int| 0 <= j < values.len() + 1 implies pairs_view(values.push(p))[j]
        == pairs_view(values).push((p.0@, p.1@))[j] by {
        if j < values.len() {
            assert(values.push(p)[j] == values[j]);
        } else {
            assert(values.push(p)[j] == p);
        }
    }
}

impl Clone for Record {
    fn clone(&self) -> (r: Self)
        ensures
            r@ == self@,
    {
        let mut values: Vec<(String, Value)> = Vec::new();
        let mut i: usize = 0;
        while i < self.values.len()
            invariant
                0 <= i <= self.values@.len(),
                pairs_view(values@) =~= self@.values.subrange(0, i as int),
            decreases self.values@.len() - i,
        {
            let p = &self.values[i];
            let c0 = p.0.clone();
            let c1 = p.1.clone();
            proof {
                assert(self@.values[i as int] == (p.0@, p.1@));
            }
            proof {
                lemma_pairs_view_push(values@, (c0, c1));
            }
            values.push((c0, c1));
            proof {
                assert(pairs_view(values@) =~= self@.values.subrange(0, i + 1));
            }
            i = i + 1;
        }
        proof {
            assert(pairs_view(values@) =~= self@.values);
        }
        let r = Record { ident: self.ident.clone(), values };
        proof {
            assert(r@.values =~= self@.values);
        }
        r
    }
}

impl PartialEq for Record {
    fn eq(&self, other: &Self) -> (r: bool)
    {
        if !str_eq(self.ident.as_str(), other.ident.as_str()) {
            return false;
        }
        if self.values.len() != other.values.len() {
            proof {
                assert(self@.values.len() != other@.values.len());
            }
            return false;
        }
        let mut i: usize = 0;
        while i < self.values.len()
            invariant
                0 <= i <= self.values@.len(),
                self.values@.len() == other.values@.len(),
                self@.values.len() == other@.values.len(),
                forall|j: int| 0 <= j < i ==> self@.values[j] == other@.values[j],
            decreases self.values@.len() - i,
        {
            let a = &self.values[i];
            let b = &other.values[i];
            if !str_eq(a.0.as_str(), b.0.as_str()) {
                proof {
                    assert(self@.values[i as int].0 == a.0@);
                }
                return false;
            }
            if !(a.1 == b.1) {
                proof {
                    assert(self@.values[i as int].1 == a.1@);
                }
                return false;
            }
            i = i + 1;
        }
        proof {
            assert(self@.values =~= other@.values);
        }
        true
    }
}

impl vstd::std_specs::cmp::PartialEqSpecImpl for Record {
    open spec fn obeys_eq_spec() -> bool {
        true
    }

    open spec fn eq_spec(&self, other: &Self) -> bool {
        self@ == other@
    }
}

impl Eq for Record {

}

/// The position of the first field named `key`, or `-1` when absent.
pub open spec fn field_position(values: Seq<(Seq<char>, ValueV)>, key: Seq<char>) -> int
    decreases values.len(),
{
    if values.len() == 0 {
        -1
    } else if values[0].0 == key {
        0
    } else {
        let r = field_position(values.drop_first(), key);
        if r < 0 {
            -1
        } else {
            r + 1
        }
    }
}

/// The value of the first field named `key`, or `None` when absent.
pub open spec fn spec_record_get(values: Seq<(Seq<char>, ValueV)>, key: Seq<char>) -> Option<
    ValueV,
> {
    let p = field_position(values, key);
    if p < 0 {
        None
    } else {
        Some(values[p].1)
    }
}

/// The first field named `key` stands at `i` when no earlier field has that
/// name and field `i` does.
pub proof fn lemma_field_position_found(
    values: Seq<(Seq<char>, ValueV)>,
    key: Seq<char>,
    i: int,
)
    requires
        0 <= i < values.len(),
        values[i].0 == key,
        forall|j: int| 0 <= j < i ==> (#[trigger] values[j]).0 != key,
    ensures
        field_position(values, key) == i,
    decreases values.len(),
{
    if i == 0 {
    } else {
        assert(values[0].0 != key);
        assert(values.drop_first()[i - 1].0 == key);
        assert forall|j: int| 0 <= j < i - 1 implies (#[trigger] values.drop_first()[j]).0
            != key by {
            assert(values.drop_first()[j] == values[j + 1]);
        }
        lemma_field_position_found(values.drop_first(), key, i - 1);
    }
}

/// No field is named `key` exactly when its position is `-1`.
pub proof fn lemma_field_position_absent(values: Seq<(Seq<char>, ValueV)>, key: Seq<char>)
    requires
        forall|j: int| 0 <= j < values.len() ==> (#[trigger] values[j]).0 != key,
    ensures
        field_position(values, key) == -1,
    decreases values.len(),
{
    if values.len() > 0 {
        assert forall|j: int| 0 <= j < values.drop_first().len() implies (#[trigger] values.drop_first()[j]).0 != key by {
            assert(values.drop_first()[j] == values[j + 1]);
        }
        lemma_field_position_absent(values.drop_first(), key);
    }
}

impl Record {
    /// The value of the first field named `key`, if any.
    pub fn get(&self, key: &str) -> (r: Option<&Value>)
        ensures
            match r {
                Some(v) => spec_record_get(self@.values, key@) == Some(v@),
                None => spec_record_get(self@.values, key@) is None,
            },
    {
        let mut i: usize = 0;
        while i < self.values.len()
            invariant
                0 <= i <= self.values@.len(),
                forall|j: int| 0 <= j < i ==> (#[trigger] self@.values[j]).0 != key@,
            decreases self.values@.len() - i,
        {
            let p = &self.values[i];
            if str_eq(p.0.as_str(), key) {
                proof {
                    assert(self@.values[i as int].0 == key@);
                    lemma_field_position_found(self@.values, key@, i as int);
                }
                return Some(&p.1);
            }
            proof {
                assert(self@.values[i as int].0 == p.0@);
            }
            i = i + 1;
        }
        proof {
            lemma_field_position_absent(self@.values, key@);
        }
        None
    }
}

} // verus!
