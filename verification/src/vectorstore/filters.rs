//! Metadata filters: a flat mapping from keys to scalar values.

use crate::json::{find, lookup, JsonNumber, JsonValue};
use vstd::prelude::*;

verus! {

/// A JSON value that is neither an array nor an object.
#[derive(Debug, PartialEq, Eq)]
pub enum Scalar {
    Null,
    Bool(bool),
    Number(JsonNumber),
    String(String),
}

impl Scalar {
    /// Whether `value` is this scalar: the same kind, and the same boolean,
    /// number or text.
    pub open spec fn spec_equals(&self, value: &JsonValue) -> bool {
        match (self, value) {
            (Scalar::Null, JsonValue::Null) => true,
            (Scalar::Bool(a), JsonValue::Bool(b)) => a == b,
            (Scalar::Number(a), JsonValue::Number(b)) => a == b,
            (Scalar::String(a), JsonValue::String(b)) => a@ == b@,
            _ => false,
        }
    }

    #[verifier::when_used_as_spec(spec_equals)]
    pub fn equals(&self, value: &JsonValue) -> (b: bool)
        ensures
            b == self.spec_equals(value),
    {
        match (self, value) {
            (Scalar::Null, JsonValue::Null) => true,
            (Scalar::Bool(a), JsonValue::Bool(b)) => *a == *b,
            (Scalar::Number(a), JsonValue::Number(b)) => *a == *b,
            (Scalar::String(a), JsonValue::String(b)) => *a == *b,
            _ => false,
        }
    }

    /// The scalar that `value` is, if it is one.
    pub fn of(value: &JsonValue) -> (scalar: Option<Scalar>)
        ensures
            scalar is Some <==> value.spec_is_scalar(),
            scalar is Some ==> scalar->0.spec_equals(value),
    {
        match value {
            JsonValue::Null => Some(Scalar::Null),
            JsonValue::Bool(b) => Some(Scalar::Bool(*b)),
            JsonValue::Number(n) => Some(Scalar::Number(*n)),
            JsonValue::String(s) => Some(Scalar::String(s.clone())),
            JsonValue::Array(_) => None,
            JsonValue::Object(_) => None,
        }
    }
}

/// Resolved filters: none, or a flat mapping in the order it was written.
#[derive(Debug, PartialEq, Eq)]
pub enum Filters {
    Empty,
    FlatMap(Vec<(String, Scalar)>),
}

/// Whether every member of the object `raw` is a scalar.
pub open spec fn flat(raw: Seq<(String, JsonValue)>) -> bool {
    forall|i: int| 0 <= i < raw.len() ==> (#[trigger] raw[i]).1.spec_is_scalar()
}

/// Whether `entries` are the members of `raw`, one for one and in order.
pub open spec fn flattens(raw: Seq<(String, JsonValue)>, entries: Seq<(String, Scalar)>) -> bool {
    &&& entries.len() == raw.len()
    &&& forall|i: int|
        0 <= i < raw.len() ==> (#[trigger] entries[i]).0@ == raw[i].0@ && entries[i].1.spec_equals(
            &raw[i].1,
        )
}

/// Whether `metadata` has the key of `entry` with the value of `entry`.
pub open spec fn entry_holds(entry: (String, Scalar), metadata: Seq<(String, JsonValue)>) -> bool {
    match lookup(metadata, entry.0@) {
        Some(value) => entry.1.spec_equals(&value),
        None => false,
    }
}

/// The members of the object `raw` as filter entries, if all are scalars.
pub fn flatten(raw: &Vec<(String, JsonValue)>) -> (entries: Option<Vec<(String, Scalar)>>)
    ensures
        entries is Some <==> flat(raw@),
        entries is Some ==> flattens(raw@, entries->0@),
{
    let mut entries: Vec<(String, Scalar)> = Vec::new();
    let mut i: usize = 0;
    while i < raw.len()
        invariant
            i <= raw.len(),
            entries@.len() == i,
            forall|j: int| 0 <= j < i ==> (#[trigger] raw@[j]).1.spec_is_scalar(),
            forall|j: int|
                0 <= j < i ==> (#[trigger] entries@[j]).0@ == raw@[j].0@
                    && entries@[j].1.spec_equals(&raw@[j].1),
        decreases raw.len() - i,
    {
        match Scalar::of(&raw[i].1) {
            Some(scalar) => {
                entries.push((raw[i].0.clone(), scalar));
            },
            None => {
                return None;
            },
        }
        i = i + 1;
    }
    Some(entries)
}

impl Filters {
    /// The entries, none for `Empty`.
    pub open spec fn entries(&self) -> Seq<(String, Scalar)> {
        match self {
            Filters::Empty => Seq::empty(),
            Filters::FlatMap(entries) => entries@,
        }
    }

    /// Whether there is nothing to filter by.
    pub open spec fn spec_is_empty(&self) -> bool {
        self.entries().len() == 0
    }

    /// Whether `metadata` meets every entry.
    pub open spec fn spec_admits(&self, metadata: Seq<(String, JsonValue)>) -> bool {
        forall|i: int|
            0 <= i < self.entries().len() ==> entry_holds(#[trigger] self.entries()[i], metadata)
    }

    #[verifier::when_used_as_spec(spec_is_empty)]
    pub fn is_empty(&self) -> (b: bool)
        ensures
            b == self.spec_is_empty(),
    {
        match self {
            Filters::Empty => true,
            Filters::FlatMap(entries) => entries.len() == 0,
        }
    }

    /// Whether `metadata` meets every entry.
    pub fn admits(&self, metadata: &Vec<(String, JsonValue)>) -> (b: bool)
        ensures
            b == self.spec_admits(metadata@),
    {
        match self {
            Filters::Empty => true,
            Filters::FlatMap(entries) => {
                let mut i: usize = 0;
                while i < entries.len()
                    invariant
                        i <= entries.len(),
                        self.entries() == entries@,
                        forall|j: int|
                            0 <= j < i ==> entry_holds(#[trigger] entries@[j], metadata@),
                    decreases entries.len() - i,
                {
                    let held: bool = match find(metadata, entries[i].0.as_str()) {
                        Some(value) => entries[i].1.equals(value),
                        None => false,
                    };
                    if !held {
                        assert(!entry_holds(entries@[i as int], metadata@));
                        return false;
                    }
                    i = i + 1;
                }
                true
            },
        }
    }
}

} // verus!
