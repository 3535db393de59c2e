//! A value of a generated type: one field value per field of its schema.
//! Its operations are what the generated constructor and accessors do.

use crate::schema::{lemma_position_of, position_of, Schema, SchemaView};
use crate::value::{value_views, Value, ValueView};
use vstd::prelude::*;

verus! {

/// A value of the type that a schema describes.
#[derive(Debug, PartialEq, Eq)]
pub struct Record {
    schema: Schema,
    values: Vec<Value>,
}

/// The mathematical content of a [`Record`].
pub struct RecordView {
    pub schema: SchemaView,
    pub values: Seq<ValueView>,
}

impl RecordView {
    /// One value for each field.
    pub open spec fn well_formed(self) -> bool {
        self.values.len() == self.schema.fields.len()
    }

    /// The value of the first field named `name`.
    pub open spec fn get(self, name: Seq<char>) -> Option<ValueView> {
        match position_of(self.schema.fields, name) {
            Some(i) => Some(self.values[i]),
            None => None,
        }
    }

    /// The record with `value` in the first field named `name`; the record
    /// itself where no field has that name.
    pub open spec fn set(self, name: Seq<char>, value: ValueView) -> RecordView {
        match position_of(self.schema.fields, name) {
            Some(i) => RecordView { schema: self.schema, values: self.values.update(i, value) },
            None => self,
        }
    }
}

impl View for Record {
    type V = RecordView;

    closed spec fn view(&self) -> RecordView {
        RecordView { schema: self.schema@, values: value_views(self.values@) }
    }
}

impl Record {
    #[verifier::type_invariant]
    spec fn arity_matches(self) -> bool {
        self.values.len() == self.schema.fields.len()
    }

    /// The constructor that takes every field, in declaration order, and
    /// assigns the values by position without looking at them.
    pub fn new(schema: Schema, values: Vec<Value>) -> (r: Record)
        requires
            values.len() == schema@.fields.len(),
        ensures
            r@ == (RecordView { schema: schema@, values: value_views(values@) }),
            r@.well_formed(),
    {
        assert(schema@.fields.len() == schema.fields.len());
        Record { schema, values }
    }

    /// The schema that the record belongs to.
    pub fn schema(&self) -> (s: &Schema)
        ensures
            s@ == self@.schema,
    {
        &self.schema
    }

    /// The number of fields.
    pub fn len(&self) -> (n: usize)
        ensures
            n == self@.values.len(),
            n == self@.schema.fields.len(),
    {
        proof {
            use_type_invariant(self);
        }
        self.values.len()
    }

    /// The value at position `i`.
    pub fn value_at(&self, i: usize) -> (v: &Value)
        requires
            i < self@.values.len(),
        ensures
            v@ == self@.values[i as int],
    {
        &self.values[i]
    }

    /// The read accessor of the field named `name`: a reference to the
    /// field's current value, or `None` where the schema has no such field.
    pub fn get(&self, name: &str) -> (r: Option<&Value>)
        ensures
            match r {
                Some(v) => self@.get(name@) == Some(v@),
                None => self@.get(name@) is None,
            },
    {
        proof {
            use_type_invariant(self);
        }
        match self.schema.position(name) {
            Some(i) => {
                proof {
                    lemma_position_of(self.schema@.fields, name@);
                }
                Some(&self.values[i])
            },
            None => None,
        }
    }

    /// The write accessor of the field named `name`: replaces the field's
    /// value. A name that the schema does not have changes nothing.
    pub fn set(&mut self, name: &str, value: Value)
        ensures
            final(self)@ == old(self)@.set(name@, value@),
    {
        proof {
            use_type_invariant(&*self);
        }
        match self.schema.position(name) {
            Some(i) => {
                proof {
                    lemma_position_of(self.schema@.fields, name@);
                }
                self.values[i] = value;
                assert(value_views(self.values@) =~= value_views(old(self).values@).update(
                    i as int,
                    value@,
                ));
            },
            None => {},
        }
    }
}

/// Writing a field and then reading it gives the value just written, for
/// every field of the schema and every value.
pub proof fn lemma_set_then_get(record: RecordView, name: Seq<char>, value: ValueView)
    requires
        record.well_formed(),
        position_of(record.schema.fields, name) is Some,
    ensures
        record.set(name, value).get(name) == Some(value),
        record.set(name, value).well_formed(),
{
    lemma_position_of(record.schema.fields, name);
}

/// Writing a field leaves every other field as it was.
pub proof fn lemma_set_keeps_others(
    record: RecordView,
    name: Seq<char>,
    value: ValueView,
    other: Seq<char>,
)
    requires
        record.well_formed(),
        other != name,
    ensures
        record.set(name, value).get(other) == record.get(other),
{
    lemma_position_of(record.schema.fields, name);
    lemma_position_of(record.schema.fields, other);
}

} // verus!
