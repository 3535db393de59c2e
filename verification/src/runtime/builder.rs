//! What the generated builder does: one optional slot per field, a
//! chainable setter for each, and a terminal `build`.

use crate::runtime::record::{Record, RecordView};
use crate::schema::{
    distinct_names, lemma_position_of, lemma_position_of_distinct, position_of, Schema, SchemaView,
};
use crate::value::{value_views, Value, ValueView};
use vstd::prelude::*;

verus! {

/// A builder for the type that a schema describes.
#[derive(Debug, PartialEq, Eq)]
pub struct Builder {
    schema: Schema,
    slots: Vec<Option<Value>>,
}

/// The mathematical content of a [`Builder`].
pub struct BuilderView {
    pub schema: SchemaView,
    pub slots: Seq<Option<ValueView>>,
}

/// Why `build` gave no value: a slot was empty.
#[derive(Debug, PartialEq, Eq)]
pub struct BuildError {
    /// The name of the first field, in declaration order, whose slot was empty.
    pub field: String,
}

/// The content of one slot.
pub open spec fn slot_view(slot: Option<Value>) -> Option<ValueView> {
    match slot {
        Some(v) => Some(v@),
        None => None,
    }
}

/// The contents of a list of slots, in order.
pub open spec fn slot_views(slots: Seq<Option<Value>>) -> Seq<Option<ValueView>> {
    slots.map_values(|s: Option<Value>| slot_view(s))
}

/// The position of the first empty slot, or the number of slots if none is
/// empty.
pub open spec fn first_empty(slots: Seq<Option<ValueView>>) -> int
    decreases slots.len(),
{
    if slots.len() == 0 {
        0
    } else if slots[0] is None {
        0
    } else {
        1 + first_empty(slots.drop_first())
    }
}

/// One call of a setter: the field's name and the value given.
pub struct SetterCall {
    pub field: Seq<char>,
    pub value: ValueView,
}

impl BuilderView {
    /// One slot for each field.
    pub open spec fn well_formed(self) -> bool {
        self.slots.len() == self.schema.fields.len()
    }

    /// The builder that the entry point returns: every slot empty.
    pub open spec fn fresh(schema: SchemaView) -> BuilderView {
        BuilderView { schema, slots: Seq::new(schema.fields.len(), |i: int| None) }
    }

    /// The builder after the setter of the field named `name` was called with
    /// `value`; the builder itself where no field has that name.
    pub open spec fn set(self, name: Seq<char>, value: ValueView) -> BuilderView {
        match position_of(self.schema.fields, name) {
            Some(i) => BuilderView { schema: self.schema, slots: self.slots.update(i, Some(value)) },
            None => self,
        }
    }

    /// The builder after a series of setter calls, made in order.
    pub open spec fn set_all(self, calls: Seq<SetterCall>) -> BuilderView
        decreases calls.len(),
    {
        if calls.len() == 0 {
            self
        } else {
            self.set_all(calls.drop_last()).set(calls.last().field, calls.last().value)
        }
    }

    /// What `build` returns: the assembled value where every slot is full,
    /// else the name of the first field whose slot is empty.
    pub open spec fn build_result(self) -> Result<RecordView, Seq<char>> {
        let k = first_empty(self.slots);
        if k == self.slots.len() {
            Ok(
                RecordView {
                    schema: self.schema,
                    values: Seq::new(self.slots.len(), |i: int| self.slots[i]->0),
                },
            )
        } else {
            Err(self.schema.fields[k].name)
        }
    }

    /// The builder that `build` leaves behind: the slots that it read are
    /// empty, the others are as they were.
    pub open spec fn after_build(self) -> BuilderView {
        let k = first_empty(self.slots);
        BuilderView {
            schema: self.schema,
            slots: Seq::new(self.slots.len(), |i: int| if i < k { None } else { self.slots[i] }),
        }
    }
}

impl View for Builder {
    type V = BuilderView;

    closed spec fn view(&self) -> BuilderView {
        BuilderView { schema: self.schema@, slots: slot_views(self.slots@) }
    }
}

/// [`first_empty`] is the position of an empty slot that no empty slot
/// precedes, or the number of slots.
pub proof fn lemma_first_empty(slots: Seq<Option<ValueView>>)
    ensures
        0 <= first_empty(slots) <= slots.len(),
        forall|i: int| 0 <= i < first_empty(slots) ==> (#[trigger] slots[i]) is Some,
        first_empty(slots) < slots.len() ==> slots[first_empty(slots)] is None,
    decreases slots.len(),
{
    if slots.len() > 0 && slots[0] is Some {
        let rest = slots.drop_first();
        lemma_first_empty(rest);
        assert forall|i: int| 0 <= i < first_empty(slots) implies (#[trigger] slots[i]) is Some by {
            if i > 0 {
                assert(slots[i] == rest[i - 1]);
            }
        }
        if first_empty(slots) < slots.len() {
            assert(slots[first_empty(slots)] == rest[first_empty(rest)]);
        }
    }
}

/// A position with an empty slot that only full slots precede is the first
/// empty one.
pub proof fn lemma_first_empty_is(slots: Seq<Option<ValueView>>, k: int)
    requires
        0 <= k <= slots.len(),
        forall|i: int| 0 <= i < k ==> (#[trigger] slots[i]) is Some,
        k < slots.len() ==> slots[k] is None,
    ensures
        first_empty(slots) == k,
{
    lemma_first_empty(slots);
    let f = first_empty(slots);
    if f < k {
        assert(slots[f] is Some);
    } else if k < f {
        assert(slots[k] is Some);
    }
}

impl BuildError {
    /// The error's text: the field's name and ` is not set`.
    pub fn message(&self) -> (r: String)
        ensures
            r@ == self.field@ + " is not set"@,
    {
        let mut r = self.field.clone();
        r.append(" is not set");
        r
    }
}

impl Schema {
    /// The entry point of the builder: a builder of this schema's type with
    /// every slot empty.
    pub fn builder(&self) -> (b: Builder)
        ensures
            b@ == BuilderView::fresh(self@),
    {
        Builder::new(self.duplicate())
    }
}

impl Builder {
    #[verifier::type_invariant]
    spec fn arity_matches(self) -> bool {
        self.slots.len() == self.schema.fields.len()
    }

    /// A builder of the type that `schema` describes, with every slot empty.
    pub fn new(schema: Schema) -> (b: Builder)
        ensures
            b@ == BuilderView::fresh(schema@),
            b@.well_formed(),
    {
        let mut slots: Vec<Option<Value>> = Vec::new();
        let mut i: usize = 0;
        while i < schema.fields.len()
            invariant
                i <= schema.fields.len(),
                slots.len() == i,
                forall|k: int| 0 <= k < i ==> (#[trigger] slots@[k]) is None,
            decreases schema.fields.len() - i,
        {
            slots.push(None);
            i = i + 1;
        }
        assert(slot_views(slots@) =~= BuilderView::fresh(schema@).slots);
        Builder { schema, slots }
    }

    /// The schema of the type that is built.
    pub fn schema(&self) -> (s: &Schema)
        ensures
            s@ == self@.schema,
    {
        &self.schema
    }

    /// Whether the slot of the first field named `name` holds a value.
    pub fn is_set(&self, name: &str) -> (r: bool)
        ensures
            self@.well_formed(),
            r == match position_of(self@.schema.fields, name@) {
                Some(i) => self@.slots[i] is Some,
                None => false,
            },
    {
        proof {
            use_type_invariant(self);
        }
        match self.schema.position(name) {
            Some(i) => {
                proof {
                    lemma_position_of(self.schema@.fields, name@);
                }
                self.slots[i].is_some()
            },
            None => false,
        }
    }

    /// The setter of the field named `name`: stores `value` in the field's
    /// slot and hands the builder back, so that calls can be chained. A name
    /// that the schema does not have changes nothing.
    pub fn set(&mut self, name: &str, value: Value) -> (ret: &mut Builder)
        ensures
            ret@ == old(self)@.set(name@, value@),
            ret@.well_formed(),
            *final(self) == *final(ret),
    {
        proof {
            use_type_invariant(&*self);
        }
        match self.schema.position(name) {
            Some(i) => {
                proof {
                    lemma_position_of(self.schema@.fields, name@);
                }
                self.slots[i] = Some(value);
                assert(slot_views(self.slots@) =~= slot_views(old(self).slots@).update(
                    i as int,
                    Some(value@),
                ));
            },
            None => {},
        }
        self
    }

    /// Takes the value of each slot in declaration order and assembles the
    /// final value. Fails at the first empty slot, with the name of its
    /// field. A slot that was read is empty afterwards, also where a later
    /// slot made the call fail.
    pub fn build(&mut self) -> (r: Result<Record, BuildError>)
        ensures
            match r {
                Ok(record) => old(self)@.build_result() == Ok::<RecordView, Seq<char>>(record@),
                Err(e) => old(self)@.build_result() == Err::<RecordView, Seq<char>>(e.field@),
            },
            final(self)@ == old(self)@.after_build(),
    {
        proof {
            use_type_invariant(&*self);
        }
        let n = self.slots.len();
        let ghost before = slot_views(self.slots@);
        let mut values: Vec<Value> = Vec::new();
        let mut i: usize = 0;
        while i < n
            invariant
                i <= n,
                n == self.slots.len(),
                n == self.schema.fields.len(),
                self.schema == old(self).schema,
                before == slot_views(old(self).slots@),
                before.len() == n,
                values.len() == i,
                forall|k: int| 0 <= k < i ==> (#[trigger] before[k]) is Some,
                forall|k: int| 0 <= k < i ==> (#[trigger] values@[k])@ == before[k]->0,
                forall|k: int| 0 <= k < i ==> (#[trigger] self.slots@[k]) is None,
                forall|k: int| i <= k < n ==> slot_view(#[trigger] self.slots@[k]) == before[k],
            decreases n - i,
        {
            let mut taken: Option<Value> = None;
            std::mem::swap(&mut self.slots[i], &mut taken);
            match taken {
                Some(v) => {
                    values.push(v);
                },
                None => {
                    proof {
                        lemma_first_empty_is(before, i as int);
                        assert(slot_views(self.slots@) =~= old(self)@.after_build().slots);
                    }
                    return Err(BuildError { field: self.schema.fields[i].name.clone() });
                },
            }
            i = i + 1;
        }
        proof {
            lemma_first_empty_is(before, n as int);
            assert(slot_views(self.slots@) =~= old(self)@.after_build().slots);
            assert(value_views(values@) =~= Seq::new(
                before.len(),
                |i: int| before[i]->0,
            ));
        }
        let schema = self.schema.duplicate();
        Ok(Record::new(schema, values))
    }
}

/// Setter calls keep the builder's schema and the number of its slots.
pub proof fn lemma_set_all_shape(schema: SchemaView, calls: Seq<SetterCall>)
    ensures
        BuilderView::fresh(schema).set_all(calls).well_formed(),
        BuilderView::fresh(schema).set_all(calls).schema == schema,
    decreases calls.len(),
{
    if calls.len() > 0 {
        lemma_set_all_shape(schema, calls.drop_last());
        lemma_position_of(schema.fields, calls.last().field);
    }
}

/// After a series of setter calls on a fresh builder, a slot is full exactly
/// when one of the calls named its field. This holds where no two fields
/// share a name.
pub proof fn lemma_slot_full_iff_set(schema: SchemaView, calls: Seq<SetterCall>, i: int)
    requires
        distinct_names(schema.fields),
        0 <= i < schema.fields.len(),
    ensures
        BuilderView::fresh(schema).set_all(calls).slots[i] is Some <==> exists|k: int|
            0 <= k < calls.len() && (#[trigger] calls[k]).field == schema.fields[i].name,
    decreases calls.len(),
{
    let name = schema.fields[i].name;
    if calls.len() > 0 {
        let earlier = calls.drop_last();
        let last = calls.last();
        lemma_slot_full_iff_set(schema, earlier, i);
        lemma_set_all_shape(schema, earlier);
        lemma_position_of(schema.fields, last.field);
        lemma_position_of_distinct(schema.fields, i);
        let b = BuilderView::fresh(schema).set_all(earlier);
        if b.slots[i] is Some {
            let k = choose|k: int| 0 <= k < earlier.len() && (#[trigger] earlier[k]).field == name;
            assert(calls[k].field == name);
        }
        if last.field == name {
            assert(calls[calls.len() - 1].field == name);
        }
        if exists|k: int| 0 <= k < calls.len() && (#[trigger] calls[k]).field == name {
            let k = choose|k: int| 0 <= k < calls.len() && (#[trigger] calls[k]).field == name;
            if k < earlier.len() {
                assert(earlier[k].field == name);
            }
        }
    }
}

/// Whether one of `calls` is a call of the setter of the field named `name`.
pub open spec fn was_set(calls: Seq<SetterCall>, name: Seq<char>) -> bool {
    exists|k: int| 0 <= k < calls.len() && (#[trigger] calls[k]).field == name
}

/// `build` succeeds if and only if the setter of every field was called at
/// least once before it. This holds where no two fields share a name.
pub proof fn lemma_build_succeeds_iff_all_set(schema: SchemaView, calls: Seq<SetterCall>)
    requires
        distinct_names(schema.fields),
    ensures
        BuilderView::fresh(schema).set_all(calls).build_result() is Ok <==> forall|i: int|
            0 <= i < schema.fields.len() ==> was_set(calls, (#[trigger] schema.fields[i]).name),
{
    let b = BuilderView::fresh(schema).set_all(calls);
    lemma_set_all_shape(schema, calls);
    lemma_first_empty(b.slots);
    assert forall|i: int| 0 <= i < schema.fields.len() implies ((#[trigger] b.slots[i]) is Some
        <==> was_set(calls, schema.fields[i].name)) by {
        lemma_slot_full_iff_set(schema, calls, i);
    }
    if forall|i: int|
        0 <= i < schema.fields.len() ==> was_set(calls, (#[trigger] schema.fields[i]).name) {
        if first_empty(b.slots) < b.slots.len() {
            let k = first_empty(b.slots);
            assert(was_set(calls, schema.fields[k].name));
            assert(b.slots[k] is Some);
        }
    } else {
        let i = choose|i: int|
            0 <= i < schema.fields.len() && !was_set(calls, (#[trigger] schema.fields[i]).name);
        assert(b.slots[i] is None);
    }
}

/// Where the setter of field `j` was never called and the setter of every
/// field declared before it was, `build` fails and its error names field
/// `j`. So leaving out one field makes `build` fail with that field's name.
pub proof fn lemma_build_names_omitted_field(schema: SchemaView, calls: Seq<SetterCall>, j: int)
    requires
        distinct_names(schema.fields),
        0 <= j < schema.fields.len(),
        !was_set(calls, schema.fields[j].name),
        forall|i: int| 0 <= i < j ==> was_set(calls, (#[trigger] schema.fields[i]).name),
    ensures
        BuilderView::fresh(schema).set_all(calls).build_result() == Err::<RecordView, Seq<char>>(
            schema.fields[j].name,
        ),
{
    let b = BuilderView::fresh(schema).set_all(calls);
    lemma_set_all_shape(schema, calls);
    assert forall|i: int| 0 <= i < schema.fields.len() implies ((#[trigger] b.slots[i]) is Some
        <==> was_set(calls, schema.fields[i].name)) by {
        lemma_slot_full_iff_set(schema, calls, i);
    }
    lemma_first_empty_is(b.slots, j);
}

} // verus!
