//! What the generated factory does: it takes the fields without the factory
//! marker and fills the marked ones with the default value of their type.

use crate::runtime::record::{Record, RecordView};
use crate::schema::{field_views, Field, FieldView, Schema};
use crate::text::{lowercase, lowercased, remove_whitespace, same_text, without_whitespace};
use crate::value::{value_views, Value, ValueView};
use vstd::prelude::*;

verus! {

/// The name of the factory operation for a schema name that was put in
/// lower case: `new_` before it.
pub open spec fn factory_name_from(lowered: Seq<char>) -> Seq<char> {
    "new_"@ + lowered
}

/// The name of the factory operation: `new_` and the schema's name in lower
/// case.
pub open spec fn factory_name_of(schema_name: Seq<char>) -> Seq<char> {
    factory_name_from(lowercased(schema_name))
}

/// The name of the factory operation for a schema name that was put in
/// lower case.
pub fn factory_name_for(lowered: &str) -> (r: String)
    ensures
        r@ == factory_name_from(lowered@),
{
    let mut r = String::from_str("new_");
    r.append(lowered);
    r
}

/// Whether `ty`, written without whitespace, names one of Rust's integer
/// types.
pub open spec fn is_integer_type(ty: Seq<char>) -> bool {
    ||| ty == "i8"@
    ||| ty == "i16"@
    ||| ty == "i32"@
    ||| ty == "i64"@
    ||| ty == "i128"@
    ||| ty == "isize"@
    ||| ty == "u8"@
    ||| ty == "u16"@
    ||| ty == "u32"@
    ||| ty == "u64"@
    ||| ty == "u128"@
    ||| ty == "usize"@
}

/// The default value of a type: zero for an integer type, the empty text for
/// `String`, and no value for every other type, such as an `Option`.
pub open spec fn default_of(ty: Seq<char>) -> ValueView {
    let compact = without_whitespace(ty);
    if is_integer_type(compact) {
        ValueView::Integer(0)
    } else if compact == "String"@ {
        ValueView::Text(Seq::empty())
    } else {
        ValueView::Absent
    }
}

/// The positions of the fields without the factory marker, in ascending
/// order.
pub open spec fn parameter_positions(fields: Seq<FieldView>) -> Seq<int>
    decreases fields.len(),
{
    if fields.len() == 0 {
        Seq::empty()
    } else if !fields.last().factory_default {
        parameter_positions(fields.drop_last()).push(fields.len() - 1)
    } else {
        parameter_positions(fields.drop_last())
    }
}

/// The parameters of the factory operation: the fields without the factory
/// marker, in declaration order.
pub open spec fn factory_parameters(fields: Seq<FieldView>) -> Seq<FieldView> {
    parameter_positions(fields).map_values(|i: int| fields[i])
}

/// The number of fields that carry the factory marker.
pub open spec fn marked_count(fields: Seq<FieldView>) -> nat
    decreases fields.len(),
{
    if fields.len() == 0 {
        0
    } else if fields.last().factory_default {
        marked_count(fields.drop_last()) + 1
    } else {
        marked_count(fields.drop_last())
    }
}

/// The values of the fields of the value that the factory returns for the
/// arguments `args`: a marked field has the default value of its type, and
/// an unmarked field has the argument of its parameter.
pub open spec fn constructed(fields: Seq<FieldView>, args: Seq<ValueView>) -> Seq<ValueView> {
    Seq::new(
        fields.len(),
        |i: int|
            if fields[i].factory_default {
                default_of(fields[i].ty)
            } else {
                args[parameter_positions(fields.take(i)).len() as int]
            },
    )
}

/// [`parameter_positions`] lists exactly the positions of the unmarked
/// fields, each once and in ascending order.
pub proof fn lemma_parameter_positions(fields: Seq<FieldView>)
    ensures
        parameter_positions(fields).len() + marked_count(fields) == fields.len(),
        forall|k: int|
            0 <= k < parameter_positions(fields).len() ==> {
                let i = #[trigger] parameter_positions(fields)[k];
                &&& 0 <= i < fields.len()
                &&& !fields[i].factory_default
                &&& parameter_positions(fields.take(i)).len() == k
            },
        forall|k: int, l: int|
            0 <= k < l < parameter_positions(fields).len() ==> parameter_positions(fields)[k]
                < parameter_positions(fields)[l],
        forall|i: int|
            0 <= i < fields.len() && !fields[i].factory_default ==> parameter_positions(
                fields,
            ).contains(i),
    decreases fields.len(),
{
    if fields.len() > 0 {
        let front = fields.drop_last();
        let last = fields.len() - 1;
        lemma_parameter_positions(front);
        let p = parameter_positions(fields);
        let q = parameter_positions(front);
        assert(fields.take(last) == front);
        assert forall|k: int| 0 <= k < p.len() implies {
            let i = #[trigger] p[k];
            &&& 0 <= i < fields.len()
            &&& !fields[i].factory_default
            &&& parameter_positions(fields.take(i)).len() == k
        } by {
            if k < q.len() {
                assert(p[k] == q[k]);
                assert(front[q[k]] == fields[q[k]]);
                assert(front.take(q[k]) == fields.take(q[k]));
            }
        }
        assert forall|k: int, l: int| 0 <= k < l < p.len() implies p[k] < p[l] by {
            assert(p[k] == q[k]);
            if l < q.len() {
                assert(p[l] == q[l]);
            }
        }
        assert forall|i: int|
            0 <= i < fields.len() && !fields[i].factory_default implies p.contains(i) by {
            if i < last {
                assert(front[i] == fields[i]);
                assert(q.contains(i));
                let k = choose|k: int| 0 <= k < q.len() && q[k] == i;
                assert(p[k] == i);
            } else {
                assert(p[p.len() - 1] == i);
            }
        }
    }
}

/// The factory operation of a schema with `N` fields of which `M` carry the
/// marker has `N - M` parameters, and in the value that it returns each
/// marked field holds the default value of its type.
pub proof fn lemma_factory_arity_and_defaults(fields: Seq<FieldView>, args: Seq<ValueView>)
    requires
        args.len() == factory_parameters(fields).len(),
    ensures
        factory_parameters(fields).len() == fields.len() - marked_count(fields),
        constructed(fields, args).len() == fields.len(),
        forall|i: int|
            0 <= i < fields.len() && fields[i].factory_default ==> #[trigger] constructed(
                fields,
                args,
            )[i] == default_of(fields[i].ty),
        forall|k: int|
            0 <= k < args.len() ==> constructed(fields, args)[parameter_positions(fields)[k]]
                == #[trigger] args[k],
{
    lemma_parameter_positions(fields);
}

fn integer_type(ty: &str) -> (r: bool)
    ensures
        r == is_integer_type(ty@),
{
    same_text(ty, "i8") || same_text(ty, "i16") || same_text(ty, "i32") || same_text(ty, "i64")
        || same_text(ty, "i128") || same_text(ty, "isize") || same_text(ty, "u8") || same_text(
        ty,
        "u16",
    ) || same_text(ty, "u32") || same_text(ty, "u64") || same_text(ty, "u128") || same_text(
        ty,
        "usize",
    )
}

/// The default value of the type written in `ty`.
pub fn default_value(ty: &str) -> (v: Value)
    ensures
        v@ == default_of(ty@),
{
    let compact = remove_whitespace(ty);
    if integer_type(compact.as_str()) {
        Value::Integer(0)
    } else if same_text(compact.as_str(), "String") {
        Value::Text(String::new())
    } else {
        Value::Absent
    }
}

impl Schema {
    /// The name of the factory operation.
    pub fn factory_name(&self) -> (r: String)
        ensures
            r@ == factory_name_of(self@.name),
    {
        factory_name_for(lowercase(self.name.as_str()).as_str())
    }

    /// The parameters of the factory operation, in order.
    pub fn factory_parameters(&self) -> (params: Vec<Field>)
        ensures
            field_views(params@) == factory_parameters(self@.fields),
            params.len() == self@.fields.len() - marked_count(self@.fields),
    {
        let ghost fields = self@.fields;
        let mut params: Vec<Field> = Vec::new();
        let mut i: usize = 0;
        while i < self.fields.len()
            invariant
                i <= self.fields.len(),
                fields == self@.fields,
                params.len() == parameter_positions(fields.take(i as int)).len(),
                forall|k: int|
                    0 <= k < params.len() ==> (#[trigger] params@[k])@ == fields[parameter_positions(
                        fields.take(i as int),
                    )[k]],
            decreases self.fields.len() - i,
        {
            assert(fields.take(i + 1).drop_last() == fields.take(i as int));
            assert(fields.take(i + 1).last() == self.fields@[i as int]@);
            if !self.fields[i].factory_default {
                params.push(self.fields[i].duplicate());
            }
            i = i + 1;
        }
        proof {
            assert(fields.take(self.fields.len() as int) == fields);
            assert(field_views(params@) =~= factory_parameters(fields));
            lemma_parameter_positions(fields);
        }
        params
    }

    /// The factory operation: takes one argument for each field without the
    /// marker, in declaration order, and returns the value whose marked
    /// fields hold the default value of their type.
    pub fn construct(&self, args: Vec<Value>) -> (r: Record)
        requires
            args.len() == factory_parameters(self@.fields).len(),
        ensures
            r@ == (RecordView {
                schema: self@,
                values: constructed(self@.fields, value_views(args@)),
            }),
    {
        let ghost fields = self@.fields;
        let ghost given = value_views(args@);
        let mut args = args;
        let mut values: Vec<Value> = Vec::new();
        let mut i: usize = 0;
        let mut next: usize = 0;
        proof {
            lemma_parameter_positions(fields);
        }
        while i < self.fields.len()
            invariant
                i <= self.fields.len(),
                fields == self@.fields,
                args.len() == given.len(),
                given.len() == parameter_positions(fields).len(),
                next == parameter_positions(fields.take(i as int)).len(),
                next <= args.len(),
                forall|k: int| next <= k < args.len() ==> (#[trigger] args@[k])@ == given[k],
                values.len() == i,
                forall|k: int|
                    0 <= k < i ==> (#[trigger] values@[k])@ == constructed(fields, given)[k],
            decreases self.fields.len() - i,
        {
            assert(fields.take(i + 1).drop_last() == fields.take(i as int));
            assert(fields.take(i + 1).last() == self.fields@[i as int]@);
            if self.fields[i].factory_default {
                values.push(default_value(self.fields[i].ty.as_str()));
            } else {
                proof {
                    lemma_parameter_positions(fields);
                    assert(parameter_positions(fields).contains(i as int));
                }
                let mut taken = Value::Absent;
                std::mem::swap(&mut args[next], &mut taken);
                values.push(taken);
                next = next + 1;
            }
            i = i + 1;
        }
        assert(value_views(values@) =~= constructed(fields, given));
        let schema = self.duplicate();
        Record::new(schema, values)
    }
}

} // verus!
