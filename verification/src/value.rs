//! The values that a field of a generated type can hold, and their display
//! form.

use crate::text::{render_integer, same_text, signed_numeral};
use vstd::prelude::*;

verus! {

/// What a field holds when the generated operations run.
#[derive(Debug, PartialEq, Eq)]
pub enum Value {
    /// An optional field that holds nothing.
    Absent,
    /// A piece of text.
    Text(String),
    /// A whole number.
    Integer(i64),
}

/// The mathematical content of a [`Value`].
pub enum ValueView {
    Absent,
    Text(Seq<char>),
    Integer(int),
}

impl View for Value {
    type V = ValueView;

    open spec fn view(&self) -> ValueView {
        match self {
            Value::Absent => ValueView::Absent,
            Value::Text(s) => ValueView::Text(s@),
            Value::Integer(i) => ValueView::Integer(*i as int),
        }
    }
}

/// The views of a list of values, in order.
pub open spec fn value_views(items: Seq<Value>) -> Seq<ValueView> {
    items.map_values(|v: Value| v@)
}

/// The display form of a value: text as it stands, a number in decimal, and
/// nothing for an absent value.
pub open spec fn rendered(v: ValueView) -> Seq<char> {
    match v {
        ValueView::Absent => Seq::empty(),
        ValueView::Text(s) => s,
        ValueView::Integer(i) => signed_numeral(i),
    }
}

impl Value {
    /// A text value holding the characters of `s`.
    pub fn text(s: &str) -> (v: Value)
        ensures
            v@ == ValueView::Text(s@),
    {
        Value::Text(String::from_str(s))
    }

    /// Whether the value is anything but [`Value::Absent`].
    pub fn is_present(&self) -> (r: bool)
        ensures
            r == (self@ != ValueView::Absent),
    {
        match self {
            Value::Absent => false,
            _ => true,
        }
    }

    /// The display form of the value.
    pub fn display(&self) -> (r: String)
        ensures
            r@ == rendered(self@),
    {
        match self {
            Value::Absent => String::new(),
            Value::Text(s) => s.clone(),
            Value::Integer(i) => render_integer(*i),
        }
    }

    /// A copy of the value.
    pub fn duplicate(&self) -> (r: Value)
        ensures
            r@ == self@,
    {
        match self {
            Value::Absent => Value::Absent,
            Value::Text(s) => Value::Text(s.clone()),
            Value::Integer(i) => Value::Integer(*i),
        }
    }

    /// Whether two values have the same content.
    pub fn same(&self, other: &Value) -> (r: bool)
        ensures
            r == (self@ == other@),
    {
        match (self, other) {
            (Value::Absent, Value::Absent) => true,
            (Value::Text(a), Value::Text(b)) => same_text(a.as_str(), b.as_str()),
            (Value::Integer(a), Value::Integer(b)) => *a == *b,
            _ => false,
        }
    }
}

} // verus!
