//! The schema model: a named container with an ordered list of typed fields.

use crate::text::{chars_of, is_whitespace, same_text, texts, whitespace};
use vstd::prelude::*;

verus! {

/// One field of a schema.
#[derive(Debug, PartialEq, Eq)]
pub struct Field {
    /// The field's identifier.
    pub name: String,
    /// The field's type, as source text.
    pub ty: String,
    /// Whether the field carries the factory marker: the factory then takes
    /// no parameter for it and fills it with the default value of its type.
    pub factory_default: bool,
}

/// The mathematical content of a [`Field`].
pub struct FieldView {
    pub name: Seq<char>,
    pub ty: Seq<char>,
    pub factory_default: bool,
}

impl View for Field {
    type V = FieldView;

    open spec fn view(&self) -> FieldView {
        FieldView { name: self.name@, ty: self.ty@, factory_default: self.factory_default }
    }
}

/// The views of a list of fields, in order.
pub open spec fn field_views(items: Seq<Field>) -> Seq<FieldView> {
    items.map_values(|f: Field| f@)
}

/// A named container and its fields in declaration order.
#[derive(Debug, PartialEq, Eq)]
pub struct Schema {
    /// The container's identifier.
    pub name: String,
    /// The fields, in declaration order.
    pub fields: Vec<Field>,
}

/// The mathematical content of a [`Schema`].
pub struct SchemaView {
    pub name: Seq<char>,
    pub fields: Seq<FieldView>,
}

impl View for Schema {
    type V = SchemaView;

    open spec fn view(&self) -> SchemaView {
        SchemaView { name: self.name@, fields: field_views(self.fields@) }
    }
}

/// A character that may stand in an identifier: an ASCII letter, digit or
/// underscore, or a character beyond ASCII that is not whitespace.
pub open spec fn is_identifier_char(c: char) -> bool {
    let u = c as u32;
    ||| 0x61 <= u <= 0x7a
    ||| 0x41 <= u <= 0x5a
    ||| 0x30 <= u <= 0x39
    ||| u == 0x5f
    ||| (u >= 0x80 && !is_whitespace(c))
}

/// A non-empty run of identifier characters that does not begin with a digit.
pub open spec fn is_identifier(s: Seq<char>) -> bool {
    &&& s.len() > 0
    &&& !(0x30 <= s[0] as u32 <= 0x39)
    &&& forall|i: int| 0 <= i < s.len() ==> is_identifier_char(#[trigger] s[i])
}

/// The position of the first field named `name`, if there is one.
pub open spec fn position_of(fields: Seq<FieldView>, name: Seq<char>) -> Option<int>
    decreases fields.len(),
{
    if fields.len() == 0 {
        None
    } else {
        match position_of(fields.drop_last(), name) {
            Some(i) => Some(i),
            None => if fields.last().name == name {
                Some(fields.len() - 1)
            } else {
                None
            },
        }
    }
}

/// The names of the fields, in order.
pub open spec fn field_names(fields: Seq<FieldView>) -> Seq<Seq<char>> {
    fields.map_values(|f: FieldView| f.name)
}

/// No two fields share a name.
pub open spec fn distinct_names(fields: Seq<FieldView>) -> bool {
    forall|i: int, j: int|
        0 <= i < j < fields.len() ==> (#[trigger] fields[i]).name != (#[trigger] fields[j]).name
}

impl SchemaView {
    /// The schema's invariant: its name and the names of its fields are
    /// identifiers, and no two fields share a name.
    pub open spec fn well_formed(self) -> bool {
        &&& is_identifier(self.name)
        &&& forall|i: int| 0 <= i < self.fields.len() ==> is_identifier(#[trigger] self.fields[i].name)
        &&& distinct_names(self.fields)
    }
}

/// What [`position_of`] finds is the first field with the name.
pub proof fn lemma_position_of(fields: Seq<FieldView>, name: Seq<char>)
    ensures
        match position_of(fields, name) {
            Some(i) => {
                &&& 0 <= i < fields.len()
                &&& fields[i].name == name
                &&& forall|k: int| 0 <= k < i ==> (#[trigger] fields[k]).name != name
            },
            None => forall|k: int| 0 <= k < fields.len() ==> (#[trigger] fields[k]).name != name,
        },
    decreases fields.len(),
{
    if fields.len() > 0 {
        let front = fields.drop_last();
        lemma_position_of(front, name);
        assert forall|k: int| 0 <= k < front.len() implies front[k] == fields[k] by {}
        match position_of(front, name) {
            Some(i) => {
                assert(fields[i] == front[i]);
                assert forall|k: int| 0 <= k < i implies (#[trigger] fields[k]).name != name by {
                    assert(fields[k] == front[k]);
                }
            },
            None => {
                assert forall|k: int| 0 <= k < front.len() implies (#[trigger] fields[k]).name
                    != name by {
                    assert(fields[k] == front[k]);
                }
            },
        }
    }
}

/// In a list of fields with distinct names, each field is found at its own
/// position.
pub proof fn lemma_position_of_distinct(fields: Seq<FieldView>, i: int)
    requires
        distinct_names(fields),
        0 <= i < fields.len(),
    ensures
        position_of(fields, fields[i].name) == Some(i),
{
    lemma_position_of(fields, fields[i].name);
}

pub(crate) fn identifier_char(c: char) -> (r: bool)
    ensures
        r == is_identifier_char(c),
{
    let u: u32 = c as u32;
    (0x61 <= u && u <= 0x7a) || (0x41 <= u && u <= 0x5a) || (0x30 <= u && u <= 0x39) || u == 0x5f
        || (u >= 0x80 && !whitespace(c))
}

/// Whether `s` is an identifier.
pub fn identifier(s: &str) -> (r: bool)
    ensures
        r == is_identifier(s@),
{
    let v = chars_of(s);
    if v.len() == 0 {
        return false;
    }
    let first: u32 = v[0] as u32;
    if 0x30 <= first && first <= 0x39 {
        return false;
    }
    let mut i: usize = 0;
    while i < v.len()
        invariant
            v@ == s@,
            i <= v.len(),
            forall|k: int| 0 <= k < i ==> is_identifier_char(#[trigger] v@[k]),
        decreases v.len() - i,
    {
        if !identifier_char(v[i]) {
            return false;
        }
        i = i + 1;
    }
    true
}

impl Field {
    /// A field that the factory takes as a parameter.
    pub fn new(name: &str, ty: &str) -> (f: Field)
        ensures
            f@ == (FieldView { name: name@, ty: ty@, factory_default: false }),
    {
        Field { name: String::from_str(name), ty: String::from_str(ty), factory_default: false }
    }

    /// A field that carries the factory marker.
    pub fn with_factory_default(name: &str, ty: &str) -> (f: Field)
        ensures
            f@ == (FieldView { name: name@, ty: ty@, factory_default: true }),
    {
        Field { name: String::from_str(name), ty: String::from_str(ty), factory_default: true }
    }

    /// A copy of the field.
    pub fn duplicate(&self) -> (f: Field)
        ensures
            f@ == self@,
    {
        Field {
            name: self.name.clone(),
            ty: self.ty.clone(),
            factory_default: self.factory_default,
        }
    }
}

impl Schema {
    /// A schema with the given name and fields.
    pub fn new(name: &str, fields: Vec<Field>) -> (s: Schema)
        ensures
            s@ == (SchemaView { name: name@, fields: field_views(fields@) }),
    {
        Schema { name: String::from_str(name), fields }
    }

    /// A copy of the schema.
    pub fn duplicate(&self) -> (s: Schema)
        ensures
            s@ == self@,
    {
        let mut fields: Vec<Field> = Vec::new();
        let mut i: usize = 0;
        while i < self.fields.len()
            invariant
                i <= self.fields.len(),
                fields.len() == i,
                forall|k: int| 0 <= k < i ==> (#[trigger] fields@[k])@ == self.fields@[k]@,
            decreases self.fields.len() - i,
        {
            fields.push(self.fields[i].duplicate());
            i = i + 1;
        }
        assert(field_views(fields@) =~= field_views(self.fields@));
        Schema { name: self.name.clone(), fields }
    }

    /// The position of the first field named `name`.
    pub fn position(&self, name: &str) -> (r: Option<usize>)
        ensures
            match r {
                Some(i) => position_of(self@.fields, name@) == Some(i as int),
                None => position_of(self@.fields, name@) is None,
            },
    {
        let mut i: usize = 0;
        while i < self.fields.len()
            invariant
                i <= self.fields.len(),
                position_of(self@.fields.take(i as int), name@) is None,
            decreases self.fields.len() - i,
        {
            let ghost front = self@.fields.take(i + 1);
            assert(front.drop_last() == self@.fields.take(i as int));
            assert(front.last() == self.fields@[i as int]@);
            if same_text(self.fields[i].name.as_str(), name) {
                proof {
                    lemma_position_prefix(self@.fields, name@, i + 1);
                }
                return Some(i);
            }
            i = i + 1;
        }
        assert(self@.fields.take(self.fields.len() as int) == self@.fields);
        None
    }

    /// Whether the schema meets its invariant.
    pub fn is_well_formed(&self) -> (r: bool)
        ensures
            r == self@.well_formed(),
    {
        if !identifier(self.name.as_str()) {
            return false;
        }
        let mut i: usize = 0;
        while i < self.fields.len()
            invariant
                i <= self.fields.len(),
                forall|k: int| 0 <= k < i ==> is_identifier(#[trigger] self@.fields[k].name),
                distinct_names(self@.fields.take(i as int)),
            decreases self.fields.len() - i,
        {
            if !identifier(self.fields[i].name.as_str()) {
                assert(self@.fields[i as int].name == self.fields@[i as int].name@);
                return false;
            }
            let mut j: usize = 0;
            while j < i
                invariant
                    j <= i < self.fields.len(),
                    forall|k: int|
                        0 <= k < j ==> (#[trigger] self@.fields[k]).name != self@.fields[i as int].name,
                decreases i - j,
            {
                if same_text(self.fields[j].name.as_str(), self.fields[i].name.as_str()) {
                    assert(self@.fields[j as int].name == self@.fields[i as int].name);
                    return false;
                }
                j = j + 1;
            }
            proof {
                let before = self@.fields.take(i as int);
                let after = self@.fields.take(i + 1);
                assert forall|a: int, b: int| 0 <= a < b < after.len() implies (#[trigger] after[a]).name
                    != (#[trigger] after[b]).name by {
                    if b < i {
                        assert(before[a] == after[a] && before[b] == after[b]);
                    }
                }
            }
            i = i + 1;
        }
        assert(self@.fields.take(self.fields.len() as int) == self@.fields);
        true
    }
}

/// A field found in a prefix of the list is found at the same place in the
/// whole list.
pub proof fn lemma_position_prefix(fields: Seq<FieldView>, name: Seq<char>, n: int)
    requires
        0 <= n <= fields.len(),
        position_of(fields.take(n), name) is Some,
    ensures
        position_of(fields, name) == position_of(fields.take(n), name),
    decreases fields.len() - n,
{
    if n < fields.len() {
        assert(fields.take(n + 1).drop_last() == fields.take(n));
        lemma_position_prefix(fields, name, n + 1);
    } else {
        assert(fields.take(n) == fields);
    }
}

/// A field written as a parameter: its name, a colon and its type.
pub open spec fn parameter_source(f: FieldView) -> Seq<char> {
    f.name + ": "@ + f.ty
}

/// The fields written as parameters, in order.
pub open spec fn parameter_sources(fields: Seq<FieldView>) -> Seq<Seq<char>> {
    fields.map_values(|f: FieldView| parameter_source(f))
}

/// Writes each field as a parameter.
pub fn write_parameters(fields: &Vec<Field>) -> (r: Vec<String>)
    ensures
        texts(r@) == parameter_sources(field_views(fields@)),
{
    let mut r: Vec<String> = Vec::new();
    let mut i: usize = 0;
    while i < fields.len()
        invariant
            i <= fields.len(),
            r.len() == i,
            forall|k: int| 0 <= k < i ==> (#[trigger] r@[k])@ == parameter_source(fields@[k]@),
        decreases fields.len() - i,
    {
        let mut p = fields[i].name.clone();
        p.append(": ");
        p.append(fields[i].ty.as_str());
        r.push(p);
        i = i + 1;
    }
    assert(texts(r@) =~= parameter_sources(field_views(fields@)));
    r
}

} // verus!
