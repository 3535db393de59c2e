//! The accessor generator: a read and a write accessor for each field, and
//! the constructor that takes every field. What the generated operations do
//! is [`crate::runtime::record::Record`].

use crate::generate::artifact::{Artifact, ArtifactView, GeneratorKind};
use crate::schema::{
    field_names, parameter_sources, write_parameters, Field, FieldView, Schema, SchemaView,
};
use crate::text::{concatenate, concatenated, join, joined, texts};
use vstd::prelude::*;

verus! {

/// The read accessor of a field: named as the field, it returns a reference
/// to the field's value.
pub open spec fn getter_source(f: FieldView) -> Seq<char> {
    "    pub fn "@ + f.name + "(&self) -> &"@ + f.ty + " {\n        &self."@ + f.name
        + "\n    }\n"@
}

/// The write accessor of a field: named `set_` and the field's name, it
/// replaces the field's value and returns nothing.
pub open spec fn writer_source(f: FieldView) -> Seq<char> {
    "    pub fn set_"@ + f.name + "(&mut self, value: "@ + f.ty + ") {\n        self."@ + f.name
        + " = value;\n    }\n"@
}

/// The accessor pair of a field.
pub open spec fn accessor_pair_source(f: FieldView) -> Seq<char> {
    getter_source(f) + writer_source(f)
}

/// The source text of the accessors: the pair of each field in declaration
/// order, then the constructor `new` that takes every field in declaration
/// order and assigns by position.
pub open spec fn accessor_source(schema: SchemaView) -> Seq<char> {
    "impl "@ + schema.name + " {\n"@ + concatenated(
        schema.fields.map_values(|f: FieldView| accessor_pair_source(f)),
    ) + "    pub fn new("@ + joined(parameter_sources(schema.fields), ", "@)
        + ") -> Self {\n        Self { "@ + joined(field_names(schema.fields), ", "@)
        + " }\n    }\n}\n"@
}

fn write_accessor_pair(f: &Field) -> (r: String)
    ensures
        r@ == accessor_pair_source(f@),
{
    let mut r = String::from_str("    pub fn ");
    r.append(f.name.as_str());
    r.append("(&self) -> &");
    r.append(f.ty.as_str());
    r.append(" {\n        &self.");
    r.append(f.name.as_str());
    r.append("\n    }\n");
    let mut w = String::from_str("    pub fn set_");
    w.append(f.name.as_str());
    w.append("(&mut self, value: ");
    w.append(f.ty.as_str());
    w.append(") {\n        self.");
    w.append(f.name.as_str());
    w.append(" = value;\n    }\n");
    r.append(w.as_str());
    r
}

/// The accessor generator. It emits for every schema; the constructor of a
/// schema without fields takes no parameters.
pub fn emit_accessors(schema: &Schema) -> (a: Artifact)
    ensures
        a@ == (ArtifactView { generator: GeneratorKind::Accessor, text: accessor_source(schema@) }),
{
    let mut pairs: Vec<String> = Vec::new();
    let mut names: Vec<String> = Vec::new();
    let mut i: usize = 0;
    while i < schema.fields.len()
        invariant
            i <= schema.fields.len(),
            pairs.len() == i,
            names.len() == i,
            forall|k: int|
                0 <= k < i ==> (#[trigger] pairs@[k])@ == accessor_pair_source(schema.fields@[k]@),
            forall|k: int| 0 <= k < i ==> (#[trigger] names@[k])@ == schema.fields@[k]@.name,
        decreases schema.fields.len() - i,
    {
        pairs.push(write_accessor_pair(&schema.fields[i]));
        names.push(schema.fields[i].name.clone());
        i = i + 1;
    }
    assert(texts(pairs@) =~= schema@.fields.map_values(|f: FieldView| accessor_pair_source(f)));
    assert(texts(names@) =~= field_names(schema@.fields));
    let parameters = write_parameters(&schema.fields);
    let mut text = String::from_str("impl ");
    text.append(schema.name.as_str());
    text.append(" {\n");
    text.append(concatenate(&pairs).as_str());
    text.append("    pub fn new(");
    text.append(join(&parameters, ", ").as_str());
    text.append(") -> Self {\n        Self { ");
    text.append(join(&names, ", ").as_str());
    text.append(" }\n    }\n}\n");
    Artifact { generator: GeneratorKind::Accessor, text }
}

} // verus!
