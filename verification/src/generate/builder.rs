//! The builder generator.

use crate::generate::artifact::{Artifact, ArtifactView, GeneratorKind};
use crate::schema::{Field, FieldView, Schema, SchemaView};
use crate::text::{concatenate, concatenated, debug_quote, debug_quoted, texts};
use vstd::prelude::*;

verus! {

/// The name of the builder type: the schema's name and `Builder`.
pub open spec fn builder_name_of(schema_name: Seq<char>) -> Seq<char> {
    schema_name + "Builder"@
}

/// The slot of a field in the builder type: the field's type made optional.
pub open spec fn slot_source(f: FieldView) -> Seq<char> {
    "    "@ + f.name + ": std::option::Option<"@ + f.ty + ">,\n"@
}

/// The chainable setter of a field.
pub open spec fn setter_source(f: FieldView) -> Seq<char> {
    "    pub fn "@ + f.name + "(&mut self, "@ + f.name + ": "@ + f.ty
        + ") -> &mut Self {\n        self."@ + f.name + " = std::option::Option::Some("@ + f.name
        + ");\n        self\n    }\n"@
}

/// The line of `build` that takes the slot of a field, or fails with the
/// error written in `message`, a string literal.
pub open spec fn take_source_with(f: FieldView, message: Seq<char>) -> Seq<char> {
    "            "@ + f.name + ": self."@ + f.name + ".take().ok_or("@ + message + ")?,\n"@
}

/// The line of `build` that takes the slot of a field, or fails with the
/// error that names the field.
pub open spec fn take_source(f: FieldView) -> Seq<char> {
    take_source_with(f, debug_quoted(f.name + " is not set"@))
}

/// The line of the entry point that leaves the slot of a field empty.
pub open spec fn empty_slot_source(f: FieldView) -> Seq<char> {
    "            "@ + f.name + ": std::option::Option::None,\n"@
}

/// The source text of the builder: the builder type with one optional slot
/// per field, a chainable setter per field, the terminal `build`, and the
/// entry point `builder` on the schema's type.
pub open spec fn builder_source(schema: SchemaView) -> Seq<char> {
    let builder = builder_name_of(schema.name);
    "pub struct "@ + builder + " {\n"@ + concatenated(
        schema.fields.map_values(|f: FieldView| slot_source(f)),
    ) + "}\n\nimpl "@ + builder + " {\n"@ + concatenated(
        schema.fields.map_values(|f: FieldView| setter_source(f)),
    ) + "    pub fn build(&mut self) -> std::result::Result<"@ + schema.name
        + ", &'static str> {\n        Ok("@ + schema.name + " {\n"@ + concatenated(
        schema.fields.map_values(|f: FieldView| take_source(f)),
    ) + "        })\n    }\n}\n\nimpl "@ + schema.name + " {\n    pub fn builder() -> "@ + builder
        + " {\n        "@ + builder + " {\n"@ + concatenated(
        schema.fields.map_values(|f: FieldView| empty_slot_source(f)),
    ) + "        }\n    }\n}\n"@
}

fn write_slot(f: &Field) -> (r: String)
    ensures
        r@ == slot_source(f@),
{
    let mut r = String::from_str("    ");
    r.append(f.name.as_str());
    r.append(": std::option::Option<");
    r.append(f.ty.as_str());
    r.append(">,\n");
    r
}

fn write_setter(f: &Field) -> (r: String)
    ensures
        r@ == setter_source(f@),
{
    let mut r = String::from_str("    pub fn ");
    r.append(f.name.as_str());
    r.append("(&mut self, ");
    r.append(f.name.as_str());
    r.append(": ");
    r.append(f.ty.as_str());
    r.append(") -> &mut Self {\n        self.");
    r.append(f.name.as_str());
    r.append(" = std::option::Option::Some(");
    r.append(f.name.as_str());
    r.append(");\n        self\n    }\n");
    r
}

/// Writes the line of `build` that takes the slot of `f`, or fails with the
/// error written in `message`, a string literal.
pub fn write_take(f: &Field, message: &str) -> (r: String)
    ensures
        r@ == take_source_with(f@, message@),
{
    let mut r = String::from_str("            ");
    r.append(f.name.as_str());
    r.append(": self.");
    r.append(f.name.as_str());
    r.append(".take().ok_or(");
    r.append(message);
    r.append(")?,\n");
    r
}

fn write_named_take(f: &Field) -> (r: String)
    ensures
        r@ == take_source(f@),
{
    let mut message = f.name.clone();
    message.append(" is not set");
    write_take(f, debug_quote(message.as_str()).as_str())
}

fn write_empty_slot(f: &Field) -> (r: String)
    ensures
        r@ == empty_slot_source(f@),
{
    let mut r = String::from_str("            ");
    r.append(f.name.as_str());
    r.append(": std::option::Option::None,\n");
    r
}

/// The builder generator. It emits for every schema, also for one without
/// fields.
pub fn emit_builder(schema: &Schema) -> (a: Artifact)
    ensures
        a@ == (ArtifactView { generator: GeneratorKind::Builder, text: builder_source(schema@) }),
{
    let mut slots: Vec<String> = Vec::new();
    let mut setters: Vec<String> = Vec::new();
    let mut takes: Vec<String> = Vec::new();
    let mut empties: Vec<String> = Vec::new();
    let mut i: usize = 0;
    while i < schema.fields.len()
        invariant
            i <= schema.fields.len(),
            slots.len() == i,
            setters.len() == i,
            takes.len() == i,
            empties.len() == i,
            forall|k: int| 0 <= k < i ==> (#[trigger] slots@[k])@ == slot_source(schema.fields@[k]@),
            forall|k: int|
                0 <= k < i ==> (#[trigger] setters@[k])@ == setter_source(schema.fields@[k]@),
            forall|k: int| 0 <= k < i ==> (#[trigger] takes@[k])@ == take_source(schema.fields@[k]@),
            forall|k: int|
                0 <= k < i ==> (#[trigger] empties@[k])@ == empty_slot_source(schema.fields@[k]@),
        decreases schema.fields.len() - i,
    {
        let f = &schema.fields[i];
        slots.push(write_slot(f));
        setters.push(write_setter(f));
        takes.push(write_named_take(f));
        empties.push(write_empty_slot(f));
        i = i + 1;
    }
    assert(texts(slots@) =~= schema@.fields.map_values(|f: FieldView| slot_source(f)));
    assert(texts(setters@) =~= schema@.fields.map_values(|f: FieldView| setter_source(f)));
    assert(texts(takes@) =~= schema@.fields.map_values(|f: FieldView| take_source(f)));
    assert(texts(empties@) =~= schema@.fields.map_values(|f: FieldView| empty_slot_source(f)));
    let mut builder = schema.name.clone();
    builder.append("Builder");
    let mut text = String::from_str("pub struct ");
    text.append(builder.as_str());
    text.append(" {\n");
    text.append(concatenate(&slots).as_str());
    text.append("}\n\nimpl ");
    text.append(builder.as_str());
    text.append(" {\n");
    text.append(concatenate(&setters).as_str());
    text.append("    pub fn build(&mut self) -> std::result::Result<");
    text.append(schema.name.as_str());
    text.append(", &'static str> {\n        Ok(");
    text.append(schema.name.as_str());
    text.append(" {\n");
    text.append(concatenate(&takes).as_str());
    text.append("        })\n    }\n}\n\nimpl ");
    text.append(schema.name.as_str());
    text.append(" {\n    pub fn builder() -> ");
    text.append(builder.as_str());
    text.append(" {\n        ");
    text.append(builder.as_str());
    text.append(" {\n");
    text.append(concatenate(&empties).as_str());
    text.append("        }\n    }\n}\n");
    Artifact { generator: GeneratorKind::Builder, text }
}

} // verus!
