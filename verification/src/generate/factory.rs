//! The factory generator.

use crate::generate::artifact::{Artifact, ArtifactView, GeneratorKind};
use crate::runtime::factory::{factory_name_of, factory_parameters};
use crate::schema::{parameter_sources, write_parameters, FieldView, Schema, SchemaView};
use crate::text::{join, joined, texts};
use vstd::prelude::*;

verus! {

/// A field written in the body of the factory: a marked field is given the
/// default value of its type, an unmarked one is taken from its parameter.
pub open spec fn initializer_source(f: FieldView) -> Seq<char> {
    if f.factory_default {
        f.name + ": Default::default()"@
    } else {
        f.name
    }
}

/// The source text of a factory whose operation is named `operation`: its
/// parameters are the unmarked fields in declaration order and its body
/// fills every field. A schema without fields gives no text.
pub open spec fn factory_source_named(schema: SchemaView, operation: Seq<char>) -> Seq<char> {
    if schema.fields.len() == 0 {
        Seq::empty()
    } else {
        "impl "@ + schema.name + " {\n    pub fn "@ + operation + "("@ + joined(
            parameter_sources(factory_parameters(schema.fields)),
            ", "@,
        ) + ") -> Self {\n        Self { "@ + joined(
            schema.fields.map_values(|f: FieldView| initializer_source(f)),
            ", "@,
        ) + " }\n    }\n}\n"@
    }
}

/// The source text of the factory: one operation, named by
/// [`factory_name_of`].
pub open spec fn factory_source(schema: SchemaView) -> Seq<char> {
    factory_source_named(schema, factory_name_of(schema.name))
}

/// Writes the factory of `schema` with an operation named `operation`.
pub fn write_factory(schema: &Schema, operation: &str) -> (r: String)
    ensures
        r@ == factory_source_named(schema@, operation@),
{
    if schema.fields.len() == 0 {
        return String::new();
    }
    let parameters = write_parameters(&schema.factory_parameters());
    let mut initializers: Vec<String> = Vec::new();
    let mut i: usize = 0;
    while i < schema.fields.len()
        invariant
            i <= schema.fields.len(),
            initializers.len() == i,
            forall|k: int|
                0 <= k < i ==> (#[trigger] initializers@[k])@ == initializer_source(
                    schema.fields@[k]@,
                ),
        decreases schema.fields.len() - i,
    {
        let mut line = schema.fields[i].name.clone();
        if schema.fields[i].factory_default {
            line.append(": Default::default()");
        }
        initializers.push(line);
        i = i + 1;
    }
    assert(texts(initializers@) =~= schema@.fields.map_values(
        |f: FieldView| initializer_source(f),
    ));
    let mut text = String::from_str("impl ");
    text.append(schema.name.as_str());
    text.append(" {\n    pub fn ");
    text.append(operation);
    text.append("(");
    text.append(join(&parameters, ", ").as_str());
    text.append(") -> Self {\n        Self { ");
    text.append(join(&initializers, ", ").as_str());
    text.append(" }\n    }\n}\n");
    text
}

/// The factory generator.
pub fn emit_factory(schema: &Schema) -> (a: Artifact)
    ensures
        a@ == (ArtifactView { generator: GeneratorKind::Factory, text: factory_source(schema@) }),
{
    let operation = schema.factory_name();
    Artifact { generator: GeneratorKind::Factory, text: write_factory(schema, operation.as_str()) }
}

} // verus!
