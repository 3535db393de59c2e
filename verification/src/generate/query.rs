//! The query generator, in its three configurations: without directives,
//! under the table and column directives, and with nested models.

use crate::directive::{DirectiveSet, DirectiveSetView, NestedModel, NestedModelView};
use crate::generate::artifact::{Artifact, ArtifactView, GeneratorKind};
use crate::runtime::query::{
    config_of, model_config_of, placeholder_table, QueryConfig, QueryConfigView,
};
use crate::schema::{field_names, Schema, SchemaView};
use crate::text::{concatenate, concatenated, debug_quote, debug_quoted, join, joined, texts};
use vstd::prelude::*;

verus! {

/// The lines of the query operation that add the predicate of the field
/// `name` where the field holds a value; `literal` is the name as a string
/// literal.
pub open spec fn check_source_with(name: Seq<char>, literal: Seq<char>) -> Seq<char> {
    "        if let Some(ref value) = self."@ + name
        + " {\n            query_parts.push(format!(\"{} = '{}'\", "@ + literal
        + ", value));\n        }\n"@
}

/// The lines of the query operation that add the predicate of one field
/// where the field holds a value.
pub open spec fn check_source(name: Seq<char>) -> Seq<char> {
    check_source_with(name, debug_quoted(name))
}

/// The column mode as source text.
pub open spec fn flag_source(flag: bool) -> Seq<char> {
    if flag {
        "true"@
    } else {
        "false"@
    }
}

/// The source text of the query operation of the type `owner`:
/// `build_query`, which collects predicates by `checks` and writes the
/// statement for the table written in `table`, a string literal.
pub open spec fn query_source_with(
    owner: Seq<char>,
    checks: Seq<Seq<char>>,
    table: Seq<char>,
    columns_only: bool,
) -> Seq<char> {
    "impl "@ + owner
        + " {\n    pub fn build_query(&self) -> String {\n        let mut query_parts: Vec<String> = Vec::new();\n"@
        + concatenated(checks)
        + "        if query_parts.is_empty() {\n            return format!(\"SELECT * FROM {}\", "@
        + table
        + ");\n        }\n        let columns: String = query_parts\n            .iter()\n            .map(|item| item.split('=').next().unwrap_or(\"\").trim())\n            .collect::<Vec<&str>>()\n            .join(\", \");\n        let where_clause = query_parts.join(\" AND \");\n        if "@
        + flag_source(columns_only)
        + " {\n            return format!(\"SELECT {:?} FROM {} WHERE {}\", columns.replace(\"\\\"\", \"\"), "@
        + table + ", where_clause);\n        }\n        format!(\"SELECT * FROM {} WHERE {}\", "@
        + table + ", where_clause)\n    }\n}\n"@
}

/// The source text of the query operation of the type `owner` with the
/// fields `names`: `build_query`, which collects the predicates of the
/// present fields and writes the statement for `config`.
pub open spec fn query_source(
    owner: Seq<char>,
    names: Seq<Seq<char>>,
    config: QueryConfigView,
) -> Seq<char> {
    query_source_with(
        owner,
        names.map_values(|name: Seq<char>| check_source(name)),
        debug_quoted(config.table),
        config.columns_only,
    )
}

/// The line that gives the auxiliary type of a nested model its further
/// capabilities; nothing where it has none.
pub open spec fn derive_source(capabilities: Seq<Seq<char>>) -> Seq<char> {
    if capabilities.len() == 0 {
        Seq::empty()
    } else {
        "#[derive("@ + joined(capabilities, ", "@) + ")]\n"@
    }
}

/// One field of the auxiliary type of a nested model.
pub open spec fn model_field_source(name: Seq<char>) -> Seq<char> {
    "    pub "@ + name + ": Option<String>,\n"@
}

/// The source text of one nested model: its auxiliary type, whose fields
/// are the declared names, and the query operation of that type.
pub open spec fn model_source(model: NestedModelView, set: DirectiveSetView) -> Seq<char> {
    derive_source(model.extra_capabilities) + "pub struct "@ + model.name + " {\n"@ + concatenated(
        model.fields.map_values(|name: Seq<char>| model_field_source(name)),
    ) + "}\n"@ + query_source(model.name, model.fields, model_config_of(model, set))
}

/// The source text that the query generator emits under a directive set:
/// the query operation of the host type, then each nested model.
pub open spec fn directed_query_source(schema: SchemaView, set: DirectiveSetView) -> Seq<char> {
    query_source(schema.name, field_names(schema.fields), config_of(set)) + concatenated(
        set.nested_models.map_values(|model: NestedModelView| model_source(model, set)),
    )
}

/// Writes the lines of the query operation that add the predicate of the
/// field `name`; `literal` is the name as a string literal.
pub fn write_check(name: &str, literal: &str) -> (r: String)
    ensures
        r@ == check_source_with(name@, literal@),
{
    let mut r = String::from_str("        if let Some(ref value) = self.");
    r.append(name);
    r.append(" {\n            query_parts.push(format!(\"{} = '{}'\", ");
    r.append(literal);
    r.append(", value));\n        }\n");
    r
}

/// Writes the query operation of the type `owner` around the given checks,
/// for the table written in `table`, a string literal.
pub fn write_query_with(owner: &str, checks: &Vec<String>, table: &str, columns_only: bool) -> (r:
    String)
    ensures
        r@ == query_source_with(owner@, texts(checks@), table@, columns_only),
{
    let mut r = String::from_str("impl ");
    r.append(owner);
    r.append(
        " {\n    pub fn build_query(&self) -> String {\n        let mut query_parts: Vec<String> = Vec::new();\n",
    );
    r.append(concatenate(checks).as_str());
    r.append(
        "        if query_parts.is_empty() {\n            return format!(\"SELECT * FROM {}\", ",
    );
    r.append(table);
    r.append(
        ");\n        }\n        let columns: String = query_parts\n            .iter()\n            .map(|item| item.split('=').next().unwrap_or(\"\").trim())\n            .collect::<Vec<&str>>()\n            .join(\", \");\n        let where_clause = query_parts.join(\" AND \");\n        if ",
    );
    if columns_only {
        r.append("true");
    } else {
        r.append("false");
    }
    r.append(
        " {\n            return format!(\"SELECT {:?} FROM {} WHERE {}\", columns.replace(\"\\\"\", \"\"), ",
    );
    r.append(table);
    r.append(", where_clause);\n        }\n        format!(\"SELECT * FROM {} WHERE {}\", ");
    r.append(table);
    r.append(", where_clause)\n    }\n}\n");
    r
}

/// Writes the query operation of the type `owner`.
pub fn write_query(owner: &str, names: &Vec<String>, config: &QueryConfig) -> (r: String)
    ensures
        r@ == query_source(owner@, texts(names@), config@),
{
    let mut checks: Vec<String> = Vec::new();
    let mut i: usize = 0;
    while i < names.len()
        invariant
            i <= names.len(),
            checks.len() == i,
            forall|k: int| 0 <= k < i ==> (#[trigger] checks@[k])@ == check_source(names@[k]@),
        decreases names.len() - i,
    {
        let literal = debug_quote(names[i].as_str());
        checks.push(write_check(names[i].as_str(), literal.as_str()));
        i = i + 1;
    }
    assert(texts(checks@) =~= texts(names@).map_values(|name: Seq<char>| check_source(name)));
    let table = debug_quote(config.table.as_str());
    write_query_with(owner, &checks, table.as_str(), config.columns_only)
}

/// Writes one nested model.
pub fn write_model(model: &NestedModel, set: &DirectiveSet) -> (r: String)
    ensures
        r@ == model_source(model@, set@),
{
    let mut fields: Vec<String> = Vec::new();
    let mut i: usize = 0;
    while i < model.fields.len()
        invariant
            i <= model.fields.len(),
            fields.len() == i,
            forall|k: int|
                0 <= k < i ==> (#[trigger] fields@[k])@ == model_field_source(model.fields@[k]@),
        decreases model.fields.len() - i,
    {
        let mut field = String::from_str("    pub ");
        field.append(model.fields[i].as_str());
        field.append(": Option<String>,\n");
        fields.push(field);
        i = i + 1;
    }
    assert(texts(fields@) =~= model@.fields.map_values(|name: Seq<char>| model_field_source(name)));
    let mut r = String::new();
    if model.extra_capabilities.len() > 0 {
        r.append("#[derive(");
        r.append(join(&model.extra_capabilities, ", ").as_str());
        r.append(")]\n");
    }
    assert(r@ =~= derive_source(model@.extra_capabilities));
    r.append("pub struct ");
    r.append(model.name.as_str());
    r.append(" {\n");
    r.append(concatenate(&fields).as_str());
    r.append("}\n");
    let config = QueryConfig::for_model(model, set);
    r.append(write_query(model.name.as_str(), &model.fields, &config).as_str());
    r
}

/// The query generator without directives: the query operation over the
/// placeholder table.
pub fn emit_placeholder_query(schema: &Schema) -> (a: Artifact)
    ensures
        a@ == (ArtifactView {
            generator: GeneratorKind::Query,
            text: query_source(
                schema@.name,
                field_names(schema@.fields),
                QueryConfigView { table: placeholder_table(), columns_only: false },
            ),
        }),
{
    let names = names_of(schema);
    let config = QueryConfig::placeholder();
    Artifact {
        generator: GeneratorKind::Query,
        text: write_query(schema.name.as_str(), &names, &config),
    }
}

/// The query generator under a directive set: the query operation of the
/// host type, configured by the directives, and every nested model.
pub fn emit_directed_query(schema: &Schema, set: &DirectiveSet) -> (a: Artifact)
    ensures
        a@ == (ArtifactView {
            generator: GeneratorKind::Query,
            text: directed_query_source(schema@, set@),
        }),
{
    let names = names_of(schema);
    let config = QueryConfig::from_directives(set);
    let mut text = write_query(schema.name.as_str(), &names, &config);
    let mut models: Vec<String> = Vec::new();
    let mut i: usize = 0;
    while i < set.nested_models.len()
        invariant
            i <= set.nested_models.len(),
            models.len() == i,
            forall|k: int|
                0 <= k < i ==> (#[trigger] models@[k])@ == model_source(
                    set.nested_models@[k]@,
                    set@,
                ),
        decreases set.nested_models.len() - i,
    {
        models.push(write_model(&set.nested_models[i], set));
        i = i + 1;
    }
    assert(texts(models@) =~= set@.nested_models.map_values(
        |model: NestedModelView| model_source(model, set@),
    ));
    text.append(concatenate(&models).as_str());
    Artifact { generator: GeneratorKind::Query, text }
}

/// The names of the fields of a schema, in order.
pub fn names_of(schema: &Schema) -> (names: Vec<String>)
    ensures
        texts(names@) == field_names(schema@.fields),
{
    let mut names: Vec<String> = Vec::new();
    let mut i: usize = 0;
    while i < schema.fields.len()
        invariant
            i <= schema.fields.len(),
            names.len() == i,
            forall|k: int| 0 <= k < i ==> (#[trigger] names@[k])@ == schema.fields@[k]@.name,
        decreases schema.fields.len() - i,
    {
        names.push(schema.fields[i].name.clone());
        i = i + 1;
    }
    assert(texts(names@) =~= field_names(schema@.fields));
    names
}

} // verus!
