//! A schema-driven code generation engine. From a type declaration and the
//! directives attached to it, the engine emits a constructor factory, a
//! fluent builder, accessors, and a query operation ([`generate`]). What the
//! emitted operations do when they are used is stated, and can be run, as
//! operations on records ([`runtime`]).

use vstd::prelude::*;

pub mod declaration;
pub mod directive;
pub mod generate;
pub mod grammar;
pub mod runtime;
pub mod schema;
pub mod syntax;
pub mod text;
pub mod token;
pub mod value;

use crate::declaration::{parse_declaration, schema_of, Declaration};
use crate::directive::{directives_of, parse_directives, DirectiveError, NestedModelView};
use crate::generate::accessor::{accessor_source, emit_accessors};
use crate::generate::artifact::{artifact_texts, assemble, Artifact, GeneratorKind};
use crate::generate::builder::{builder_source, emit_builder};
use crate::generate::factory::{emit_factory, factory_source};
use crate::generate::query::{
    directed_query_source, emit_directed_query, emit_placeholder_query, model_source,
    query_source,
};
use crate::runtime::query::{placeholder_table, QueryConfigView};
use crate::schema::field_names;
use crate::syntax::{parsed_declaration, ContainerShape, DeclarationView};
use crate::text::concatenated;

verus! {

/// Why nothing was generated for a declaration.
#[derive(Debug, PartialEq, Eq)]
pub enum GenerationError {
    /// The text is not a type declaration; the parser's message.
    Syntax(String),
    /// The query generator was asked for a container without named fields.
    NotNamedFields,
    /// A directive is malformed.
    Directive(DirectiveError),
}

/// The mathematical content of a [`GenerationError`].
pub enum GenerationErrorView {
    Syntax(Seq<char>),
    NotNamedFields,
    Directive(DirectiveError),
}

impl View for GenerationError {
    type V = GenerationErrorView;

    open spec fn view(&self) -> GenerationErrorView {
        match self {
            GenerationError::Syntax(m) => GenerationErrorView::Syntax(m@),
            GenerationError::NotNamedFields => GenerationErrorView::NotNamedFields,
            GenerationError::Directive(e) => GenerationErrorView::Directive(*e),
        }
    }
}

impl GenerationErrorView {
    /// The error's text.
    pub open spec fn message_of(self) -> Seq<char> {
        match self {
            GenerationErrorView::Syntax(m) => m,
            GenerationErrorView::NotNamedFields =>
                "QueryBuilder can only be derived for structs with named fields"@,
            GenerationErrorView::Directive(e) => e.message_of(),
        }
    }
}

impl GenerationError {
    /// The error's text.
    pub fn message(&self) -> (r: String)
        ensures
            r@ == self@.message_of(),
    {
        match self {
            GenerationError::Syntax(m) => m.clone(),
            GenerationError::NotNamedFields => String::from_str(
                "QueryBuilder can only be derived for structs with named fields",
            ),
            GenerationError::Directive(e) => e.message(),
        }
    }
}

/// What the factory generator emits for a declaration: the factory of its
/// schema, and nothing for a container without named fields.
pub open spec fn factory_output(declaration: DeclarationView) -> Seq<char> {
    if declaration.shape == ContainerShape::NamedStruct {
        factory_source(schema_of(declaration))
    } else {
        Seq::empty()
    }
}

/// What the builder generator emits for a declaration: the builder of its
/// schema, and nothing for a container without named fields.
pub open spec fn builder_output(declaration: DeclarationView) -> Seq<char> {
    if declaration.shape == ContainerShape::NamedStruct {
        builder_source(schema_of(declaration))
    } else {
        Seq::empty()
    }
}

/// What the accessor generator emits for a declaration: the accessors of its
/// schema, and nothing for a container without named fields.
pub open spec fn accessor_output(declaration: DeclarationView) -> Seq<char> {
    if declaration.shape == ContainerShape::NamedStruct {
        accessor_source(schema_of(declaration))
    } else {
        Seq::empty()
    }
}

/// What the query generator emits where it pays no regard to directives:
/// the query operation over the placeholder table. A container without
/// named fields is an error.
pub open spec fn placeholder_query_output(declaration: DeclarationView) -> Result<
    Seq<char>,
    GenerationErrorView,
> {
    if declaration.shape == ContainerShape::NamedStruct {
        Ok(
            query_source(
                declaration.name,
                field_names(schema_of(declaration).fields),
                QueryConfigView { table: placeholder_table(), columns_only: false },
            ),
        )
    } else {
        Err(GenerationErrorView::NotNamedFields)
    }
}

/// What the query generator emits under the directives of the declaration.
/// A malformed directive is an error, and so is, after that, a container
/// without named fields.
pub open spec fn directed_query_output(declaration: DeclarationView) -> Result<
    Seq<char>,
    GenerationErrorView,
> {
    match directives_of(declaration.attributes) {
        Ok(set) => if declaration.shape == ContainerShape::NamedStruct {
            Ok(directed_query_source(schema_of(declaration), set))
        } else {
            Err(GenerationErrorView::NotNamedFields)
        },
        Err(e) => Err(GenerationErrorView::Directive(e)),
    }
}

/// What one generator emits for a declaration.
pub open spec fn output_of(declaration: DeclarationView, generator: GeneratorKind) -> Result<
    Seq<char>,
    GenerationErrorView,
> {
    match generator {
        GeneratorKind::Factory => Ok(factory_output(declaration)),
        GeneratorKind::Builder => Ok(builder_output(declaration)),
        GeneratorKind::Accessor => Ok(accessor_output(declaration)),
        GeneratorKind::Query => directed_query_output(declaration),
    }
}

/// What a run of the requested generators emits: their outputs in the order
/// of the request, or the first error.
pub open spec fn generated(declaration: DeclarationView, requested: Seq<GeneratorKind>) -> Result<
    Seq<char>,
    GenerationErrorView,
>
    decreases requested.len(),
{
    if requested.len() == 0 {
        Ok(Seq::empty())
    } else {
        match generated(declaration, requested.drop_last()) {
            Ok(text) => match output_of(declaration, requested.last()) {
                Ok(more) => Ok(text + more),
                Err(e) => Err(e),
            },
            Err(e) => Err(e),
        }
    }
}

/// What a derive entry point returns for a text: the output for the parsed
/// declaration, or the parser's message.
pub open spec fn derived(
    input: Seq<char>,
    output: spec_fn(DeclarationView) -> Result<Seq<char>, GenerationErrorView>,
) -> Result<Seq<char>, GenerationErrorView> {
    match parsed_declaration(input) {
        Ok(declaration) => output(declaration),
        Err(message) => Err(GenerationErrorView::Syntax(message)),
    }
}

/// Whether `r` is the executable form of `expected`.
pub open spec fn is_result(
    r: Result<String, GenerationError>,
    expected: Result<Seq<char>, GenerationErrorView>,
) -> bool {
    match r {
        Ok(text) => expected == Ok::<Seq<char>, GenerationErrorView>(text@),
        Err(e) => expected == Err::<Seq<char>, GenerationErrorView>(e@),
    }
}

/// Runs one generator on a declaration.
pub fn run_generator(declaration: &Declaration, generator: GeneratorKind) -> (r: Result<
    Artifact,
    GenerationError,
>)
    ensures
        match r {
            Ok(artifact) => artifact.generator == generator && output_of(declaration@, generator)
                == Ok::<Seq<char>, GenerationErrorView>(artifact.text@),
            Err(e) => output_of(declaration@, generator) == Err::<Seq<char>, GenerationErrorView>(
                e@,
            ),
        },
{
    match generator {
        GeneratorKind::Query => {
            let set = match parse_directives(&declaration.attributes) {
                Ok(set) => set,
                Err(e) => {
                    return Err(GenerationError::Directive(e));
                },
            };
            if !declaration.has_named_fields() {
                return Err(GenerationError::NotNamedFields);
            }
            Ok(emit_directed_query(&declaration.schema(), &set))
        },
        _ => {
            if !declaration.has_named_fields() {
                return Ok(Artifact { generator, text: String::new() });
            }
            let schema = declaration.schema();
            match generator {
                GeneratorKind::Factory => Ok(emit_factory(&schema)),
                GeneratorKind::Builder => Ok(emit_builder(&schema)),
                _ => Ok(emit_accessors(&schema)),
            }
        },
    }
}

/// Runs the requested generators on a declaration, in the order of the
/// request, and assembles what they emit. The first error stops the run
/// before anything is emitted.
pub fn generate(declaration: &Declaration, requested: &Vec<GeneratorKind>) -> (r: Result<
    String,
    GenerationError,
>)
    ensures
        is_result(r, generated(declaration@, requested@)),
{
    let mut artifacts: Vec<Artifact> = Vec::new();
    let mut i: usize = 0;
    while i < requested.len()
        invariant
            i <= requested.len(),
            generated(declaration@, requested@.take(i as int)) == Ok::<
                Seq<char>,
                GenerationErrorView,
            >(concatenated(artifact_texts(artifacts@))),
        decreases requested.len() - i,
    {
        assert(requested@.take(i + 1).drop_last() == requested@.take(i as int));
        assert(requested@.take(i + 1).last() == requested@[i as int]);
        match run_generator(declaration, requested[i]) {
            Ok(artifact) => {
                let ghost before = artifact_texts(artifacts@);
                artifacts.push(artifact);
                assert(artifact_texts(artifacts@).drop_last() =~= before);
            },
            Err(e) => {
                proof {
                    lemma_generation_error_stays(declaration@, requested@, i + 1);
                }
                return Err(e);
            },
        }
        i = i + 1;
    }
    assert(requested@.take(requested.len() as int) == requested@);
    Ok(assemble(artifacts))
}

/// Once a generator failed, the generators requested behind it change
/// nothing.
pub proof fn lemma_generation_error_stays(
    declaration: DeclarationView,
    requested: Seq<GeneratorKind>,
    n: int,
)
    requires
        0 <= n <= requested.len(),
        generated(declaration, requested.take(n)) is Err,
    ensures
        generated(declaration, requested) == generated(declaration, requested.take(n)),
    decreases requested.len() - n,
{
    if n < requested.len() {
        assert(requested.take(n + 1).drop_last() == requested.take(n));
        lemma_generation_error_stays(declaration, requested, n + 1);
    } else {
        assert(requested.take(n) == requested);
    }
}

/// A run of one generator emits what that generator emits.
pub proof fn lemma_generated_alone(declaration: DeclarationView, generator: GeneratorKind)
    ensures
        generated(declaration, seq![generator]) == output_of(declaration, generator),
{
    let requested = seq![generator];
    assert(requested.drop_last() =~= Seq::<GeneratorKind>::empty());
    assert(generated(declaration, requested.drop_last()) == Ok::<Seq<char>, GenerationErrorView>(
        Seq::empty(),
    ));
    match output_of(declaration, generator) {
        Ok(more) => {
            assert(Seq::<char>::empty() + more =~= more);
        },
        Err(_) => {},
    }
}

/// Under a directive set without a table, a column mode or a nested model,
/// the query generator emits what it emits without regard to directives.
pub proof fn lemma_query_without_directives(declaration: DeclarationView)
    requires
        directives_of(declaration.attributes) matches Ok(set) && set.table_name is None
            && !set.use_columns_only && set.nested_models.len() == 0,
    ensures
        directed_query_output(declaration) == placeholder_query_output(declaration),
{
    let set = directives_of(declaration.attributes)->Ok_0;
    let schema = schema_of(declaration);
    assert(set.nested_models.map_values(|model: NestedModelView| model_source(model, set))
        =~= Seq::<Seq<char>>::empty());
    assert(directed_query_source(schema, set) =~= query_source(
        schema.name,
        field_names(schema.fields),
        QueryConfigView { table: placeholder_table(), columns_only: false },
    ));
}

fn derive_with(input: &str, generator: GeneratorKind) -> (r: Result<String, GenerationError>)
    ensures
        is_result(
            r,
            derived(input@, |declaration: DeclarationView| output_of(declaration, generator)),
        ),
{
    match parse_declaration(input) {
        Ok(declaration) => {
            let mut requested: Vec<GeneratorKind> = Vec::new();
            requested.push(generator);
            proof {
                assert(requested@ =~= seq![generator]);
                lemma_generated_alone(declaration@, generator);
            }
            generate(&declaration, &requested)
        },
        Err(message) => Err(GenerationError::Syntax(message)),
    }
}

/// Generates the constructor factory for the type declared in `input`: the
/// operation `new_<type in lower case>`, whose parameters are the fields
/// without the `factory` marker. A declaration without named fields gives
/// an empty text.
pub fn derive_factory_pattern(input: &str) -> (r: Result<String, GenerationError>)
    ensures
        is_result(
            r,
            derived(
                input@,
                |declaration: DeclarationView|
                    Ok::<Seq<char>, GenerationErrorView>(factory_output(declaration)),
            ),
        ),
{
    derive_with(input, GeneratorKind::Factory)
}

/// Generates the fluent builder for the type declared in `input`: the
/// builder type, a chainable setter for each field, `build`, and the entry
/// point `builder`. A declaration without named fields gives an empty text.
pub fn derive_builder_pattern(input: &str) -> (r: Result<String, GenerationError>)
    ensures
        is_result(
            r,
            derived(
                input@,
                |declaration: DeclarationView|
                    Ok::<Seq<char>, GenerationErrorView>(builder_output(declaration)),
            ),
        ),
{
    derive_with(input, GeneratorKind::Builder)
}

/// Generates the accessors for the type declared in `input`: a read and a
/// write accessor for each field and the constructor `new`. A declaration
/// without named fields gives an empty text.
pub fn derive_getters_setters(input: &str) -> (r: Result<String, GenerationError>)
    ensures
        is_result(
            r,
            derived(
                input@,
                |declaration: DeclarationView|
                    Ok::<Seq<char>, GenerationErrorView>(accessor_output(declaration)),
            ),
        ),
{
    derive_with(input, GeneratorKind::Accessor)
}

/// Generates the query operation for the type declared in `input` without
/// regard to directives: `build_query` over the placeholder table. Fails for
/// a declaration without named fields.
pub fn sql_query_buider2(input: &str) -> (r: Result<String, GenerationError>)
    ensures
        is_result(
            r,
            derived(input@, |declaration: DeclarationView| placeholder_query_output(declaration)),
        ),
{
    match parse_declaration(input) {
        Ok(declaration) => {
            if !declaration.has_named_fields() {
                return Err(GenerationError::NotNamedFields);
            }
            let mut artifacts: Vec<Artifact> = Vec::new();
            artifacts.push(emit_placeholder_query(&declaration.schema()));
            proof {
                let texts = artifact_texts(artifacts@);
                assert(texts.drop_last() =~= Seq::<Seq<char>>::empty());
                assert(concatenated(texts.drop_last()) =~= Seq::<char>::empty());
                assert(concatenated(texts) =~= texts.last());
            }
            Ok(assemble(artifacts))
        },
        Err(message) => Err(GenerationError::Syntax(message)),
    }
}

/// Generates the query operation for the type declared in `input` under its
/// directives: `table_name` names the table, `use_attrs_with_query` makes a
/// statement with predicates list the matched columns, and each model of
/// `custom_model` adds an auxiliary type with a query operation of its own.
/// Fails for a malformed directive and for a declaration without named
/// fields.
pub fn sql_query_buider(input: &str) -> (r: Result<String, GenerationError>)
    ensures
        is_result(
            r,
            derived(input@, |declaration: DeclarationView| directed_query_output(declaration)),
        ),
{
    derive_with(input, GeneratorKind::Query)
}

} // verus!
