//! A type declaration as plain values, and the schema extractor.

use crate::schema::{field_views, Field, FieldView, Schema, SchemaView};
use crate::syntax::{
    attribute_arguments, attribute_count, attribute_expression, attribute_name, container_name,
    container_shape, error_message, field_count, field_marker, field_marker_count, field_name,
    field_type, optional_text, parse_derive_input, parsed_declaration, syntax_of, AttributeView,
    ContainerShape, DeclarationView, RawFieldView,
};
use crate::text::same_text;
use vstd::prelude::*;

verus! {

/// One attribute of a declaration.
#[derive(Debug, PartialEq, Eq)]
pub struct RawAttribute {
    /// The attribute's name, where its path is a single identifier.
    pub name: Option<String>,
    /// The attribute's argument, where it is one expression.
    pub expression: Option<String>,
    /// What stands between the attribute's delimiters, where it has any.
    pub arguments: Option<String>,
}

impl View for RawAttribute {
    type V = AttributeView;

    open spec fn view(&self) -> AttributeView {
        AttributeView {
            name: optional_text(self.name),
            expression: optional_text(self.expression),
            arguments: optional_text(self.arguments),
        }
    }
}

/// One named field of a declaration.
#[derive(Debug, PartialEq, Eq)]
pub struct RawField {
    /// The field's identifier.
    pub name: String,
    /// The field's type, as source text.
    pub ty: String,
    /// The names of the field's attributes, in order.
    pub markers: Vec<Option<String>>,
}

/// The names of a list of attributes, in order.
pub open spec fn marker_views(markers: Seq<Option<String>>) -> Seq<Option<Seq<char>>> {
    markers.map_values(|m: Option<String>| optional_text(m))
}

impl View for RawField {
    type V = RawFieldView;

    open spec fn view(&self) -> RawFieldView {
        RawFieldView { name: self.name@, ty: self.ty@, markers: marker_views(self.markers@) }
    }
}

/// A type declaration: what the engine reads of the annotated type.
#[derive(Debug, PartialEq, Eq)]
pub struct Declaration {
    /// The declared type's identifier.
    pub name: String,
    /// The kind of container.
    pub shape: ContainerShape,
    /// The named fields, in declaration order.
    pub fields: Vec<RawField>,
    /// The attributes on the type, in order.
    pub attributes: Vec<RawAttribute>,
}

/// The views of a list of raw fields, in order.
pub open spec fn raw_field_views(fields: Seq<RawField>) -> Seq<RawFieldView> {
    fields.map_values(|f: RawField| f@)
}

/// The views of a list of attributes, in order.
pub open spec fn attribute_views(attributes: Seq<RawAttribute>) -> Seq<AttributeView> {
    attributes.map_values(|a: RawAttribute| a@)
}

impl View for Declaration {
    type V = DeclarationView;

    open spec fn view(&self) -> DeclarationView {
        DeclarationView {
            name: self.name@,
            shape: self.shape,
            fields: raw_field_views(self.fields@),
            attributes: attribute_views(self.attributes@),
        }
    }
}

/// The name of the field-level marker that keeps a field out of the
/// factory's parameters.
pub open spec fn factory_marker() -> Seq<char> {
    "factory"@
}

/// Whether one of the attributes of a field is the factory marker.
pub open spec fn has_factory_marker(markers: Seq<Option<Seq<char>>>) -> bool {
    exists|j: int| 0 <= j < markers.len() && #[trigger] markers[j] == Some(factory_marker())
}

/// The schema field of a raw field.
pub open spec fn field_of(raw: RawFieldView) -> FieldView {
    FieldView { name: raw.name, ty: raw.ty, factory_default: has_factory_marker(raw.markers) }
}

/// The schema of a declaration: its name, and its named fields in order. A
/// container of any shape but a struct with named fields has no fields.
pub open spec fn schema_of(declaration: DeclarationView) -> SchemaView {
    SchemaView {
        name: declaration.name,
        fields: if declaration.shape == ContainerShape::NamedStruct {
            declaration.fields.map_values(|raw: RawFieldView| field_of(raw))
        } else {
            Seq::empty()
        },
    }
}

fn read_markers(input: &syn::DeriveInput, i: usize) -> (markers: Vec<Option<String>>)
    requires
        i < syntax_of(*input).fields.len(),
    ensures
        marker_views(markers@) == syntax_of(*input).fields[i as int].markers,
{
    let n = field_marker_count(input, i);
    let mut markers: Vec<Option<String>> = Vec::new();
    let mut j: usize = 0;
    while j < n
        invariant
            i < syntax_of(*input).fields.len(),
            n == syntax_of(*input).fields[i as int].markers.len(),
            j <= n,
            markers.len() == j,
            forall|k: int|
                0 <= k < j ==> optional_text(#[trigger] markers@[k]) == syntax_of(
                    *input,
                ).fields[i as int].markers[k],
        decreases n - j,
    {
        markers.push(field_marker(input, i, j));
        j = j + 1;
    }
    assert(marker_views(markers@) =~= syntax_of(*input).fields[i as int].markers);
    markers
}

fn read_fields(input: &syn::DeriveInput) -> (fields: Vec<RawField>)
    ensures
        raw_field_views(fields@) == syntax_of(*input).fields,
{
    let n = field_count(input);
    let mut fields: Vec<RawField> = Vec::new();
    let mut i: usize = 0;
    while i < n
        invariant
            n == syntax_of(*input).fields.len(),
            i <= n,
            fields.len() == i,
            forall|k: int| 0 <= k < i ==> (#[trigger] fields@[k])@ == syntax_of(*input).fields[k],
        decreases n - i,
    {
        let field = RawField {
            name: field_name(input, i),
            ty: field_type(input, i),
            markers: read_markers(input, i),
        };
        fields.push(field);
        i = i + 1;
    }
    assert(raw_field_views(fields@) =~= syntax_of(*input).fields);
    fields
}

fn read_attributes(input: &syn::DeriveInput) -> (attributes: Vec<RawAttribute>)
    ensures
        attribute_views(attributes@) == syntax_of(*input).attributes,
{
    let n = attribute_count(input);
    let mut attributes: Vec<RawAttribute> = Vec::new();
    let mut j: usize = 0;
    while j < n
        invariant
            n == syntax_of(*input).attributes.len(),
            j <= n,
            attributes.len() == j,
            forall|k: int|
                0 <= k < j ==> (#[trigger] attributes@[k])@ == syntax_of(*input).attributes[k],
        decreases n - j,
    {
        let attribute = RawAttribute {
            name: attribute_name(input, j),
            expression: attribute_expression(input, j),
            arguments: attribute_arguments(input, j),
        };
        attributes.push(attribute);
        j = j + 1;
    }
    assert(attribute_views(attributes@) =~= syntax_of(*input).attributes);
    attributes
}

/// Reads a parsed declaration into plain values.
pub(crate) fn read_declaration(input: &syn::DeriveInput) -> (declaration: Declaration)
    ensures
        declaration@ == syntax_of(*input),
{
    Declaration {
        name: container_name(input),
        shape: container_shape(input),
        fields: read_fields(input),
        attributes: read_attributes(input),
    }
}

/// Parses the source text of one type declaration. Fails with the parser's
/// message where the text is not one struct, enum or union declaration.
pub fn parse_declaration(text: &str) -> (r: Result<Declaration, String>)
    ensures
        match r {
            Ok(declaration) => parsed_declaration(text@) == Ok::<DeclarationView, Seq<char>>(
                declaration@,
            ),
            Err(message) => parsed_declaration(text@) == Err::<DeclarationView, Seq<char>>(
                message@,
            ),
        },
{
    match parse_derive_input(text) {
        Ok(input) => Ok(read_declaration(&input)),
        Err(error) => Err(error_message(&error)),
    }
}

fn is_factory_default(markers: &Vec<Option<String>>) -> (r: bool)
    ensures
        r == has_factory_marker(marker_views(markers@)),
{
    let mut j: usize = 0;
    while j < markers.len()
        invariant
            j <= markers.len(),
            forall|k: int|
                0 <= k < j ==> #[trigger] marker_views(markers@)[k] != Some(factory_marker()),
        decreases markers.len() - j,
    {
        match &markers[j] {
            Some(name) => {
                if same_text(name.as_str(), "factory") {
                    assert(marker_views(markers@)[j as int] == Some(factory_marker()));
                    return true;
                }
            },
            None => {},
        }
        j = j + 1;
    }
    false
}

impl Declaration {
    /// The schema extractor: the declaration's name and its named fields in
    /// order, each with its type and with the factory marker where one of
    /// its attributes is `factory`. A container without named fields gives a
    /// schema without fields.
    pub fn schema(&self) -> (s: Schema)
        ensures
            s@ == schema_of(self@),
    {
        let mut fields: Vec<Field> = Vec::new();
        if self.shape == ContainerShape::NamedStruct {
            let mut i: usize = 0;
            while i < self.fields.len()
                invariant
                    i <= self.fields.len(),
                    fields.len() == i,
                    forall|k: int| 0 <= k < i ==> (#[trigger] fields@[k])@ == field_of(self.fields@[k]@),
                decreases self.fields.len() - i,
            {
                let raw = &self.fields[i];
                fields.push(
                    Field {
                        name: raw.name.clone(),
                        ty: raw.ty.clone(),
                        factory_default: is_factory_default(&raw.markers),
                    },
                );
                i = i + 1;
            }
            assert(field_views(fields@) =~= schema_of(self@).fields);
        } else {
            assert(field_views(fields@) =~= schema_of(self@).fields);
        }
        Schema { name: self.name.clone(), fields }
    }

    /// Whether the declared container is a struct with named fields.
    pub fn has_named_fields(&self) -> (r: bool)
        ensures
            r == (self@.shape == ContainerShape::NamedStruct),
    {
        self.shape == ContainerShape::NamedStruct
    }
}

} // verus!
