//! The boundary to `syn`, `quote` and `proc-macro2`: a type declaration is
//! parsed by `syn` and read, item by item, into plain values. Nothing in
//! this file is proved of the outside crates; each contract states what the
//! crate's source shows.

use vstd::prelude::*;

verus! {

/// A parsed type declaration of `syn`.
#[verifier::external_type_specification]
#[verifier::external_body]
pub struct ExDeriveInput(syn::DeriveInput);

/// A parse error of `syn`.
#[verifier::external_type_specification]
#[verifier::external_body]
pub struct ExSynError(syn::Error);

/// The kind of container that a declaration declares.
#[derive(Debug, Clone, Copy, PartialEq, Eq, Structural)]
pub enum ContainerShape {
    /// A struct with named fields, possibly none: `struct S { a: T }`.
    NamedStruct,
    /// A struct with positional fields: `struct S(T);`.
    TupleStruct,
    /// A struct without a field list: `struct S;`.
    UnitStruct,
    /// An enum.
    Enum,
    /// A union.
    Union,
}

/// One attribute as the directive parser reads it.
pub struct AttributeView {
    /// The attribute's name, where its path is a single identifier.
    pub name: Option<Seq<char>>,
    /// The tokens of the attribute's argument, where the attribute has a
    /// delimited argument list that is one expression.
    pub expression: Option<Seq<char>>,
    /// The tokens inside the attribute's delimiters, where it has a delimited
    /// argument list.
    pub arguments: Option<Seq<char>>,
}

/// One named field as the schema extractor reads it.
pub struct RawFieldView {
    /// The field's identifier.
    pub name: Seq<char>,
    /// The tokens of the field's type.
    pub ty: Seq<char>,
    /// For each attribute of the field, in order, its name where its path is
    /// a single identifier.
    pub markers: Seq<Option<Seq<char>>>,
}

/// What the engine reads of a type declaration.
pub struct DeclarationView {
    /// The declared type's identifier.
    pub name: Seq<char>,
    /// The kind of container.
    pub shape: ContainerShape,
    /// The named fields in declaration order; empty for every shape but
    /// [`ContainerShape::NamedStruct`].
    pub fields: Seq<RawFieldView>,
    /// The attributes on the type, in order.
    pub attributes: Seq<AttributeView>,
}

/// What a declaration parsed by `syn` holds.
pub uninterp spec fn syntax_of(input: syn::DeriveInput) -> DeclarationView;

/// The first message of a `syn` error.
pub uninterp spec fn message_of(error: syn::Error) -> Seq<char>;

/// What `syn::parse_str::<syn::DeriveInput>` makes of a text: the content of
/// the declaration, or the message of the error.
pub uninterp spec fn parsed_declaration(text: Seq<char>) -> Result<DeclarationView, Seq<char>>;

/// What `syn` reads in the source text of one string literal: the text that
/// the literal stands for, or nothing where the text is not one string
/// literal.
pub uninterp spec fn literal_value(token: Seq<char>) -> Option<Seq<char>>;

/// Calls `syn::parse_str::<syn::DeriveInput>`, which lexes the text and
/// parses it as one struct, enum or union declaration. Before that it calls
/// `proc_macro2::fallback::force`, so that the tokens are those of
/// `proc-macro2` itself also where the call is made inside a macro
/// expansion. The outcome then depends on the text alone; the contract names
/// it and states nothing else.
#[verifier::external_body]
pub(crate) fn parse_derive_input(text: &str) -> (r: Result<syn::DeriveInput, syn::Error>)
    ensures
        match r {
            Ok(input) => parsed_declaration(text@) == Ok::<DeclarationView, Seq<char>>(
                syntax_of(input),
            ),
            Err(error) => parsed_declaration(text@) == Err::<DeclarationView, Seq<char>>(
                message_of(error),
            ),
        },
{
    proc_macro2::fallback::force();
    syn::parse_str::<syn::DeriveInput>(text)
}

/// Calls `to_string` on a `syn::Error`, whose `Display` writes the error's
/// first message.
#[verifier::external_body]
pub(crate) fn error_message(error: &syn::Error) -> (r: String)
    ensures
        r@ == message_of(*error),
{
    error.to_string()
}

/// Reads `DeriveInput::ident` and prints it.
#[verifier::external_body]
pub(crate) fn container_name(input: &syn::DeriveInput) -> (r: String)
    ensures
        r@ == syntax_of(*input).name,
{
    input.ident.to_string()
}

/// Tells the variants of `syn::Data` and, for a struct, of `syn::Fields`
/// apart.
#[verifier::external_body]
pub(crate) fn container_shape(input: &syn::DeriveInput) -> (r: ContainerShape)
    ensures
        r == syntax_of(*input).shape,
{
    match &input.data {
        syn::Data::Struct(s) => match &s.fields {
            syn::Fields::Named(_) => ContainerShape::NamedStruct,
            syn::Fields::Unnamed(_) => ContainerShape::TupleStruct,
            syn::Fields::Unit => ContainerShape::UnitStruct,
        },
        syn::Data::Enum(_) => ContainerShape::Enum,
        syn::Data::Union(_) => ContainerShape::Union,
    }
}

/// The length of `FieldsNamed::named` for a struct with named fields, and
/// zero for every other shape.
#[verifier::external_body]
pub(crate) fn field_count(input: &syn::DeriveInput) -> (r: usize)
    ensures
        r == syntax_of(*input).fields.len(),
{
    match &input.data {
        syn::Data::Struct(s) => match &s.fields {
            syn::Fields::Named(f) => f.named.len(),
            _ => 0,
        },
        _ => 0,
    }
}

/// Prints `Field::ident` of the named field at position `i`.
#[verifier::external_body]
pub(crate) fn field_name(input: &syn::DeriveInput, i: usize) -> (r: String)
    requires
        i < syntax_of(*input).fields.len(),
    ensures
        r@ == syntax_of(*input).fields[i as int].name,
{
    match &input.data {
        syn::Data::Struct(s) => s.fields.iter().nth(i).unwrap().ident.as_ref().unwrap().to_string(),
        _ => String::new(),
    }
}

/// Prints the tokens of `Field::ty` of the named field at position `i`, as
/// `quote::ToTokens::to_token_stream` gives them.
#[verifier::external_body]
pub(crate) fn field_type(input: &syn::DeriveInput, i: usize) -> (r: String)
    requires
        i < syntax_of(*input).fields.len(),
    ensures
        r@ == syntax_of(*input).fields[i as int].ty,
{
    match &input.data {
        syn::Data::Struct(s) => quote::ToTokens::to_token_stream(
            &s.fields.iter().nth(i).unwrap().ty,
        ).to_string(),
        _ => String::new(),
    }
}

/// The length of `Field::attrs` of the named field at position `i`.
#[verifier::external_body]
pub(crate) fn field_marker_count(input: &syn::DeriveInput, i: usize) -> (r: usize)
    requires
        i < syntax_of(*input).fields.len(),
    ensures
        r == syntax_of(*input).fields[i as int].markers.len(),
{
    match &input.data {
        syn::Data::Struct(s) => s.fields.iter().nth(i).unwrap().attrs.len(),
        _ => 0,
    }
}

/// Prints what `Path::get_ident` gives for the path of attribute `j` of the
/// named field at position `i`: the identifier of a path that is a single
/// identifier.
#[verifier::external_body]
pub(crate) fn field_marker(input: &syn::DeriveInput, i: usize, j: usize) -> (r: Option<String>)
    requires
        i < syntax_of(*input).fields.len(),
        j < syntax_of(*input).fields[i as int].markers.len(),
    ensures
        optional_text(r) == syntax_of(*input).fields[i as int].markers[j as int],
{
    match &input.data {
        syn::Data::Struct(s) => match s.fields.iter().nth(i).unwrap().attrs[j].path().get_ident() {
            Some(name) => Some(name.to_string()),
            None => None,
        },
        _ => None,
    }
}

/// The length of `DeriveInput::attrs`.
#[verifier::external_body]
pub(crate) fn attribute_count(input: &syn::DeriveInput) -> (r: usize)
    ensures
        r == syntax_of(*input).attributes.len(),
{
    input.attrs.len()
}

/// Prints what `Path::get_ident` gives for the path of attribute `j` of the
/// type.
#[verifier::external_body]
pub(crate) fn attribute_name(input: &syn::DeriveInput, j: usize) -> (r: Option<String>)
    requires
        j < syntax_of(*input).attributes.len(),
    ensures
        optional_text(r) == syntax_of(*input).attributes[j as int].name,
{
    match input.attrs[j].path().get_ident() {
        Some(name) => Some(name.to_string()),
        None => None,
    }
}

/// Parses the arguments of attribute `j` of the type with
/// `Attribute::parse_args::<syn::Expr>` and prints the tokens of the
/// expression; `None` where the attribute has no delimited argument list or
/// the list is not one expression.
#[verifier::external_body]
pub(crate) fn attribute_expression(input: &syn::DeriveInput, j: usize) -> (r: Option<String>)
    requires
        j < syntax_of(*input).attributes.len(),
    ensures
        optional_text(r) == syntax_of(*input).attributes[j as int].expression,
{
    match input.attrs[j].parse_args::<syn::Expr>() {
        Ok(expression) => Some(quote::ToTokens::into_token_stream(expression).to_string()),
        Err(_) => None,
    }
}

/// Prints `MetaList::tokens` of attribute `j` of the type; `None` where the
/// attribute's meta is not a `Meta::List`.
#[verifier::external_body]
pub(crate) fn attribute_arguments(input: &syn::DeriveInput, j: usize) -> (r: Option<String>)
    requires
        j < syntax_of(*input).attributes.len(),
    ensures
        optional_text(r) == syntax_of(*input).attributes[j as int].arguments,
{
    match &input.attrs[j].meta {
        syn::Meta::List(list) => Some(list.tokens.to_string()),
        _ => None,
    }
}

/// Parses `token` with `syn::parse_str::<syn::LitStr>` and calls
/// `LitStr::value`, which resolves the escapes of the literal. Before that
/// it calls `proc_macro2::fallback::force`, as [`parse_derive_input`] does.
#[verifier::external_body]
pub(crate) fn literal_text(token: &str) -> (r: Option<String>)
    ensures
        optional_text(r) == literal_value(token@),
{
    proc_macro2::fallback::force();
    match syn::parse_str::<syn::LitStr>(token) {
        Ok(literal) => Some(literal.value()),
        Err(_) => None,
    }
}

/// The characters of an optional string.
pub open spec fn optional_text(o: Option<String>) -> Option<Seq<char>> {
    match o {
        Some(s) => Some(s@),
        None => None,
    }
}

} // verus!
