use custom_macros::generate::accessor::emit_accessors;
use custom_macros::generate::artifact::{assemble, Artifact, GeneratorKind};
use custom_macros::generate::builder::{emit_builder, write_take};
use custom_macros::directive::{
    read_nested_models, read_query_params, DirectiveError, DirectiveSet, NestedModel,
};
use custom_macros::generate::factory::{emit_factory, write_factory};
use custom_macros::runtime::factory::factory_name_for;
use custom_macros::generate::query::{
    emit_directed_query, emit_placeholder_query, names_of, write_check, write_model, write_query,
    write_query_with,
};
use custom_macros::runtime::query::QueryConfig;
use custom_macros::schema::{write_parameters, Field, Schema};
use custom_macros::token::Token;

fn product() -> Schema {
    Schema::new(
        "Product",
        vec![
            Field::with_factory_default("id", "u32"),
            Field::new("name", "String"),
            Field::new("price", "i64"),
        ],
    )
}

fn strings(items: &[&str]) -> Vec<String> {
    items.iter().map(|s| s.to_string()).collect()
}

#[test]
fn factory_with_a_given_operation_name() {
    assert_eq!(
        write_factory(&product(), "make"),
        "impl Product {\n    pub fn make(name: String, price: i64) -> Self {\n        Self { id: Default::default(), name, price }\n    }\n}\n"
    );
    assert_eq!(write_factory(&Schema::new("Empty", vec![]), "make"), "");
    assert_eq!(factory_name_for("product"), "new_product");
    assert_eq!(factory_name_for(""), "new_");
}

#[test]
fn factory_name_follows_the_lower_case_of_unicode() {
    assert_eq!(Schema::new("ÉCOLE", vec![]).factory_name(), "new_école");
    assert_eq!(Schema::new("already_lower", vec![]).factory_name(), "new_already_lower");
}

#[test]
fn the_factory_artifact() {
    let artifact = emit_factory(&product());
    assert_eq!(artifact.generator, GeneratorKind::Factory);
    assert_eq!(artifact.text, write_factory(&product(), "new_product"));
}

#[test]
fn parameters_with_their_types() {
    assert_eq!(write_parameters(&product().fields), strings(&["id: u32", "name: String", "price: i64"]));
    assert_eq!(write_parameters(&vec![]), strings(&[]));
}

#[test]
fn the_line_that_takes_a_slot() {
    let field = Field::new("email", "String");
    assert_eq!(
        write_take(&field, "\"email is not set\""),
        "            email: self.email.take().ok_or(\"email is not set\")?,\n"
    );
    assert_eq!(write_take(&field, "E"), "            email: self.email.take().ok_or(E)?,\n");
}

#[test]
fn the_builder_names_each_field_in_its_error() {
    let artifact = emit_builder(&product());
    assert_eq!(artifact.generator, GeneratorKind::Builder);
    assert!(artifact.text.contains("id: self.id.take().ok_or(\"id is not set\")?,\n"));
    assert!(artifact.text.contains("name: self.name.take().ok_or(\"name is not set\")?,\n"));
    assert!(artifact.text.contains("price: self.price.take().ok_or(\"price is not set\")?,\n"));
    assert!(artifact.text.starts_with("pub struct ProductBuilder {\n    id: std::option::Option<u32>,\n"));
}

#[test]
fn the_accessor_artifact() {
    let artifact = emit_accessors(&Schema::new("One", vec![Field::new("a", "u8")]));
    assert_eq!(artifact.generator, GeneratorKind::Accessor);
    assert_eq!(
        artifact.text,
        "impl One {\n    pub fn a(&self) -> &u8 {\n        &self.a\n    }\n    pub fn set_a(&mut self, value: u8) {\n        self.a = value;\n    }\n    pub fn new(a: u8) -> Self {\n        Self { a }\n    }\n}\n"
    );
}

#[test]
fn the_check_of_one_field() {
    assert_eq!(
        write_check("id", "\"id\""),
        "        if let Some(ref value) = self.id {\n            query_parts.push(format!(\"{} = '{}'\", \"id\", value));\n        }\n"
    );
}

#[test]
fn the_query_operation_around_given_checks() {
    let text = write_query_with("T", &strings(&["        A\n", "        B\n"]), "TABLE", true);
    assert!(text.starts_with(
        "impl T {\n    pub fn build_query(&self) -> String {\n        let mut query_parts: Vec<String> = Vec::new();\n        A\n        B\n        if query_parts.is_empty() {\n            return format!(\"SELECT * FROM {}\", TABLE);\n        }\n"
    ));
    assert!(text.contains("        if true {\n"));
    assert!(text.ends_with("        format!(\"SELECT * FROM {} WHERE {}\", TABLE, where_clause)\n    }\n}\n"));
    let text = write_query_with("T", &strings(&[]), "TABLE", false);
    assert!(text.contains("        if false {\n"));
}

#[test]
fn the_query_operation_quotes_the_table_and_the_names() {
    let text = write_query("T", &strings(&["a"]), &QueryConfig::new("my \"table\"", false));
    assert_eq!(
        text,
        write_query_with("T", &vec![write_check("a", "\"a\"")], "\"my \\\"table\\\"\"", false)
    );
    assert!(syn::parse_file(&text).is_ok());
}

#[test]
fn the_query_artifacts() {
    let schema = product();
    assert_eq!(names_of(&schema), strings(&["id", "name", "price"]));
    let artifact = emit_placeholder_query(&schema);
    assert_eq!(artifact.generator, GeneratorKind::Query);
    assert_eq!(artifact.text, write_query("Product", &names_of(&schema), &QueryConfig::placeholder()));
    let mut set = DirectiveSet::new();
    set.table_name = Some("goods".to_string());
    let model = NestedModel {
        name: "Label".to_string(),
        fields: strings(&["text"]),
        extra_capabilities: strings(&[]),
    };
    let model_text = write_model(&model, &set);
    assert_eq!(
        model_text,
        format!(
            "pub struct Label {{\n    pub text: Option<String>,\n}}\n{}",
            write_query("Label", &strings(&["text"]), &QueryConfig::new("Label", false))
        )
    );
    set.nested_models.push(model);
    let artifact = emit_directed_query(&schema, &set);
    assert_eq!(
        artifact.text,
        format!(
            "{}{}",
            write_query("Product", &names_of(&schema), &QueryConfig::new("goods", false)),
            model_text
        )
    );
}

#[test]
fn artifacts_are_assembled_in_order() {
    let artifacts = vec![
        Artifact { generator: GeneratorKind::Query, text: "one\n".to_string() },
        Artifact { generator: GeneratorKind::Factory, text: String::new() },
        Artifact { generator: GeneratorKind::Builder, text: "two\n".to_string() },
    ];
    assert_eq!(assemble(artifacts), "one\ntwo\n");
    assert_eq!(assemble(vec![]), "");
}

#[test]
fn query_params_from_tokens() {
    let tokens = vec![Token::Literal("a".to_string()), Token::Comma, Token::Literal("b".to_string())];
    assert_eq!(read_query_params(&tokens), Ok(strings(&["a", "b"])));
    assert_eq!(read_query_params(&vec![]), Err(DirectiveError::QueryParams));
    assert_eq!(
        read_query_params(&vec![Token::Literal("a".to_string()), Token::Comma]),
        Err(DirectiveError::QueryParams)
    );
    assert_eq!(read_query_params(&vec![Token::Word("a".to_string())]), Err(DirectiveError::QueryParams));
}

#[test]
fn nested_models_from_tokens() {
    let tokens = vec![
        Token::Word("fields".to_string()),
        Token::Equals,
        Token::Open,
        Token::Word("a".to_string()),
        Token::Close,
        Token::Comma,
        Token::Word("name".to_string()),
        Token::Equals,
        Token::Literal("with space".to_string()),
    ];
    assert_eq!(
        read_nested_models(&tokens),
        Ok(vec![NestedModel {
            name: "with space".to_string(),
            fields: strings(&["a"]),
            extra_capabilities: strings(&[]),
        }])
    );
    let without_name = vec![
        Token::Word("fields".to_string()),
        Token::Equals,
        Token::Open,
        Token::Word("a".to_string()),
        Token::Close,
    ];
    assert_eq!(read_nested_models(&without_name), Err(DirectiveError::ModelWithoutName));
    assert_eq!(read_nested_models(&vec![]), Err(DirectiveError::CustomModel));
}
