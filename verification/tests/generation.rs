use custom_macros::generate::artifact::GeneratorKind;
use custom_macros::declaration::parse_declaration;
use custom_macros::directive::DirectiveError;
use custom_macros::syntax::ContainerShape;
use custom_macros::{
    derive_builder_pattern, derive_factory_pattern, derive_getters_setters, generate,
    run_generator, sql_query_buider, sql_query_buider2, GenerationError,
};

const PRODUCT: &str = "struct Product { #[factory] id: u32, name: String, price: i64 }";

const PRODUCT_FACTORY: &str = r#"impl Product {
    pub fn new_product(name: String, price: i64) -> Self {
        Self { id: Default::default(), name, price }
    }
}
"#;

const USER_BUILDER: &str = r#"pub struct UserBuilder {
    username: std::option::Option<String>,
    age: std::option::Option<i64>,
}

impl UserBuilder {
    pub fn username(&mut self, username: String) -> &mut Self {
        self.username = std::option::Option::Some(username);
        self
    }
    pub fn age(&mut self, age: i64) -> &mut Self {
        self.age = std::option::Option::Some(age);
        self
    }
    pub fn build(&mut self) -> std::result::Result<User, &'static str> {
        Ok(User {
            username: self.username.take().ok_or("username is not set")?,
            age: self.age.take().ok_or("age is not set")?,
        })
    }
}

impl User {
    pub fn builder() -> UserBuilder {
        UserBuilder {
            username: std::option::Option::None,
            age: std::option::Option::None,
        }
    }
}
"#;

const PERSON_ACCESSORS: &str = r#"impl Person {
    pub fn first_name(&self) -> &String {
        &self.first_name
    }
    pub fn set_first_name(&mut self, value: String) {
        self.first_name = value;
    }
    pub fn age(&self) -> &i64 {
        &self.age
    }
    pub fn set_age(&mut self, value: i64) {
        self.age = value;
    }
    pub fn new(first_name: String, age: i64) -> Self {
        Self { first_name, age }
    }
}
"#;

fn query_source(owner: &str, fields: &[&str], table: &str, columns_only: bool) -> String {
    let mut text = format!(
        "impl {} {{\n    pub fn build_query(&self) -> String {{\n        let mut query_parts: Vec<String> = Vec::new();\n",
        owner
    );
    for field in fields {
        text.push_str(&format!(
            "        if let Some(ref value) = self.{} {{\n            query_parts.push(format!(\"{{}} = '{{}}'\", \"{}\", value));\n        }}\n",
            field, field
        ));
    }
    text.push_str(&format!(
        "        if query_parts.is_empty() {{\n            return format!(\"SELECT * FROM {{}}\", {});\n        }}\n",
        table
    ));
    text.push_str("        let columns: String = query_parts\n            .iter()\n            .map(|item| item.split('=').next().unwrap_or(\"\").trim())\n            .collect::<Vec<&str>>()\n            .join(\", \");\n");
    text.push_str("        let where_clause = query_parts.join(\" AND \");\n");
    text.push_str(&format!(
        "        if {} {{\n            return format!(\"SELECT {{:?}} FROM {{}} WHERE {{}}\", columns.replace(\"\\\"\", \"\"), {}, where_clause);\n        }}\n",
        columns_only, table
    ));
    text.push_str(&format!(
        "        format!(\"SELECT * FROM {{}} WHERE {{}}\", {}, where_clause)\n    }}\n}}\n",
        table
    ));
    text
}

#[test]
fn factory_source_of_product() {
    let text = derive_factory_pattern(PRODUCT).unwrap();
    assert_eq!(text, PRODUCT_FACTORY);
    assert!(syn::parse_file(&text).is_ok());
}

#[test]
fn factory_takes_every_field_without_a_marker() {
    let text = derive_factory_pattern("struct Point { x: i64, y: i64 }").unwrap();
    assert_eq!(
        text,
        "impl Point {\n    pub fn new_point(x: i64, y: i64) -> Self {\n        Self { x, y }\n    }\n}\n"
    );
}

#[test]
fn factory_with_every_field_marked_takes_no_parameter() {
    let text = derive_factory_pattern("struct Zero { #[factory] a: u8, #[factory] b: String }").unwrap();
    assert_eq!(
        text,
        "impl Zero {\n    pub fn new_zero() -> Self {\n        Self { a: Default::default(), b: Default::default() }\n    }\n}\n"
    );
}

#[test]
fn factory_marker_counts_beside_other_attributes() {
    let text = derive_factory_pattern(
        "struct Tagged { #[allow(dead_code)] #[factory] #[doc = \"the id\"] id: u32, name: String }",
    )
    .unwrap();
    assert_eq!(
        text,
        "impl Tagged {\n    pub fn new_tagged(name: String) -> Self {\n        Self { id: Default::default(), name }\n    }\n}\n"
    );
}

#[test]
fn factory_ignores_a_marker_with_a_longer_path() {
    let text = derive_factory_pattern("struct Tagged { #[my::factory] id: u32 }").unwrap();
    assert_eq!(
        text,
        "impl Tagged {\n    pub fn new_tagged(id: u32) -> Self {\n        Self { id }\n    }\n}\n"
    );
}

#[test]
fn factory_of_a_schema_without_fields_emits_nothing() {
    assert_eq!(derive_factory_pattern("struct Empty {}"), Ok(String::new()));
}

#[test]
fn factory_lowers_the_case_of_the_type_name() {
    let text = derive_factory_pattern("struct HttpRequest { url: String }").unwrap();
    assert!(text.contains("pub fn new_httprequest(url: String) -> Self"));
}

#[test]
fn field_types_are_written_as_token_text() {
    let text = derive_factory_pattern("struct Holder { items: Vec<Option<String>> }").unwrap();
    assert_eq!(
        text,
        "impl Holder {\n    pub fn new_holder(items: Vec < Option < String > >) -> Self {\n        Self { items }\n    }\n}\n"
    );
    assert!(syn::parse_file(&text).is_ok());
}

#[test]
fn builder_source_of_user() {
    let text = derive_builder_pattern("pub struct User { username: String, age: i64 }").unwrap();
    assert_eq!(text, USER_BUILDER);
    assert!(syn::parse_file(&text).is_ok());
}

#[test]
fn builder_of_a_schema_without_fields() {
    let text = derive_builder_pattern("struct Empty {}").unwrap();
    assert_eq!(
        text,
        "pub struct EmptyBuilder {\n}\n\nimpl EmptyBuilder {\n    pub fn build(&mut self) -> std::result::Result<Empty, &'static str> {\n        Ok(Empty {\n        })\n    }\n}\n\nimpl Empty {\n    pub fn builder() -> EmptyBuilder {\n        EmptyBuilder {\n        }\n    }\n}\n"
    );
    assert!(syn::parse_file(&text).is_ok());
}

#[test]
fn accessor_source_of_person() {
    let text = derive_getters_setters("struct Person { first_name: String, age: i64 }").unwrap();
    assert_eq!(text, PERSON_ACCESSORS);
    assert!(syn::parse_file(&text).is_ok());
}

#[test]
fn accessors_of_a_schema_without_fields_keep_the_constructor() {
    let text = derive_getters_setters("struct Empty {}").unwrap();
    assert_eq!(text, "impl Empty {\n    pub fn new() -> Self {\n        Self {  }\n    }\n}\n");
    assert!(syn::parse_file(&text).is_ok());
}

#[test]
fn additive_generators_emit_nothing_without_named_fields() {
    for input in ["struct Pair(i64, i64);", "struct Unit;", "enum Choice { A, B }", "union Raw { a: u32, b: f32 }"] {
        assert_eq!(derive_factory_pattern(input), Ok(String::new()));
        assert_eq!(derive_builder_pattern(input), Ok(String::new()));
        assert_eq!(derive_getters_setters(input), Ok(String::new()));
    }
}

#[test]
fn placeholder_query_source_of_student() {
    let text =
        sql_query_buider2("struct Student { first_name: Option<String>, id: Option<i64> }").unwrap();
    assert_eq!(text, query_source("Student", &["first_name", "id"], "\"table_name\"", false));
    assert!(syn::parse_file(&text).is_ok());
}

#[test]
fn placeholder_query_pays_no_regard_to_directives() {
    let text = sql_query_buider2(
        "#[table_name(anthony)] #[use_attrs_with_query] struct Student { id: Option<i64> }",
    )
    .unwrap();
    assert_eq!(text, query_source("Student", &["id"], "\"table_name\"", false));
}

#[test]
fn directed_query_without_directives_uses_the_placeholder() {
    let text = sql_query_buider("struct Student { id: Option<i64> }").unwrap();
    assert_eq!(text, query_source("Student", &["id"], "\"table_name\"", false));
}

#[test]
fn directed_query_source_with_table() {
    let text = sql_query_buider(
        "#[derive(Debug)] #[table_name(anthony)] struct Student { first_name: Option<String>, last_name: Option<String>, id: Option<i64> }",
    )
    .unwrap();
    assert_eq!(
        text,
        query_source("Student", &["first_name", "last_name", "id"], "\"anthony\"", false)
    );
    assert!(syn::parse_file(&text).is_ok());
}

#[test]
fn directed_query_source_with_table_and_columns() {
    let text =
        sql_query_buider("#[table_name(anthony)] #[use_attrs_with_query] struct Student { id: Option<i64> }")
            .unwrap();
    assert_eq!(text, query_source("Student", &["id"], "\"anthony\"", true));
    assert!(syn::parse_file(&text).is_ok());
}

#[test]
fn table_name_keeps_the_tokens_of_its_expression() {
    let text = sql_query_buider("#[table_name(\"users\")] struct Student { id: Option<i64> }").unwrap();
    assert_eq!(text, query_source("Student", &["id"], "\"\\\"users\\\"\"", false));
    let text = sql_query_buider("#[table_name(a+b)] struct Student { id: Option<i64> }").unwrap();
    assert_eq!(text, query_source("Student", &["id"], "\"a + b\"", false));
}

#[test]
fn the_last_table_name_counts() {
    let text =
        sql_query_buider("#[table_name(one)] #[table_name(two)] struct Student { id: Option<i64> }")
            .unwrap();
    assert_eq!(text, query_source("Student", &["id"], "\"two\"", false));
}

#[test]
fn directed_query_source_with_nested_models() {
    let text = sql_query_buider(
        "#[table_name(anthony)] #[custom_model(name = \"Pupil\", fields = [first, last], extra_derives = [Debug, Clone], name = \"Bare\")] struct Student { id: Option<i64> }",
    )
    .unwrap();
    let mut expected = query_source("Student", &["id"], "\"anthony\"", false);
    expected.push_str("#[derive(Debug, Clone)]\npub struct Pupil {\n    pub first: Option<String>,\n    pub last: Option<String>,\n}\n");
    expected.push_str(&query_source("Pupil", &["first", "last"], "\"Pupil\"", false));
    expected.push_str("pub struct Bare {\n}\n");
    expected.push_str(&query_source("Bare", &[], "\"Bare\"", false));
    assert_eq!(text, expected);
    assert!(syn::parse_file(&text).is_ok());
}

#[test]
fn nested_models_take_the_column_mode_of_the_host() {
    let text = sql_query_buider(
        "#[use_attrs_with_query] #[custom_model(fields = [a], name = \"M\")] struct Student { id: Option<i64> }",
    )
    .unwrap();
    let mut expected = query_source("Student", &["id"], "\"table_name\"", true);
    expected.push_str("pub struct M {\n    pub a: Option<String>,\n}\n");
    expected.push_str(&query_source("M", &["a"], "\"M\"", true));
    assert_eq!(text, expected);
}

#[test]
fn query_refuses_a_container_without_named_fields() {
    for input in ["struct Pair(i64, i64);", "struct Unit;", "enum Choice { A, B }", "union Raw { a: u32, b: f32 }"] {
        assert_eq!(sql_query_buider2(input), Err(GenerationError::NotNamedFields));
        assert_eq!(sql_query_buider(input), Err(GenerationError::NotNamedFields));
    }
    assert_eq!(
        GenerationError::NotNamedFields.message(),
        "QueryBuilder can only be derived for structs with named fields"
    );
}

#[test]
fn query_accepts_a_struct_with_an_empty_field_list() {
    let text = sql_query_buider2("struct Empty {}").unwrap();
    assert_eq!(text, query_source("Empty", &[], "\"table_name\"", false));
    assert!(syn::parse_file(&text).is_ok());
}

#[test]
fn table_name_without_an_expression_is_refused() {
    for input in [
        "#[table_name] struct S { id: Option<i64> }",
        "#[table_name()] struct S { id: Option<i64> }",
        "#[table_name = \"users\"] struct S { id: Option<i64> }",
        "#[table_name(a, b)] struct S { id: Option<i64> }",
    ] {
        assert_eq!(
            sql_query_buider(input),
            Err(GenerationError::Directive(DirectiveError::TableName))
        );
    }
    assert_eq!(
        GenerationError::Directive(DirectiveError::TableName).message(),
        "The `table_name` attribute expects string literals to be comma separated\n\n= help: use `#[table_name(\"users\")]`"
    );
}

#[test]
fn a_malformed_directive_comes_before_the_shape() {
    assert_eq!(
        sql_query_buider("#[table_name] struct Pair(i64, i64);"),
        Err(GenerationError::Directive(DirectiveError::TableName))
    );
}

#[test]
fn malformed_list_directives_are_refused() {
    assert_eq!(
        sql_query_buider("#[query_params(a, b)] struct S { id: Option<i64> }"),
        Err(GenerationError::Directive(DirectiveError::QueryParams))
    );
    assert_eq!(
        sql_query_buider("#[query_params] struct S { id: Option<i64> }"),
        Err(GenerationError::Directive(DirectiveError::QueryParams))
    );
    assert_eq!(
        sql_query_buider("#[custom_model(name = Pupil)] struct S { id: Option<i64> }"),
        Err(GenerationError::Directive(DirectiveError::CustomModel))
    );
    assert_eq!(
        sql_query_buider("#[custom_model(fields = [a])] struct S { id: Option<i64> }"),
        Err(GenerationError::Directive(DirectiveError::ModelWithoutName))
    );
    assert_eq!(
        GenerationError::Directive(DirectiveError::ModelWithoutName).message(),
        "model must have a name"
    );
}

#[test]
fn the_first_malformed_directive_is_the_error() {
    assert_eq!(
        sql_query_buider("#[query_params(1)] #[table_name] struct S { id: Option<i64> }"),
        Err(GenerationError::Directive(DirectiveError::QueryParams))
    );
}

#[test]
fn unknown_directives_are_passed_over() {
    let text = sql_query_buider(
        "#[serde(rename_all = \"camelCase\")] #[future_directive(1, 2)] #[query_params(\"a\", \"b\")] struct S { id: Option<i64> }",
    )
    .unwrap();
    assert_eq!(text, query_source("S", &["id"], "\"table_name\"", false));
}

#[test]
fn a_text_that_is_no_declaration_is_refused_with_the_parser_s_message() {
    let error = derive_factory_pattern("fn main() {}").unwrap_err();
    assert_eq!(error, GenerationError::Syntax("expected one of: `struct`, `enum`, `union`".to_string()));
    assert_eq!(error.message(), "expected one of: `struct`, `enum`, `union`");
    assert!(matches!(derive_builder_pattern("struct"), Err(GenerationError::Syntax(_))));
    assert!(matches!(derive_getters_setters("struct S { a: }"), Err(GenerationError::Syntax(_))));
    assert!(matches!(sql_query_buider2("struct S { \"a\" }"), Err(GenerationError::Syntax(_))));
    assert!(matches!(sql_query_buider(""), Err(GenerationError::Syntax(_))));
}

#[test]
fn a_declaration_is_read_into_plain_values() {
    let declaration = parse_declaration(
        "#[table_name(anthony)] #[use_attrs_with_query] #[a::b] pub struct Student { #[factory] #[x::y] id: Option<i64>, name: String }",
    )
    .unwrap();
    assert_eq!(declaration.name, "Student");
    assert_eq!(declaration.shape, ContainerShape::NamedStruct);
    assert_eq!(declaration.fields.len(), 2);
    assert_eq!(declaration.fields[0].name, "id");
    assert_eq!(declaration.fields[0].ty, "Option < i64 >");
    assert_eq!(declaration.fields[0].markers, vec![Some("factory".to_string()), None]);
    assert_eq!(declaration.fields[1].name, "name");
    assert_eq!(declaration.fields[1].ty, "String");
    assert!(declaration.fields[1].markers.is_empty());
    assert_eq!(declaration.attributes.len(), 3);
    assert_eq!(declaration.attributes[0].name, Some("table_name".to_string()));
    assert_eq!(declaration.attributes[0].expression, Some("anthony".to_string()));
    assert_eq!(declaration.attributes[0].arguments, Some("anthony".to_string()));
    assert_eq!(declaration.attributes[1].name, Some("use_attrs_with_query".to_string()));
    assert_eq!(declaration.attributes[1].expression, None);
    assert_eq!(declaration.attributes[1].arguments, None);
    assert_eq!(declaration.attributes[2].name, None);
    let schema = declaration.schema();
    assert_eq!(schema.name, "Student");
    assert_eq!(schema.fields.len(), 2);
    assert!(schema.fields[0].factory_default);
    assert!(!schema.fields[1].factory_default);
    assert!(schema.is_well_formed());
}

#[test]
fn shapes_are_told_apart() {
    assert_eq!(parse_declaration("struct A {}").unwrap().shape, ContainerShape::NamedStruct);
    assert_eq!(parse_declaration("struct A(u8);").unwrap().shape, ContainerShape::TupleStruct);
    assert_eq!(parse_declaration("struct A;").unwrap().shape, ContainerShape::UnitStruct);
    assert_eq!(parse_declaration("enum A { B }").unwrap().shape, ContainerShape::Enum);
    assert_eq!(parse_declaration("union A { b: u8 }").unwrap().shape, ContainerShape::Union);
    let tuple = parse_declaration("struct A(u8, u16);").unwrap();
    assert!(tuple.fields.is_empty());
    assert!(tuple.schema().fields.is_empty());
    assert!(!tuple.has_named_fields());
}

#[test]
fn requested_generators_run_in_order() {
    let declaration = parse_declaration(PRODUCT).unwrap();
    let text = generate(&declaration, &vec![GeneratorKind::Factory, GeneratorKind::Query]).unwrap();
    let mut expected = PRODUCT_FACTORY.to_string();
    expected.push_str(&query_source("Product", &["id", "name", "price"], "\"table_name\"", false));
    assert_eq!(text, expected);
    let text = generate(&declaration, &vec![GeneratorKind::Query, GeneratorKind::Factory]).unwrap();
    let mut expected = query_source("Product", &["id", "name", "price"], "\"table_name\"", false);
    expected.push_str(PRODUCT_FACTORY);
    assert_eq!(text, expected);
    assert_eq!(generate(&declaration, &vec![]), Ok(String::new()));
}

#[test]
fn a_failing_generator_stops_the_run() {
    let declaration = parse_declaration("struct Pair(i64, i64);").unwrap();
    assert_eq!(
        generate(&declaration, &vec![GeneratorKind::Factory, GeneratorKind::Query, GeneratorKind::Builder]),
        Err(GenerationError::NotNamedFields)
    );
    assert_eq!(
        generate(&declaration, &vec![GeneratorKind::Factory, GeneratorKind::Accessor]),
        Ok(String::new())
    );
}

#[test]
fn an_artifact_carries_the_name_of_its_generator() {
    let declaration = parse_declaration(PRODUCT).unwrap();
    let artifact = run_generator(&declaration, GeneratorKind::Builder).unwrap();
    assert_eq!(artifact.generator, GeneratorKind::Builder);
    assert_eq!(artifact.generator.name(), "builder");
    assert_eq!(GeneratorKind::Factory.name(), "factory");
    assert_eq!(GeneratorKind::Accessor.name(), "accessor");
    assert_eq!(GeneratorKind::Query.name(), "query");
}
