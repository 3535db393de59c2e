use custom_macros::declaration::parse_declaration;
use custom_macros::directive::parse_directives;
use custom_macros::runtime::builder::Builder;
use custom_macros::runtime::query::{build_query, QueryConfig};
use custom_macros::runtime::record::Record;
use custom_macros::schema::{Field, Schema};
use custom_macros::value::Value;

const STUDENT: &str = "#[derive(Debug, SqlQueryDerive)]
#[table_name(anthony)]
struct Student {
    first_name: Option<String>,
    last_name: Option<String>,
    id: Option<i64>,
}";

fn declared(text: &str) -> (Schema, QueryConfig) {
    let declaration = parse_declaration(text).unwrap();
    let directives = parse_directives(&declaration.attributes).unwrap();
    (declaration.schema(), QueryConfig::from_directives(&directives))
}

#[test]
fn query_with_table_and_one_present_field() {
    let (schema, config) = declared(STUDENT);
    let student = Record::new(schema, vec![Value::text("tonie"), Value::Absent, Value::Absent]);
    assert_eq!(build_query(&student, &config), "SELECT * FROM anthony WHERE first_name = 'tonie'");
}

#[test]
fn query_with_table_and_no_present_field() {
    let (schema, config) = declared(STUDENT);
    let student = Record::new(schema, vec![Value::Absent, Value::Absent, Value::Absent]);
    assert_eq!(build_query(&student, &config), "SELECT * FROM anthony");
}

#[test]
fn accessors_write_and_read() {
    let (schema, _) = declared("struct User3 { id: i64, username: String }");
    let mut user = Record::new(schema, vec![Value::Integer(1), Value::text("Alice")]);
    user.set("username", Value::text("Bob"));
    assert_eq!(user.get("username"), Some(&Value::text("Bob")));
    assert_eq!(user.get("id"), Some(&Value::Integer(1)));
}

#[test]
fn builder_reports_the_missing_field() {
    let (schema, _) = declared("struct User4 { id: i64, username: String, email: String }");
    let mut builder = schema.builder();
    let result = builder.set("id", Value::Integer(1)).set("username", Value::text("Alice")).build();
    let error = result.unwrap_err();
    assert_eq!(error.field, "email");
    assert_eq!(error.message(), "email is not set");
}

#[test]
fn factory_fills_the_marked_field_with_its_default() {
    let (schema, _) = declared("struct Product { #[factory] id: u32, name: String, price: i64 }");
    assert_eq!(schema.factory_name(), "new_product");
    assert_eq!(schema.factory_parameters().len(), 2);
    let product = schema.construct(vec![Value::text("value"), Value::Integer(23)]);
    assert_eq!(product.get("id"), Some(&Value::Integer(0)));
    assert_eq!(product.get("name"), Some(&Value::text("value")));
    assert_eq!(product.get("price"), Some(&Value::Integer(23)));
}

#[test]
fn query_with_columns_from_directives() {
    let (schema, config) = declared(
        "#[table_name(anthony)] #[use_attrs_with_query] struct Student { first_name: Option<String>, id: Option<i64> }",
    );
    let student = Record::new(schema, vec![Value::text("tonie"), Value::Integer(3)]);
    assert_eq!(
        build_query(&student, &config),
        "SELECT \"first_name, id\" FROM anthony WHERE first_name = 'tonie' AND id = '3'"
    );
}

#[test]
fn query_of_a_nested_model_from_directives() {
    let declaration = parse_declaration(
        "#[custom_model(name = \"UserName\", fields = [first_name, last_name])] struct Host { id: Option<i64> }",
    )
    .unwrap();
    let directives = parse_directives(&declaration.attributes).unwrap();
    let model = &directives.nested_models[0];
    let record = Record::new(model.schema(), vec![Value::text("tonie"), Value::Absent]);
    assert_eq!(
        build_query(&record, &QueryConfig::for_model(model, &directives)),
        "SELECT * FROM UserName WHERE first_name = 'tonie'"
    );
}

#[test]
fn test_builder() {
    let schema = Schema::new(
        "User",
        vec![
            Field::new("username", "String"),
            Field::new("first_name", "String"),
            Field::new("last_name", "String"),
        ],
    );
    let user = schema
        .builder()
        .set("username", Value::text("alice@example.com"))
        .set("first_name", Value::text("etienne"))
        .set("last_name", Value::text("tonie"))
        .build()
        .unwrap();
    let u = format!(
        "User: {}, {}, {}",
        user.get("username").unwrap().display(),
        user.get("first_name").unwrap().display(),
        user.get("last_name").unwrap().display()
    );
    assert_eq!(u, "User: alice@example.com, etienne, tonie");
}

#[test]
fn a_built_value_equals_the_constructed_one() {
    let schema = Schema::new(
        "User",
        vec![
            Field::new("first_name", "String"),
            Field::new("last_name", "String"),
            Field::new("address", "String"),
            Field::new("age", "i64"),
        ],
    );
    let constructed = Record::new(
        schema.duplicate(),
        vec![Value::text("tonie"), Value::text("etienne"), Value::text("germany"), Value::Integer(34)],
    );
    let built = Builder::new(schema)
        .set("first_name", Value::text("tonie"))
        .set("last_name", Value::text("etienne"))
        .set("address", Value::text("germany"))
        .set("age", Value::Integer(34))
        .build()
        .unwrap();
    assert_eq!(constructed.get("first_name"), built.get("first_name"));
    assert_eq!(constructed, built);
}
