use custom_macros::runtime::builder::{BuildError, Builder};
use custom_macros::directive::{DirectiveSet, NestedModel};
use custom_macros::runtime::factory::default_value;
use custom_macros::runtime::query::{
    assemble_query, build_query, columns_of, left_hand_side_of, render_predicates, select_all,
    select_columns, QueryConfig,
};
use custom_macros::runtime::record::Record;
use custom_macros::schema::{identifier, Field, Schema};
use custom_macros::value::Value;

fn user() -> Schema {
    Schema::new(
        "User4",
        vec![Field::new("id", "i64"), Field::new("username", "String"), Field::new("email", "String")],
    )
}

fn student() -> Schema {
    Schema::new(
        "Student",
        vec![
            Field::new("first_name", "Option < String >"),
            Field::new("last_name", "Option < String >"),
            Field::new("id", "Option < i64 >"),
        ],
    )
}

fn strings(items: &[&str]) -> Vec<String> {
    items.iter().map(|s| s.to_string()).collect()
}

#[test]
fn factory_has_a_parameter_for_each_unmarked_field() {
    let schema = Schema::new(
        "Order",
        vec![
            Field::with_factory_default("id", "u64"),
            Field::new("customer", "String"),
            Field::with_factory_default("note", "String"),
            Field::new("total", "i64"),
            Field::with_factory_default("coupon", "Option < String >"),
        ],
    );
    let parameters = schema.factory_parameters();
    assert_eq!(parameters.len(), 5 - 3);
    assert_eq!(parameters, vec![Field::new("customer", "String"), Field::new("total", "i64")]);
    let order = schema.construct(vec![Value::text("ann"), Value::Integer(-5)]);
    assert_eq!(order.get("id"), Some(&Value::Integer(0)));
    assert_eq!(order.get("customer"), Some(&Value::text("ann")));
    assert_eq!(order.get("note"), Some(&Value::text("")));
    assert_eq!(order.get("total"), Some(&Value::Integer(-5)));
    assert_eq!(order.get("coupon"), Some(&Value::Absent));
    assert_eq!(order.len(), 5);
    assert_eq!(order.schema(), &schema);
}

#[test]
fn factory_without_marked_fields_takes_every_field() {
    let schema = user();
    assert_eq!(schema.factory_parameters().len(), 3);
    let record = schema.construct(vec![Value::Integer(1), Value::text("a"), Value::text("b")]);
    assert_eq!(record, Record::new(user(), vec![Value::Integer(1), Value::text("a"), Value::text("b")]));
}

#[test]
fn factory_with_every_field_marked_takes_nothing() {
    let schema = Schema::new(
        "Blank",
        vec![Field::with_factory_default("a", "i8"), Field::with_factory_default("b", "String")],
    );
    assert!(schema.factory_parameters().is_empty());
    let record = schema.construct(vec![]);
    assert_eq!(record.get("a"), Some(&Value::Integer(0)));
    assert_eq!(record.get("b"), Some(&Value::text("")));
}

#[test]
fn default_values_by_type() {
    for ty in ["i8", "i16", "i32", "i64", "i128", "isize", "u8", "u16", "u32", "u64", "u128", "usize", " u32 "] {
        assert_eq!(default_value(ty), Value::Integer(0), "{}", ty);
    }
    assert_eq!(default_value("String"), Value::text(""));
    assert_eq!(default_value("Option < String >"), Value::Absent);
    assert_eq!(default_value("Option<i64>"), Value::Absent);
    assert_eq!(default_value("Vec < u8 >"), Value::Absent);
    assert_eq!(default_value("I64"), Value::Absent);
}

#[test]
fn build_succeeds_when_every_setter_was_called() {
    let mut builder = user().builder();
    let record = builder
        .set("email", Value::text("a@b.c"))
        .set("id", Value::Integer(1))
        .set("username", Value::text("Alice"))
        .build()
        .unwrap();
    assert_eq!(
        record,
        Record::new(user(), vec![Value::Integer(1), Value::text("Alice"), Value::text("a@b.c")])
    );
}

#[test]
fn build_fails_with_the_name_of_the_omitted_field() {
    let values = [Value::Integer(1), Value::text("Alice"), Value::text("a@b.c")];
    let names = ["id", "username", "email"];
    for omitted in 0..3 {
        let mut builder = Builder::new(user());
        for i in 0..3 {
            if i != omitted {
                builder.set(names[i], values[i].duplicate());
            }
        }
        assert_eq!(builder.build(), Err(BuildError { field: names[omitted].to_string() }));
    }
}

#[test]
fn build_names_the_first_of_several_omitted_fields() {
    let mut builder = Builder::new(user());
    builder.set("id", Value::Integer(1));
    assert_eq!(builder.build().unwrap_err().message(), "username is not set");
    let mut fresh = Builder::new(user());
    assert_eq!(fresh.build().unwrap_err().message(), "id is not set");
}

#[test]
fn a_later_call_of_a_setter_replaces_the_value() {
    let mut builder = Builder::new(user());
    builder
        .set("id", Value::Integer(1))
        .set("username", Value::text("Alice"))
        .set("email", Value::text("x"))
        .set("id", Value::Integer(2));
    assert_eq!(builder.build().unwrap().get("id"), Some(&Value::Integer(2)));
}

#[test]
fn a_setter_of_an_unknown_field_changes_nothing() {
    let mut builder = Builder::new(user());
    builder.set("nickname", Value::text("Al"));
    assert_eq!(builder, Builder::new(user()));
    assert!(!builder.is_set("nickname"));
}

#[test]
fn build_empties_the_slots_that_it_read() {
    let mut builder = Builder::new(user());
    builder.set("id", Value::Integer(1)).set("username", Value::text("Alice"));
    assert!(builder.is_set("id") && builder.is_set("username") && !builder.is_set("email"));
    assert!(builder.build().is_err());
    assert!(!builder.is_set("id") && !builder.is_set("username") && !builder.is_set("email"));
    builder.set("email", Value::text("a@b.c"));
    assert_eq!(builder.build(), Err(BuildError { field: "id".to_string() }));
    assert!(builder.is_set("email"));
}

#[test]
fn build_keeps_the_slots_behind_the_empty_one() {
    let mut builder = Builder::new(user());
    builder.set("email", Value::text("a@b.c"));
    assert_eq!(builder.build(), Err(BuildError { field: "id".to_string() }));
    assert!(builder.is_set("email"));
}

#[test]
fn a_second_build_after_a_success_fails() {
    let mut builder = Builder::new(user());
    builder.set("id", Value::Integer(1)).set("username", Value::text("A")).set("email", Value::text("e"));
    assert!(builder.build().is_ok());
    assert_eq!(builder.build(), Err(BuildError { field: "id".to_string() }));
}

#[test]
fn the_builder_of_a_schema_without_fields_builds_at_once() {
    let schema = Schema::new("Empty", vec![]);
    let mut builder = schema.builder();
    assert_eq!(builder.build(), Ok(Record::new(Schema::new("Empty", vec![]), vec![])));
    assert_eq!(builder.schema(), &schema);
}

#[test]
fn placeholder_query_without_present_fields() {
    let record = Record::new(student(), vec![Value::Absent, Value::Absent, Value::Absent]);
    assert_eq!(build_query(&record, &QueryConfig::placeholder()), "SELECT * FROM table_name");
}

#[test]
fn placeholder_query_joins_the_predicates_in_declaration_order() {
    let record = Record::new(student(), vec![Value::text("tonie"), Value::Absent, Value::Integer(7)]);
    assert_eq!(
        build_query(&record, &QueryConfig::placeholder()),
        "SELECT * FROM table_name WHERE first_name = 'tonie' AND id = '7'"
    );
    let record =
        Record::new(student(), vec![Value::text("tonie"), Value::text("etienne"), Value::Integer(-12)]);
    assert_eq!(
        build_query(&record, &QueryConfig::placeholder()),
        "SELECT * FROM table_name WHERE first_name = 'tonie' AND last_name = 'etienne' AND id = '-12'"
    );
}

#[test]
fn query_lists_the_matched_columns() {
    let config = QueryConfig::new("anthony", true);
    let record = Record::new(student(), vec![Value::text("tonie"), Value::Absent, Value::Integer(7)]);
    assert_eq!(
        build_query(&record, &config),
        "SELECT \"first_name, id\" FROM anthony WHERE first_name = 'tonie' AND id = '7'"
    );
    let record = Record::new(student(), vec![Value::Absent, Value::text("x"), Value::Absent]);
    assert_eq!(build_query(&record, &config), "SELECT \"last_name\" FROM anthony WHERE last_name = 'x'");
}

#[test]
fn query_without_predicates_pays_no_regard_to_the_column_mode() {
    let record = Record::new(student(), vec![Value::Absent, Value::Absent, Value::Absent]);
    assert_eq!(build_query(&record, &QueryConfig::new("anthony", true)), "SELECT * FROM anthony");
}

#[test]
fn query_of_a_schema_without_fields() {
    let record = Record::new(Schema::new("Empty", vec![]), vec![]);
    assert_eq!(build_query(&record, &QueryConfig::new("t", true)), "SELECT * FROM t");
}

#[test]
fn values_go_into_the_statement_unescaped() {
    let record = Record::new(student(), vec![Value::text("o'neil"), Value::text("a = 'b'"), Value::Absent]);
    assert_eq!(
        build_query(&record, &QueryConfig::new("t", false)),
        "SELECT * FROM t WHERE first_name = 'o'neil' AND last_name = 'a = 'b''"
    );
    assert_eq!(
        build_query(&record, &QueryConfig::new("t", true)),
        "SELECT \"first_name, last_name\" FROM t WHERE first_name = 'o'neil' AND last_name = 'a = 'b''"
    );
}

#[test]
fn an_empty_text_is_a_present_value() {
    let record = Record::new(student(), vec![Value::text(""), Value::Absent, Value::Absent]);
    assert_eq!(build_query(&record, &QueryConfig::new("t", false)), "SELECT * FROM t WHERE first_name = ''");
}

#[test]
fn the_column_list_is_what_stands_left_of_the_first_equals_sign() {
    assert_eq!(left_hand_side_of("first_name = 'tonie'"), "first_name");
    assert_eq!(left_hand_side_of("  a b \t= 'x = y'"), "a b");
    assert_eq!(left_hand_side_of("no sign"), "no sign");
    assert_eq!(left_hand_side_of("= 'x'"), "");
    assert_eq!(left_hand_side_of(""), "");
    assert_eq!(columns_of(&strings(&["a = '1'", "b = '2'", "a = '3'"])), "a, b, a");
    assert_eq!(columns_of(&strings(&["\"a\" = '1'", "b\"c = '2'"])), "a, bc");
    assert_eq!(columns_of(&strings(&[])), "");
}

#[test]
fn the_column_list_is_quoted_as_debug_text() {
    let schema = Schema::new("Odd", vec![Field::new("tab\there", "String"), Field::new("back\\slash", "String")]);
    let record = Record::new(schema, vec![Value::text("1"), Value::text("2")]);
    assert_eq!(
        build_query(&record, &QueryConfig::new("t", true)),
        "SELECT \"tab\\there, back\\\\slash\" FROM t WHERE tab\there = '1' AND back\\slash = '2'"
    );
}

#[test]
fn statements_from_given_predicates() {
    let preds = strings(&["a = '1'", "b = '2'"]);
    assert_eq!(select_all("t", &preds), "SELECT * FROM t WHERE a = '1' AND b = '2'");
    assert_eq!(select_all("t", &strings(&[])), "SELECT * FROM t");
    assert_eq!(select_columns("<cols>", "t", &preds), "SELECT <cols> FROM t WHERE a = '1' AND b = '2'");
    assert_eq!(
        assemble_query(&QueryConfig::new("t", true), &preds),
        "SELECT \"a, b\" FROM t WHERE a = '1' AND b = '2'"
    );
    assert_eq!(
        assemble_query(&QueryConfig::new("t", false), &preds),
        "SELECT * FROM t WHERE a = '1' AND b = '2'"
    );
    assert_eq!(assemble_query(&QueryConfig::new("t", true), &strings(&[])), "SELECT * FROM t");
}

#[test]
fn predicates_of_the_present_fields() {
    let record = Record::new(student(), vec![Value::Absent, Value::text("x"), Value::Integer(0)]);
    assert_eq!(render_predicates(&record), strings(&["last_name = 'x'", "id = '0'"]));
}

#[test]
fn query_configuration_from_directives() {
    let mut set = DirectiveSet::new();
    assert_eq!(QueryConfig::from_directives(&set), QueryConfig::placeholder());
    assert_eq!(QueryConfig::placeholder(), QueryConfig::new("table_name", false));
    set.use_columns_only = true;
    assert_eq!(QueryConfig::from_directives(&set), QueryConfig::new("table_name", true));
    set.table_name = Some("anthony".to_string());
    assert_eq!(QueryConfig::from_directives(&set), QueryConfig::new("anthony", true));
}

#[test]
fn a_nested_model_queries_its_own_fields_under_its_own_name() {
    let model = NestedModel {
        name: "UserName".to_string(),
        fields: strings(&["first_name", "last_name"]),
        extra_capabilities: strings(&["Debug"]),
    };
    let schema = model.schema();
    assert_eq!(
        schema,
        Schema::new(
            "UserName",
            vec![Field::new("first_name", "Option<String>"), Field::new("last_name", "Option<String>")]
        )
    );
    let mut set = DirectiveSet::new();
    set.table_name = Some("host".to_string());
    let record = Record::new(schema, vec![Value::Absent, Value::text("etienne")]);
    assert_eq!(
        build_query(&record, &QueryConfig::for_model(&model, &set)),
        "SELECT * FROM UserName WHERE last_name = 'etienne'"
    );
    set.use_columns_only = true;
    assert_eq!(
        build_query(&record, &QueryConfig::for_model(&model, &set)),
        "SELECT \"last_name\" FROM UserName WHERE last_name = 'etienne'"
    );
}

#[test]
fn a_written_field_reads_back() {
    let names = ["id", "username", "email"];
    let values = [Value::Integer(i64::MIN), Value::text("Bob"), Value::Absent, Value::text("")];
    for name in names {
        for value in &values {
            let mut record =
                Record::new(user(), vec![Value::Integer(1), Value::text("Alice"), Value::text("a@b.c")]);
            record.set(name, value.duplicate());
            assert_eq!(record.get(name), Some(value));
            for other in names {
                if other != name {
                    let untouched =
                        Record::new(user(), vec![Value::Integer(1), Value::text("Alice"), Value::text("a@b.c")]);
                    assert_eq!(record.get(other), untouched.get(other));
                }
            }
        }
    }
}

#[test]
fn accessors_of_an_unknown_field() {
    let mut record = Record::new(user(), vec![Value::Integer(1), Value::text("Alice"), Value::text("e")]);
    assert_eq!(record.get("nickname"), None);
    record.set("nickname", Value::text("Al"));
    assert_eq!(record, Record::new(user(), vec![Value::Integer(1), Value::text("Alice"), Value::text("e")]));
    assert_eq!(record.value_at(1), &Value::text("Alice"));
}

#[test]
fn the_constructor_assigns_by_position_without_validation() {
    let record = Record::new(user(), vec![Value::text("not a number"), Value::Absent, Value::Integer(3)]);
    assert_eq!(record.get("id"), Some(&Value::text("not a number")));
    assert_eq!(record.get("username"), Some(&Value::Absent));
    assert_eq!(record.get("email"), Some(&Value::Integer(3)));
}

#[test]
fn schema_invariant() {
    assert!(user().is_well_formed());
    assert!(Schema::new("Empty", vec![]).is_well_formed());
    assert!(!Schema::new("Twice", vec![Field::new("a", "u8"), Field::new("b", "u8"), Field::new("a", "u8")])
        .is_well_formed());
    assert!(!Schema::new("Bad", vec![Field::new("a b", "u8")]).is_well_formed());
    assert!(!Schema::new("", vec![]).is_well_formed());
    assert!(!Schema::new("1st", vec![]).is_well_formed());
    assert!(identifier("_x1") && identifier("caf\u{e9}") && identifier("A"));
    assert!(!identifier("") && !identifier("9a") && !identifier("a-b") && !identifier("a=b"));
    assert!(!identifier("a\u{a0}b") && !identifier("r#type"));
    assert_eq!(user().position("email"), Some(2));
    assert_eq!(user().position("missing"), None);
    let twice = Schema::new("Twice", vec![Field::new("a", "u8"), Field::new("a", "u16")]);
    assert_eq!(twice.position("a"), Some(0));
    assert_eq!(user().duplicate(), user());
}
