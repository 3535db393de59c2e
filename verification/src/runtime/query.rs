//! What the generated query operation does: it writes a selection statement
//! from the fields of a record that hold a value.

use crate::directive::{DirectiveSet, DirectiveSetView, NestedModel, NestedModelView};
use crate::runtime::record::Record;
use crate::schema::{field_names, field_views, is_identifier, Field, FieldView, Schema, SchemaView};
use crate::text::{
    chars_of, debug_quote, debug_quoted, find_first, first_index_of, is_whitespace, join, joined,
    lemma_first_index_of_is, lemma_leading_whitespace_is, lemma_trailing_whitespace_is,
    remove_char, texts, trim_between, trimmed, without_char,
};
use crate::value::{rendered, ValueView};
use vstd::prelude::*;

verus! {

/// The table that a query without a table directive selects from.
pub open spec fn placeholder_table() -> Seq<char> {
    "table_name"@
}

/// How the query operation of one type is configured.
#[derive(Debug, PartialEq, Eq)]
pub struct QueryConfig {
    /// The table that the statement selects from.
    pub table: String,
    /// Whether a statement with predicates lists the matched field names in
    /// place of `*`.
    pub columns_only: bool,
}

/// The mathematical content of a [`QueryConfig`].
pub struct QueryConfigView {
    pub table: Seq<char>,
    pub columns_only: bool,
}

impl View for QueryConfig {
    type V = QueryConfigView;

    open spec fn view(&self) -> QueryConfigView {
        QueryConfigView { table: self.table@, columns_only: self.columns_only }
    }
}

impl QueryConfig {
    /// The configuration of a type without directives: the placeholder table
    /// and no column list.
    pub fn placeholder() -> (c: QueryConfig)
        ensures
            c@ == (QueryConfigView { table: placeholder_table(), columns_only: false }),
    {
        QueryConfig { table: String::from_str("table_name"), columns_only: false }
    }

    /// A configuration with the given table.
    pub fn new(table: &str, columns_only: bool) -> (c: QueryConfig)
        ensures
            c@ == (QueryConfigView { table: table@, columns_only }),
    {
        QueryConfig { table: String::from_str(table), columns_only }
    }
}

/// The comparison of one field with its value: `<field> = '<value>'`, the
/// value in its display form and unescaped.
pub open spec fn predicate(name: Seq<char>, value: ValueView) -> Seq<char> {
    name + " = '"@ + rendered(value) + "'"@
}

/// The positions of the values that are present, in ascending order.
pub open spec fn present_positions(values: Seq<ValueView>) -> Seq<int>
    decreases values.len(),
{
    if values.len() == 0 {
        Seq::empty()
    } else if values.last() != ValueView::Absent {
        present_positions(values.drop_last()).push(values.len() - 1)
    } else {
        present_positions(values.drop_last())
    }
}

/// The predicates of the fields that hold a value, in declaration order.
pub open spec fn predicates(names: Seq<Seq<char>>, values: Seq<ValueView>) -> Seq<Seq<char>> {
    present_positions(values).map_values(|i: int| predicate(names[i], values[i]))
}

/// The names of the fields that hold a value, in declaration order.
pub open spec fn present_names(names: Seq<Seq<char>>, values: Seq<ValueView>) -> Seq<Seq<char>> {
    present_positions(values).map_values(|i: int| names[i])
}

/// What stands left of the first `=` of a predicate, trimmed.
pub open spec fn left_hand_side(pred: Seq<char>) -> Seq<char> {
    trimmed(pred.take(first_index_of(pred, '=') as int))
}

/// The left-hand sides of the predicates, joined with a comma and a space,
/// and without any double quote.
pub open spec fn column_list(preds: Seq<Seq<char>>) -> Seq<char> {
    without_char(joined(preds.map_values(|p: Seq<char>| left_hand_side(p)), ", "@), '"')
}

/// The statement that selects every column.
pub open spec fn select_all_text(table: Seq<char>, preds: Seq<Seq<char>>) -> Seq<char> {
    if preds.len() == 0 {
        "SELECT * FROM "@ + table
    } else {
        "SELECT * FROM "@ + table + " WHERE "@ + joined(preds, " AND "@)
    }
}

/// The statement that selects the columns in `quoted_columns`.
pub open spec fn select_columns_text(
    quoted_columns: Seq<char>,
    table: Seq<char>,
    preds: Seq<Seq<char>>,
) -> Seq<char> {
    "SELECT "@ + quoted_columns + " FROM "@ + table + " WHERE "@ + joined(preds, " AND "@)
}

/// The statement for a table, a column mode and a list of predicates.
pub open spec fn query_text(config: QueryConfigView, preds: Seq<Seq<char>>) -> Seq<char> {
    if config.columns_only && preds.len() > 0 {
        select_columns_text(debug_quoted(column_list(preds)), config.table, preds)
    } else {
        select_all_text(config.table, preds)
    }
}

/// [`present_positions`] lists exactly the positions of the present values,
/// each once and in ascending order.
pub proof fn lemma_present_positions(values: Seq<ValueView>)
    ensures
        present_positions(values).len() <= values.len(),
        forall|k: int|
            0 <= k < present_positions(values).len() ==> {
                let i = #[trigger] present_positions(values)[k];
                0 <= i < values.len() && values[i] != ValueView::Absent
            },
        forall|k: int, l: int|
            0 <= k < l < present_positions(values).len() ==> present_positions(values)[k]
                < present_positions(values)[l],
        forall|i: int|
            0 <= i < values.len() && values[i] != ValueView::Absent ==> present_positions(
                values,
            ).contains(i),
    decreases values.len(),
{
    if values.len() > 0 {
        let front = values.drop_last();
        let last = values.len() - 1;
        lemma_present_positions(front);
        let p = present_positions(values);
        let q = present_positions(front);
        assert forall|k: int| 0 <= k < p.len() implies {
            let i = #[trigger] p[k];
            0 <= i < values.len() && values[i] != ValueView::Absent
        } by {
            if k < q.len() {
                assert(p[k] == q[k]);
                assert(front[q[k]] == values[q[k]]);
            }
        }
        assert forall|k: int, l: int| 0 <= k < l < p.len() implies p[k] < p[l] by {
            assert(p[k] == q[k]);
            if l < q.len() {
                assert(p[l] == q[l]);
            }
        }
        assert forall|i: int|
            0 <= i < values.len() && values[i] != ValueView::Absent implies p.contains(i) by {
            if i < last {
                assert(front[i] == values[i]);
                let k = choose|k: int| 0 <= k < q.len() && q[k] == i;
                assert(p[k] == i);
            } else {
                assert(p[p.len() - 1] == i);
            }
        }
    }
}

/// The left-hand side of a field's predicate is the field's name, where the
/// name is an identifier.
pub proof fn lemma_left_hand_side(name: Seq<char>, value: ValueView)
    requires
        is_identifier(name),
    ensures
        left_hand_side(predicate(name, value)) == name,
{
    reveal_strlit(" = '");
    let pred = predicate(name, value);
    let n = name.len() as int;
    assert(" = '"@.len() == 4);
    assert forall|k: int| 0 <= k < n + 1 implies #[trigger] pred[k] != '=' by {
        if k < n {
            assert(pred[k] == name[k]);
        } else {
            assert(pred[k] == " = '"@[0]);
        }
    }
    assert(pred[n + 1] == " = '"@[1]);
    lemma_first_index_of_is(pred, '=', n + 1);
    let head = pred.take(n + 1);
    assert(head == name.push(' '));
    assert(!is_whitespace(head[0])) by {
        assert(head[0] == name[0]);
    }
    lemma_leading_whitespace_is(head, 0);
    assert(head.skip(0) == head);
    assert(!is_whitespace(head[n - 1])) by {
        assert(head[n - 1] == name[n - 1]);
    }
    lemma_trailing_whitespace_is(head, 1);
    assert(head.take(n) == name);
}

/// Removing a character that does not occur changes nothing.
pub proof fn lemma_without_char_absent(s: Seq<char>, c: char)
    requires
        forall|i: int| 0 <= i < s.len() ==> #[trigger] s[i] != c,
    ensures
        without_char(s, c) == s,
    decreases s.len(),
{
    reveal(Seq::filter);
    if s.len() > 0 {
        let front = s.drop_last();
        assert forall|i: int| 0 <= i < front.len() implies #[trigger] front[i] != c by {
            assert(front[i] == s[i]);
        }
        lemma_without_char_absent(front, c);
        assert(front.push(s.last()) == s);
    }
}

/// A list of identifiers joined with a comma and a space holds no double
/// quote.
pub proof fn lemma_joined_identifiers_unquoted(names: Seq<Seq<char>>)
    requires
        forall|i: int| 0 <= i < names.len() ==> is_identifier(#[trigger] names[i]),
    ensures
        forall|k: int| 0 <= k < joined(names, ", "@).len() ==> #[trigger] joined(names, ", "@)[k] != '"',
    decreases names.len(),
{
    reveal_strlit(", ");
    if names.len() == 1 {
        assert(is_identifier(names[0]));
    } else if names.len() > 1 {
        let front = names.drop_last();
        assert forall|i: int| 0 <= i < front.len() implies is_identifier(#[trigger] front[i]) by {
            assert(front[i] == names[i]);
        }
        lemma_joined_identifiers_unquoted(front);
        assert(is_identifier(names.last()));
        let head = joined(front, ", "@);
        let whole = joined(names, ", "@);
        assert forall|k: int| 0 <= k < whole.len() implies #[trigger] whole[k] != '"' by {
            if k < head.len() {
                assert(whole[k] == head[k]);
            } else if k < head.len() + 2 {
                assert(whole[k] == ", "@[k - head.len()]);
            } else {
                assert(whole[k] == names.last()[k - head.len() - 2]);
            }
        }
    }
}

/// What stands left of the first `=` of `pred`, trimmed.
pub fn left_hand_side_of(pred: &str) -> (r: String)
    ensures
        r@ == left_hand_side(pred@),
{
    let v = chars_of(pred);
    let cut = find_first(&v, '=');
    assert(v@.subrange(0, cut as int) == v@.take(cut as int));
    trim_between(&v, 0, cut)
}

/// The predicates of the fields of `record` that hold a value.
pub fn render_predicates(record: &Record) -> (preds: Vec<String>)
    ensures
        texts(preds@) == predicates(field_names(record@.schema.fields), record@.values),
{
    let n = record.len();
    let schema = record.schema();
    let ghost names = field_names(record@.schema.fields);
    let ghost values = record@.values;
    let mut preds: Vec<String> = Vec::new();
    let mut i: usize = 0;
    while i < n
        invariant
            i <= n,
            n == values.len(),
            n == schema.fields.len(),
            schema@ == record@.schema,
            names == field_names(record@.schema.fields),
            values == record@.values,
            preds.len() == present_positions(values.take(i as int)).len(),
            forall|k: int|
                0 <= k < preds.len() ==> (#[trigger] preds@[k])@ == predicate(
                    names[present_positions(values.take(i as int))[k]],
                    values[present_positions(values.take(i as int))[k]],
                ),
        decreases n - i,
    {
        let value = record.value_at(i);
        assert(values.take(i + 1).drop_last() == values.take(i as int));
        assert(values.take(i + 1).last() == values[i as int]);
        if value.is_present() {
            let mut p = schema.fields[i].name.clone();
            p.append(" = '");
            p.append(value.display().as_str());
            p.append("'");
            assert(schema@.fields[i as int].name == schema.fields@[i as int].name@);
            assert(p@ == predicate(names[i as int], values[i as int]));
            preds.push(p);
        }
        i = i + 1;
    }
    assert(values.take(n as int) == values);
    assert(texts(preds@) =~= predicates(names, values));
    preds
}

/// The statement that selects every column of `table` under `preds`.
pub fn select_all(table: &str, preds: &Vec<String>) -> (r: String)
    ensures
        r@ == select_all_text(table@, texts(preds@)),
{
    let mut r = String::from_str("SELECT * FROM ");
    r.append(table);
    if preds.len() > 0 {
        r.append(" WHERE ");
        r.append(join(preds, " AND ").as_str());
    }
    r
}

/// The statement that selects the columns written in `quoted_columns`.
pub fn select_columns(quoted_columns: &str, table: &str, preds: &Vec<String>) -> (r: String)
    ensures
        r@ == select_columns_text(quoted_columns@, table@, texts(preds@)),
{
    let mut r = String::from_str("SELECT ");
    r.append(quoted_columns);
    r.append(" FROM ");
    r.append(table);
    r.append(" WHERE ");
    r.append(join(preds, " AND ").as_str());
    r
}

/// The left-hand sides of `preds`, joined and freed of double quotes.
pub fn columns_of(preds: &Vec<String>) -> (r: String)
    ensures
        r@ == column_list(texts(preds@)),
{
    let mut sides: Vec<String> = Vec::new();
    let mut i: usize = 0;
    while i < preds.len()
        invariant
            i <= preds.len(),
            sides.len() == i,
            forall|k: int| 0 <= k < i ==> (#[trigger] sides@[k])@ == left_hand_side(preds@[k]@),
        decreases preds.len() - i,
    {
        sides.push(left_hand_side_of(preds[i].as_str()));
        i = i + 1;
    }
    assert(texts(sides@) =~= texts(preds@).map_values(|p: Seq<char>| left_hand_side(p)));
    let list = join(&sides, ", ");
    remove_char(list.as_str(), '"')
}

/// The statement for `config` and a list of predicates.
pub fn assemble_query(config: &QueryConfig, preds: &Vec<String>) -> (r: String)
    ensures
        r@ == query_text(config@, texts(preds@)),
{
    if config.columns_only && preds.len() > 0 {
        let columns = columns_of(preds);
        let quoted = debug_quote(columns.as_str());
        select_columns(quoted.as_str(), config.table.as_str(), preds)
    } else {
        select_all(config.table.as_str(), preds)
    }
}

/// The query operation of a generated type: the statement that selects from
/// the configured table the rows that match the present fields of `record`.
pub fn build_query(record: &Record, config: &QueryConfig) -> (r: String)
    ensures
        r@ == query_text(
            config@,
            predicates(field_names(record@.schema.fields), record@.values),
        ),
{
    let preds = render_predicates(record);
    assemble_query(config, &preds)
}

/// Where no field holds a value, the statement selects everything from the
/// table and has no condition, whatever the column mode.
pub proof fn lemma_query_without_values(
    config: QueryConfigView,
    names: Seq<Seq<char>>,
    values: Seq<ValueView>,
)
    requires
        forall|i: int| 0 <= i < values.len() ==> #[trigger] values[i] == ValueView::Absent,
    ensures
        predicates(names, values).len() == 0,
        query_text(config, predicates(names, values)) == "SELECT * FROM "@ + config.table,
{
    lemma_present_positions(values);
    if present_positions(values).len() > 0 {
        let i = present_positions(values)[0];
        assert(values[i] == ValueView::Absent);
    }
}

/// Without directives and without a present field the statement is
/// `SELECT * FROM table_name`.
pub proof fn lemma_placeholder_query_without_values(names: Seq<Seq<char>>, values: Seq<ValueView>)
    requires
        forall|i: int| 0 <= i < values.len() ==> #[trigger] values[i] == ValueView::Absent,
    ensures
        query_text(
            QueryConfigView { table: placeholder_table(), columns_only: false },
            predicates(names, values),
        ) == "SELECT * FROM table_name"@,
{
    lemma_query_without_values(
        QueryConfigView { table: placeholder_table(), columns_only: false },
        names,
        values,
    );
    reveal_strlit("SELECT * FROM ");
    reveal_strlit("table_name");
    reveal_strlit("SELECT * FROM table_name");
    assert("SELECT * FROM "@ + "table_name"@ =~= "SELECT * FROM table_name"@);
}

/// Where at least one field holds a value and no column list is asked for,
/// the statement's condition is the predicates of the present fields, joined
/// by ` AND `, in the order in which the fields are declared.
pub proof fn lemma_query_with_values(
    table: Seq<char>,
    names: Seq<Seq<char>>,
    values: Seq<ValueView>,
)
    requires
        names.len() == values.len(),
        exists|i: int| 0 <= i < values.len() && values[i] != ValueView::Absent,
    ensures
        query_text(QueryConfigView { table, columns_only: false }, predicates(names, values))
            == "SELECT * FROM "@ + table + " WHERE "@ + joined(predicates(names, values), " AND "@),
        predicates(names, values).len() == present_positions(values).len(),
        predicates(names, values).len() > 0,
        forall|k: int|
            0 <= k < present_positions(values).len() ==> #[trigger] predicates(names, values)[k]
                == predicate(
                names[present_positions(values)[k]],
                values[present_positions(values)[k]],
            ),
        forall|k: int, l: int|
            0 <= k < l < present_positions(values).len() ==> present_positions(values)[k]
                < present_positions(values)[l],
{
    lemma_present_positions(values);
    let i = choose|i: int| 0 <= i < values.len() && values[i] != ValueView::Absent;
    assert(present_positions(values).contains(i));
}

/// With the column mode on and at least one present field, the statement
/// lists exactly the names of the present fields, joined by a comma and a
/// space in declaration order and then quoted, before the table and the
/// condition. This holds of a schema that meets its invariant.
pub proof fn lemma_query_lists_columns(
    schema: SchemaView,
    table: Seq<char>,
    values: Seq<ValueView>,
)
    requires
        schema.well_formed(),
        values.len() == schema.fields.len(),
        exists|i: int| 0 <= i < values.len() && values[i] != ValueView::Absent,
    ensures
        query_text(
            QueryConfigView { table, columns_only: true },
            predicates(field_names(schema.fields), values),
        ) == "SELECT "@ + debug_quoted(
            joined(present_names(field_names(schema.fields), values), ", "@),
        ) + " FROM "@ + table + " WHERE "@ + joined(
            predicates(field_names(schema.fields), values),
            " AND "@,
        ),
        present_names(field_names(schema.fields), values).len() == predicates(
            field_names(schema.fields),
            values,
        ).len(),
{
    let names = field_names(schema.fields);
    let preds = predicates(names, values);
    let shown = present_names(names, values);
    lemma_present_positions(values);
    let i = choose|i: int| 0 <= i < values.len() && values[i] != ValueView::Absent;
    assert(present_positions(values).contains(i));
    let sides = preds.map_values(|p: Seq<char>| left_hand_side(p));
    assert forall|k: int| 0 <= k < shown.len() implies is_identifier(#[trigger] shown[k]) by {
        let at = present_positions(values)[k];
        assert(0 <= at < values.len());
        assert(shown[k] == schema.fields[at].name);
    }
    assert forall|k: int| 0 <= k < sides.len() implies sides[k] == shown[k] by {
        let at = present_positions(values)[k];
        assert(is_identifier(shown[k]));
        lemma_left_hand_side(names[at], values[at]);
    }
    assert(sides =~= shown);
    lemma_joined_identifiers_unquoted(shown);
    lemma_without_char_absent(joined(shown, ", "@), '"');
}

/// The configuration that a directive set asks for: the table of the
/// `table_name` directive, or the placeholder where there is none, and the
/// column mode of the `use_attrs_with_query` directive.
pub open spec fn config_of(set: DirectiveSetView) -> QueryConfigView {
    QueryConfigView {
        table: match set.table_name {
            Some(table) => table,
            None => placeholder_table(),
        },
        columns_only: set.use_columns_only,
    }
}

/// The configuration of a nested model: its own name is the table; the
/// column mode is that of the host type.
pub open spec fn model_config_of(model: NestedModelView, set: DirectiveSetView) -> QueryConfigView {
    QueryConfigView { table: model.name, columns_only: set.use_columns_only }
}

/// The type of every field of a nested model.
pub open spec fn model_field_type() -> Seq<char> {
    "Option<String>"@
}

/// The schema of the auxiliary type of a nested model: the declared field
/// names, each an optional text.
pub open spec fn model_schema_of(model: NestedModelView) -> SchemaView {
    SchemaView {
        name: model.name,
        fields: model.fields.map_values(
            |name: Seq<char>| FieldView { name, ty: model_field_type(), factory_default: false },
        ),
    }
}

impl QueryConfig {
    /// The configuration that a directive set asks for.
    pub fn from_directives(set: &DirectiveSet) -> (c: QueryConfig)
        ensures
            c@ == config_of(set@),
    {
        let table = match &set.table_name {
            Some(table) => table.clone(),
            None => String::from_str("table_name"),
        };
        QueryConfig { table, columns_only: set.use_columns_only }
    }

    /// The configuration of a nested model under the directives of its host.
    pub fn for_model(model: &NestedModel, set: &DirectiveSet) -> (c: QueryConfig)
        ensures
            c@ == model_config_of(model@, set@),
    {
        QueryConfig { table: model.name.clone(), columns_only: set.use_columns_only }
    }
}

impl NestedModel {
    /// The schema of the model's auxiliary type.
    pub fn schema(&self) -> (s: Schema)
        ensures
            s@ == model_schema_of(self@),
    {
        let mut fields: Vec<Field> = Vec::new();
        let mut i: usize = 0;
        while i < self.fields.len()
            invariant
                i <= self.fields.len(),
                fields.len() == i,
                forall|k: int|
                    0 <= k < i ==> (#[trigger] fields@[k])@ == (FieldView {
                        name: self.fields@[k]@,
                        ty: model_field_type(),
                        factory_default: false,
                    }),
            decreases self.fields.len() - i,
        {
            fields.push(Field::new(self.fields[i].as_str(), "Option<String>"));
            i = i + 1;
        }
        assert(field_views(fields@) =~= model_schema_of(self@).fields);
        Schema { name: self.name.clone(), fields }
    }
}

} // verus!
