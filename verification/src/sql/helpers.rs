//! Helpers for building SQL AST values in certain shapes and patterns.
use vstd::prelude::*;

use super::ast::{
    ColumnAlias, ColumnName, CrossJoin, Expression, From, Function, GroupBy, Join, Limit, OrderBy,
    OrderByDirection, OrderByElement, ScalarType, ScalarTypeName, Select, SelectList, TableAlias,
    TableName, Value, Where, With,
};

use super::string::{is_digit, lemma_nat_text_digits, lemma_nat_text_injective, nat_text, u64_to_text};

verus! {

/// Used as input to helpers to construct SELECTs which return 'rows' and/or 'aggregates' results.
pub enum SelectSet {
    Rows(Select),
    Aggregates(Select),
    RowsAndAggregates(Select, Select),
}

/// Do we want to aggregate results or return a single row?
#[derive(Clone, Copy)]
pub enum ResultsKind {
    AggregateResults,
    ObjectResults,
}

/// SQL field name to be used for keeping the values of variable sets.
pub const VARIABLES_FIELD: &'static str = "%variables";

/// This name will be used as a placeholder for a postgres parameter to which the
/// user variables sets will be passed.
pub const VARIABLES_OBJECT_PLACEHOLDER: &'static str = "%VARIABLES_OBJECT_PLACEHOLDER";

/// SQL field name to be used for ordering results with multiple variable sets.
pub const VARIABLE_ORDER_FIELD: &'static str = "%variable_order";

// Shapes of the values built here.

/// The literal `true`.
pub open spec fn true_literal() -> Expression {
    Expression::Value(Value::Bool(true))
}

/// An empty `WITH` clause.
pub open spec fn is_empty_with(with: With) -> bool {
    !with.recursive && with.common_table_expressions@.len() == 0
}

/// An empty `ORDER BY` clause.
pub open spec fn is_empty_order_by(order_by: OrderBy) -> bool {
    order_by.elements@.len() == 0
}

/// Empty `LIMIT` and `OFFSET` clauses.
pub open spec fn is_empty_limit(limit: Limit) -> bool {
    limit.limit is None && limit.offset is None
}

/// A select whose clauses are empty, but for its select list and its `FROM` clause.
pub open spec fn is_bare_select(select: Select) -> bool {
    &&& is_empty_with(select.with)
    &&& select.joins@.len() == 0
    &&& select.where_ == Where(true_literal())
    &&& is_empty_order_by(select.order_by)
    &&& is_empty_limit(select.limit)
}

/// A select whose clauses are empty but for its select list, which is `items`, and its `FROM`
/// clause, which is `from`.
pub open spec fn is_select_of(
    select: Select,
    items: Seq<(ColumnAlias, Expression)>,
    from: Option<From>,
) -> bool {
    &&& is_bare_select(select)
    &&& select.select_list matches SelectList::SelectList(list) && list@ == items
    &&& select.from == from
}

/// `function(args...)`
pub open spec fn is_call(expression: Expression, function: Function, args: Seq<Expression>) -> bool {
    expression matches Expression::FunctionCall { function: f, args: a } && f == function && a@
        == args
}

/// `coalesce(json_agg(<inner>), '[]')`
pub open spec fn is_json_agg_or_empty(expression: Expression, inner: Expression) -> bool {
    expression matches Expression::FunctionCall { function, args } && function
        == Function::Coalesce && args@.len() == 2 && is_call(args@[0], Function::JsonAgg, seq![inner])
        && args@[1] == Expression::Value(Value::EmptyJsonArray)
}

/// `row_to_json(<alias>)`
pub open spec fn row_to_json(alias: TableAlias) -> Expression {
    Expression::RowToJson(TableName::AliasedTable(alias))
}

/// `FROM (<select>) AS <alias>`
pub open spec fn from_select(select: Select, alias: TableAlias) -> From {
    From::Select { select: Box::new(select), alias }
}

/// `SELECT coalesce(json_agg(row_to_json(<table_alias>)), '[]') AS <column_alias>
/// FROM (<rows>) AS <table_alias>`
pub open spec fn is_rows_as_json(
    select: Select,
    rows: Select,
    column_alias: ColumnAlias,
    table_alias: TableAlias,
) -> bool {
    &&& is_bare_select(select)
    &&& select.select_list matches SelectList::SelectList(list) && list@.len() == 1 && list@[0].0
        == column_alias && is_json_agg_or_empty(list@[0].1, row_to_json(table_alias))
    &&& select.from == Some(from_select(rows, table_alias))
}

/// `SELECT coalesce(row_to_json(<table_alias>), '[]') AS <column_alias>
/// FROM (<row>) AS <table_alias>`
pub open spec fn is_row_as_json_with_default(
    select: Select,
    row: Select,
    column_alias: ColumnAlias,
    table_alias: TableAlias,
) -> bool {
    &&& is_bare_select(select)
    &&& select.select_list matches SelectList::SelectList(list) && list@.len() == 1 && list@[0].0
        == column_alias && is_call(
        list@[0].1,
        Function::Coalesce,
        seq![row_to_json(table_alias), Expression::Value(Value::EmptyJsonArray)],
    )
    &&& select.from == Some(from_select(row, table_alias))
}

/// `SELECT coalesce(row_to_json(<table_alias>), '{}'::json) AS <column_alias>
/// FROM (<row>) AS <table_alias>`
pub open spec fn is_row_as_json_or_empty_object(
    select: Select,
    row: Select,
    column_alias: ColumnAlias,
    table_alias: TableAlias,
) -> bool {
    &&& is_bare_select(select)
    &&& select.select_list matches SelectList::SelectList(list) && list@.len() == 1 && list@[0].0
        == column_alias && is_call(
        list@[0].1,
        Function::Coalesce,
        seq![row_to_json(table_alias), Expression::Value(Value::EmptyJsonObject)],
    )
    &&& select.from == Some(from_select(row, table_alias))
}

/// `SELECT * FROM <from>`
pub open spec fn is_star_select(select: Select, from: From) -> bool {
    &&& is_bare_select(select)
    &&& select.select_list == SelectList::SelectStar
    &&& select.from == Some(from)
}

// Empty clauses //

/// An empty `WITH` clause.
pub fn empty_with() -> (with: With)
    ensures
        is_empty_with(with),
{
    With { recursive: false, common_table_expressions: Vec::new() }
}

/// Add a `WITH` clause to a select.
pub fn wrap_with(with: With, select: Select) -> (res: Select)
    ensures
        res == (Select { with, ..select }),
{
    let mut select = select;
    select.with = with;
    select
}

/// An empty `WHERE` clause.
pub fn empty_where() -> (expression: Expression)
    ensures
        expression == true_literal(),
{
    Expression::Value(Value::Bool(true))
}

/// An empty `GROUP BY` clause.
pub fn empty_group_by() -> (group_by: GroupBy)
    ensures
        group_by == (GroupBy {}),
{
    GroupBy {}
}

/// An empty `ORDER BY` clause.
pub fn empty_order_by() -> (order_by: OrderBy)
    ensures
        is_empty_order_by(order_by),
{
    OrderBy { elements: Vec::new() }
}

/// Empty `LIMIT` and `OFFSET` clauses.
pub fn empty_limit() -> (limit: Limit)
    ensures
        is_empty_limit(limit),
{
    Limit { limit: None, offset: None }
}

/// A `true` expression.
pub fn true_expr() -> (expression: Expression)
    ensures
        expression == true_literal(),
{
    Expression::Value(Value::Bool(true))
}

/// A `false` expression.
pub fn false_expr() -> (expression: Expression)
    ensures
        expression == Expression::Value(Value::Bool(false)),
{
    Expression::Value(Value::Bool(false))
}

// Aliasing //

/// Generate a column expression refering to a specific table.
pub fn make_column(table: TableName, name: String, alias: ColumnAlias) -> (res: (
    ColumnAlias,
    Expression,
))
    ensures
        res == (alias, Expression::ColumnName(ColumnName::TableColumn { table, name })),
{
    (alias, Expression::ColumnName(ColumnName::TableColumn { table, name }))
}

/// Create column aliases using this function so we build everything in one place.
pub fn make_column_alias(name: String) -> (alias: ColumnAlias)
    ensures
        alias == (ColumnAlias { unique_index: 0, name }),
{
    ColumnAlias { unique_index: 0, name }
}

/// Create table aliases using this function so we build everything in one place.
pub fn make_table_alias(name: String) -> (alias: TableAlias)
    ensures
        alias == (TableAlias { unique_index: 0, name }),
{
    TableAlias { unique_index: 0, name }
}

/// The name `<prefix><index>_<name>`, used for aliases that must be told apart by an index.
pub open spec fn indexed_name(prefix: Seq<char>, index: nat, name: Seq<char>) -> Seq<char> {
    prefix + nat_text(index) + "_"@ + name
}

/// Names built from different indexes or different names differ: the index is the run of
/// digits after the prefix, up to the first `_`. So the aliases drawn from a counter, one
/// number after another, never clash.
pub proof fn indexed_names_differ(prefix: Seq<char>, i: nat, a: Seq<char>, j: nat, b: Seq<char>)
    requires
        i != j || a != b,
    ensures
        indexed_name(prefix, i, a) != indexed_name(prefix, j, b),
{
    reveal_strlit("_");
    if indexed_name(prefix, i, a) == indexed_name(prefix, j, b) {
        let (x, y) = (indexed_name(prefix, i, a), indexed_name(prefix, j, b));
        let (ti, tj) = (nat_text(i), nat_text(j));
        lemma_nat_text_digits(i);
        lemma_nat_text_digits(j);
        let p = prefix.len() as int;
        if ti.len() < tj.len() {
            assert(x[p + ti.len()] == '_');
            assert(y[p + ti.len()] == tj[ti.len() as int]);
            assert(is_digit(tj[ti.len() as int]));
        } else if tj.len() < ti.len() {
            assert(y[p + tj.len()] == '_');
            assert(x[p + tj.len()] == ti[tj.len() as int]);
            assert(is_digit(ti[tj.len() as int]));
        } else {
            assert(ti =~= x.subrange(p, p + ti.len()));
            assert(tj =~= y.subrange(p, p + tj.len()));
            lemma_nat_text_injective(i, j);
            assert(a =~= x.subrange(p + ti.len() + 1, x.len() as int));
            assert(b =~= y.subrange(p + tj.len() + 1, y.len() as int));
        }
    }
}

/// `alias` is a table alias with the name `name`.
pub open spec fn alias_named(alias: TableAlias, name: Seq<char>) -> bool {
    alias.unique_index == 0 && alias.name@ == name
}

/// A table alias named `<prefix><index>_<name>`.
fn make_indexed_table_alias(prefix: &str, index: u64, name: &String) -> (alias: TableAlias)
    ensures
        alias_named(alias, indexed_name(prefix@, index as nat, name@)),
{
    proof { reveal_strlit("_"); }
    let text = String::from_str(prefix);
    let text = text.concat(u64_to_text(index).as_str());
    let text = text.concat("_");
    let text = text.concat(name.as_str());
    assert(text@ =~= indexed_name(prefix@, index as nat, name@));
    make_table_alias(text)
}

/// A fresh table alias for a table reached from a boolean expression, numbered by
/// `next_free_name`, which moves on to the next number.
pub fn make_boolean_expression_table_alias(next_free_name: &mut u32, name: &String) -> (alias:
    TableAlias)
    requires
        *old(next_free_name) < u32::MAX,
    ensures
        *final(next_free_name) == *old(next_free_name) + 1,
        alias_named(alias, indexed_name("BOOLEXP_"@, *old(next_free_name) as nat, name@)),
{
    proof { reveal_strlit("BOOLEXP_"); }
    let alias = make_indexed_table_alias("BOOLEXP_", *next_free_name as u64, name);
    *next_free_name = *next_free_name + 1;
    alias
}

/// The alias of the table of the `index`-th relationship of an order by path.
pub fn make_order_path_part_table_alias(index: usize, table_name: &String) -> (alias: TableAlias)
    ensures
        alias_named(alias, indexed_name("ORDER_PART_"@, index as nat, table_name@)),
{
    proof { reveal_strlit("ORDER_PART_"); }
    make_indexed_table_alias("ORDER_PART_", index as u64, table_name)
}

/// The alias of the join that selects the `index`-th order by column of a table.
pub fn make_order_by_table_alias(index: usize, source_table_name: &String) -> (alias: TableAlias)
    ensures
        alias_named(alias, indexed_name("ORDER_FOR_"@, index as nat, source_table_name@)),
{
    proof { reveal_strlit("ORDER_FOR_"); }
    make_indexed_table_alias("ORDER_FOR_", index as u64, source_table_name)
}

/// The alias of the join that counts the rows for the `index`-th order by element of a
/// table.
pub fn make_order_by_count_table_alias(index: usize, source_table_name: &String) -> (alias:
    TableAlias)
    ensures
        alias_named(alias, indexed_name("ORDER_COUNT_FOR_"@, index as nat, source_table_name@)),
{
    proof { reveal_strlit("ORDER_COUNT_FOR_"); }
    make_indexed_table_alias("ORDER_COUNT_FOR_", index as u64, source_table_name)
}

/// A table with the `public` schema.
impl TableName {
    pub fn public_table(tablename: String) -> (table: TableName)
        ensures
            table matches TableName::DBTable { schema, table: t } && schema@ == "public"@ && t
                == tablename,
    {
        TableName::DBTable { schema: String::from_str("public"), table: tablename }
    }

    /// A table with the `public` schema.
    pub fn from_public(tablename: String) -> (table: TableName)
        ensures
            table matches TableName::DBTable { schema, table: t } && schema@ == "public"@ && t
                == tablename,
    {
        TableName::public_table(tablename)
    }
}

// SELECTs //

/// Build a select whose clauses are all empty but for the given select list.
fn bare_select(select_list: SelectList, from: Option<From>) -> (select: Select)
    ensures
        is_bare_select(select),
        select.select_list == select_list,
        select.from == from,
{
    Select {
        with: empty_with(),
        select_list,
        from,
        joins: Vec::new(),
        where_: Where(empty_where()),
        group_by: empty_group_by(),
        order_by: empty_order_by(),
        limit: empty_limit(),
    }
}

/// Build a simple 'SELECT (exp).*'
pub fn select_composite(exp: Expression) -> (select: Select)
    ensures
        is_bare_select(select),
        select.select_list == SelectList::SelectStarComposite(exp),
        select.from is None,
{
    bare_select(SelectList::SelectStarComposite(exp), None)
}

/// Build a simple select with a select list and the rest are empty.
pub fn simple_select(select_list: Vec<(ColumnAlias, Expression)>) -> (select: Select)
    ensures
        is_select_of(select, select_list@, None),
        select.select_list == SelectList::SelectList(select_list),
{
    bare_select(SelectList::SelectList(select_list), None)
}

/// Build a simple select *
pub fn star_select(from: From) -> (select: Select)
    ensures
        is_star_select(select, from),
{
    bare_select(SelectList::SelectStar, Some(from))
}

/// Build a simple select <table>.*
pub fn star_from_select(table: TableName, from: From) -> (select: Select)
    ensures
        is_bare_select(select),
        select.select_list == SelectList::SelectStarFrom(table),
        select.from == Some(from),
{
    bare_select(SelectList::SelectStarFrom(table), Some(from))
}

/// Generate an EXISTS where expression.
pub fn where_exists_select(from: From, joins: Vec<Join>, where_: Where) -> (expression: Expression)
    ensures
        expression matches Expression::Exists { select } && is_empty_with(select.with)
            && select.select_list == SelectList::Select1 && select.from == Some(from)
            && select.joins == joins && select.where_ == where_ && is_empty_order_by(
            select.order_by,
        ) && is_empty_limit(select.limit),
{
    Expression::Exists {
        select: Box::new(
            Select {
                with: empty_with(),
                select_list: SelectList::Select1,
                from: Some(from),
                joins,
                where_,
                group_by: empty_group_by(),
                order_by: empty_order_by(),
                limit: empty_limit(),
            },
        ),
    }
}

/// Wrap an expression in `coalesce(json_agg(<expr>), '[]')`.
fn wrap_in_json_agg(expression: Expression) -> (res: Expression)
    ensures
        is_json_agg_or_empty(res, expression),
{
    let ghost e = expression;
    let res = Expression::FunctionCall {
        function: Function::Coalesce,
        args: vec![
            Expression::FunctionCall { function: Function::JsonAgg, args: vec![expression] },
            Expression::Value(Value::EmptyJsonArray),
        ],
    };
    assert(res->args@[0]->args@ =~= seq![e]);
    res
}

/// Turn all rows of a query result into a single json array of objects.
///
/// Wrap a query that returns multiple rows in the following format:
///
/// ```sql
/// SELECT
///   coalesce(json_agg(row_to_json(<table_alias>)), '[]') AS <column_alias>
/// FROM <query> as <table_alias>
/// ```
pub fn select_rows_as_json(row_select: Select, column_alias: ColumnAlias, table_alias: TableAlias) -> (select: Select)
    ensures
        is_rows_as_json(select, row_select, column_alias, table_alias),
{
    let expression = wrap_in_json_agg(
        Expression::RowToJson(TableName::AliasedTable(table_alias.clone())),
    );
    bare_select(
        SelectList::SelectList(vec![(column_alias, expression)]),
        Some(From::Select { select: Box::new(row_select), alias: table_alias }),
    )
}

/// Wrap a query in `SELECT coalesce(json_agg(row_to_json(<table_alias>)), '[]') AS <column_alias>
/// FROM <query> as <table_alias>`.
pub fn select_table_as_json_array(select: Select, column_alias: ColumnAlias, table_alias: TableAlias) -> (res: Select)
    ensures
        is_rows_as_json(res, select, column_alias, table_alias),
{
    select_rows_as_json(select, column_alias, table_alias)
}

/// Wrap a query that returns a single row in the following:
///
/// ```sql
/// SELECT
///   coalesce(row_to_json(<table_alias>), '{}'::json) AS <column_alias>
/// FROM <query> as <table_alias>
/// ```
///
/// - `row_to_json` takes a row and converts it to a json object.
/// - `coalesce(<thing>, <otherwise>)` returns `<thing>` if it is not null, and `<otherwise>`
///   if it is null: an empty object when the query has no row.
pub fn select_row_as_json_with_default(
    select: Select,
    column_alias: ColumnAlias,
    table_alias: TableAlias,
) -> (res: Select)
    ensures
        is_row_as_json_or_empty_object(res, select, column_alias, table_alias),
{
    let ghost ta = table_alias;
    let expression = Expression::FunctionCall {
        function: Function::Coalesce,
        args: vec![
            Expression::RowToJson(TableName::AliasedTable(table_alias.clone())),
            Expression::Value(Value::EmptyJsonObject),
        ],
    };
    assert(expression->args@ =~= seq![
        row_to_json(ta),
        Expression::Value(Value::EmptyJsonObject),
    ]);
    bare_select(
        SelectList::SelectList(vec![(column_alias, expression)]),
        Some(From::Select { select: Box::new(select), alias: table_alias }),
    )
}

/// The aggregates part of a row set:
///
/// ```sql
/// SELECT
///   coalesce(row_to_json(<table_alias>), '[]') AS <column_alias>
/// FROM <query> as <table_alias>
/// ```
fn select_aggregates_as_json(
    select: Select,
    column_alias: ColumnAlias,
    table_alias: TableAlias,
) -> (res: Select)
    ensures
        is_row_as_json_with_default(res, select, column_alias, table_alias),
{
    let ghost ta = table_alias;
    let expression = Expression::FunctionCall {
        function: Function::Coalesce,
        args: vec![
            Expression::RowToJson(TableName::AliasedTable(table_alias.clone())),
            Expression::Value(Value::EmptyJsonArray),
        ],
    };
    assert(expression->args@ =~= seq![
        row_to_json(ta),
        Expression::Value(Value::EmptyJsonArray),
    ]);
    bare_select(
        SelectList::SelectList(vec![(column_alias, expression)]),
        Some(From::Select { select: Box::new(select), alias: table_alias }),
    )
}

/// Wrap a query in
///
/// > SELECT
/// >   json_build_object('rows', coalesce(json_agg(row_to_json(<table_alias>)), '[]')) AS <column_alias>
/// > FROM <query> as <table_alias>
///
/// which looks like `{ "rows": [ {<row>}, ... ] }`.
pub fn select_table_as_json_array_in_rows_object(
    select: Select,
    column_alias: ColumnAlias,
    table_alias: TableAlias,
) -> (res: Select)
    ensures
        is_bare_select(res),
        res.select_list matches SelectList::SelectList(list) && list@.len() == 1 && list@[0].0
            == column_alias && (list@[0].1 matches Expression::JsonBuildObject(items)
            && items@.len() == 1 && items@[0].0@ == "rows"@ && is_json_agg_or_empty(
            *items@[0].1,
            row_to_json(table_alias),
        )),
        res.from == Some(from_select(select, table_alias)),
{
    let rows = wrap_in_json_agg(
        Expression::RowToJson(TableName::AliasedTable(table_alias.clone())),
    );
    let object = Expression::JsonBuildObject(vec![(String::from_str("rows"), Box::new(rows))]);
    bare_select(
        SelectList::SelectList(vec![(column_alias, object)]),
        Some(From::Select { select: Box::new(select), alias: table_alias }),
    )
}

/// Wrap a query in `SELECT row_to_json(<table_alias>) AS <column_alias> FROM <query> as <table_alias>`.
///
/// This is used in relationships where we expect a single row OR null.
pub fn select_row_as_json(select: Select, column_alias: ColumnAlias, table_alias: TableAlias) -> (res: Select)
    ensures
        is_select_of(
            res,
            seq![(column_alias, row_to_json(table_alias))],
            Some(from_select(select, table_alias)),
        ),
{
    let ghost ca = column_alias;
    let ghost ta = table_alias;
    let list = vec![(column_alias, Expression::RowToJson(TableName::AliasedTable(table_alias.clone())))];
    assert(list@ =~= seq![(ca, row_to_json(ta))]);
    bare_select(
        SelectList::SelectList(list),
        Some(From::Select { select: Box::new(select), alias: table_alias }),
    )
}

/// Wrap an existing select in `row_to_json` and `json_agg`:
/// `SELECT coalesce(json_agg(row_to_json(<table_alias>)), '[]') AS <column_alias>
/// FROM (<select>) AS <table_alias>`, with the empty array given as a string parameter.
pub fn select_as_json(select: Select, column_alias: ColumnAlias, table_alias: TableAlias) -> (res: Select)
    ensures
        is_bare_select(res),
        res.select_list matches SelectList::SelectList(list) && list@.len() == 1 && list@[0].0
            == column_alias && (list@[0].1 matches Expression::FunctionCall { function, args }
            && function == Function::Coalesce && args@.len() == 2 && is_call(
            args@[0],
            Function::JsonAgg,
            seq![row_to_json(table_alias)],
        ) && (args@[1] matches Expression::Value(Value::String(s)) && s@ == "[]"@)),
        res.from == Some(from_select(select, table_alias)),
{
    let ghost ta = table_alias;
    let expression = Expression::FunctionCall {
        function: Function::Coalesce,
        args: vec![
            Expression::FunctionCall {
                function: Function::JsonAgg,
                args: vec![Expression::RowToJson(TableName::AliasedTable(table_alias.clone()))],
            },
            Expression::Value(Value::String(String::from_str("[]"))),
        ],
    };
    assert(expression->args@[0]->args@ =~= seq![row_to_json(ta)]);
    bare_select(
        SelectList::SelectList(vec![(column_alias, expression)]),
        Some(From::Select { select: Box::new(select), alias: table_alias }),
    )
}

/// The select star over the json rows of `row_select`, with the aggregates of `aggregate_select`
/// cross joined, as described by `select_set`.
pub open spec fn is_rowset_body(
    body: Select,
    select_set: SelectSet,
    row: (TableAlias, ColumnAlias),
    aggregate: (TableAlias, ColumnAlias),
) -> bool {
    &&& is_empty_with(body.with)
    &&& is_rowset_shape(body, select_set, row, aggregate)
}

/// `is_rowset_body` but for the `WITH` clause, which is left open.
pub open spec fn is_rowset_shape(
    body: Select,
    select_set: SelectSet,
    row: (TableAlias, ColumnAlias),
    aggregate: (TableAlias, ColumnAlias),
) -> bool {
    &&& body.select_list == SelectList::SelectStar
    &&& body.where_ == Where(true_literal())
    &&& is_empty_order_by(body.order_by)
    &&& is_empty_limit(body.limit)
    &&& match select_set {
        SelectSet::Rows(rows) => body.joins@.len() == 0 && (body.from matches Some(
            From::Select { select, alias },
        ) && alias == row.0 && is_rows_as_json(*select, rows, row.1, row.0)),
        SelectSet::Aggregates(aggregates) => body.joins@.len() == 0 && (body.from matches Some(
            From::Select { select, alias },
        ) && alias == aggregate.0 && is_row_as_json_with_default(
            *select,
            aggregates,
            aggregate.1,
            aggregate.0,
        )),
        SelectSet::RowsAndAggregates(rows, aggregates) => body.from matches Some(
            From::Select { select, alias },
        ) && alias == row.0 && is_rows_as_json(*select, rows, row.1, row.0) && body.joins@.len()
            == 1 && (body.joins@[0] matches Join::CrossJoin(join) && join.alias == aggregate.0
            && is_row_as_json_with_default(*join.select, aggregates, aggregate.1, aggregate.0)),
    }
}

/// Build the select star over the rows and aggregates of `select_set`.
fn rowset_body(
    row_table_alias: TableAlias,
    row_column_alias: ColumnAlias,
    aggregate_table_alias: TableAlias,
    aggregate_column_alias: ColumnAlias,
    select_set: SelectSet,
) -> (body: Select)
    ensures
        is_rowset_body(
            body,
            select_set,
            (row_table_alias, row_column_alias),
            (aggregate_table_alias, aggregate_column_alias),
        ),
{
    match select_set {
        SelectSet::Rows(row_select) => star_select(
            From::Select {
                alias: row_table_alias.clone(),
                select: Box::new(select_rows_as_json(row_select, row_column_alias, row_table_alias)),
            },
        ),
        SelectSet::Aggregates(aggregate_select) => star_select(
            From::Select {
                alias: aggregate_table_alias.clone(),
                select: Box::new(
                    select_aggregates_as_json(
                        aggregate_select,
                        aggregate_column_alias,
                        aggregate_table_alias,
                    ),
                ),
            },
        ),
        SelectSet::RowsAndAggregates(row_select, aggregate_select) => {
            let mut select_star = star_select(
                From::Select {
                    alias: row_table_alias.clone(),
                    select: Box::new(
                        select_rows_as_json(row_select, row_column_alias, row_table_alias),
                    ),
                },
            );
            select_star.joins = vec![
                Join::CrossJoin(
                    CrossJoin {
                        select: Box::new(
                            select_aggregates_as_json(
                                aggregate_select,
                                aggregate_column_alias,
                                aggregate_table_alias.clone(),
                            ),
                        ),
                        alias: aggregate_table_alias,
                    },
                ),
            ];
            select_star
        },
    }
}

/// given a set of rows and aggregate queries, combine them into
/// one Select
/// > SELECT row_to_json(<output_table_alias>) AS <output_column_alias>
/// > FROM (
/// >   SELECT *
/// >     FROM (
/// >       SELECT coalesce(json_agg(row_to_json(<row_table_alias>)), '[]') AS <row_column_alias>
/// >         FROM (<row_select>) AS <row_table_alias>
/// >       ) AS <row_table_alias>
/// >         CROSS JOIN (
/// >           SELECT coalesce(row_to_json(<aggregate_table_alias>), '[]') AS <aggregate_column_alias>
/// >             FROM (<aggregate_select>) AS <aggregate_table_alias>
/// >           ) AS <aggregate_table_alias>
/// >        ) AS <output_table_alias>
///
/// The `row_select` and `aggregate_set` will not be included if they are not relevant
pub fn select_rowset(
    output_column_alias: ColumnAlias,
    output_table_alias: TableAlias,
    row_table_alias: TableAlias,
    row_column_alias: ColumnAlias,
    aggregate_table_alias: TableAlias,
    aggregate_column_alias: ColumnAlias,
    select_set: SelectSet,
) -> (select: Select)
    ensures
        is_bare_select(select),
        select.select_list matches SelectList::SelectList(list) && list@ == seq![
            (output_column_alias, row_to_json(output_table_alias)),
        ],
        select.from matches Some(From::Select { select: body, alias }) && alias
            == output_table_alias && is_rowset_body(
            *body,
            select_set,
            (row_table_alias, row_column_alias),
            (aggregate_table_alias, aggregate_column_alias),
        ),
{
    let ghost oc = output_column_alias;
    let ghost ot = output_table_alias;
    let row = vec![
        (
            output_column_alias,
            Expression::RowToJson(TableName::AliasedTable(output_table_alias.clone())),
        ),
    ];
    assert(row@ =~= seq![(oc, row_to_json(ot))]);
    let body = rowset_body(
        row_table_alias,
        row_column_alias,
        aggregate_table_alias,
        aggregate_column_alias,
        select_set,
    );
    bare_select(
        SelectList::SelectList(row),
        Some(From::Select { alias: output_table_alias, select: Box::new(body) }),
    )
}

/// given a set of rows and aggregate queries, combine them into one Select.
///
/// ```sql
/// SELECT row_to_json(<output_table_alias>) AS <output_column_alias>
/// FROM (
///   SELECT *
///     FROM (
///       SELECT coalesce(json_agg(row_to_json(<row_table_alias>)), '[]') AS <row_column_alias>
///         FROM (<row_select>) AS <row_table_alias>
///     ) AS <row_table_alias>
///     CROSS JOIN (
///       SELECT coalesce(row_to_json(<aggregate_table_alias>), '[]') AS <aggregate_column_alias>
///       FROM (<aggregate_select>) AS <aggregate_table_alias>
///     ) AS <aggregate_table_alias>
/// ) AS <output_table_alias>
/// ```
///
/// With `AggregateResults`, the output row is further wrapped in
/// `coalesce(json_agg(...), '[]')`.
pub fn select_rowset_without_variables(
    return_results: ResultsKind,
    output: (TableAlias, ColumnAlias),
    row: (TableAlias, ColumnAlias),
    aggregate: (TableAlias, ColumnAlias),
    select_set: SelectSet,
) -> (select: Select)
    ensures
        is_bare_select(select),
        select.select_list matches SelectList::SelectList(list) && list@.len() == 1 && list@[0].0
            == output.1 && match return_results {
            ResultsKind::AggregateResults => is_json_agg_or_empty(
                list@[0].1,
                row_to_json(output.0),
            ),
            ResultsKind::ObjectResults => list@[0].1 == row_to_json(output.0),
        },
        select.from matches Some(From::Select { select: body, alias }) && alias == output.0
            && is_rowset_body(*body, select_set, row, aggregate),
{
    let (output_table_alias, output_column_alias) = output;
    let (row_table_alias, row_column_alias) = row;
    let (aggregate_table_alias, aggregate_column_alias) = aggregate;
    let out = Expression::RowToJson(TableName::AliasedTable(output_table_alias.clone()));
    let out = match return_results {
        ResultsKind::AggregateResults => wrap_in_json_agg(out),
        ResultsKind::ObjectResults => out,
    };
    let body = rowset_body(
        row_table_alias,
        row_column_alias,
        aggregate_table_alias,
        aggregate_column_alias,
        select_set,
    );
    bare_select(
        SelectList::SelectList(vec![(output_column_alias, out)]),
        Some(From::Select { alias: output_table_alias, select: Box::new(body) }),
    )
}

/// Given a set of rows, a set of aggregate queries and a variables from clause & table reference,
/// combine them into one Select.
///
/// ```sql
/// SELECT coalesce(json_agg(<output_agg_table_alias>.<output_column_alias>), '[]') AS <output_column_alias>
/// FROM
///   ( SELECT row_to_json(<output_table_alias>) AS <output_column_alias>
///     FROM
///       <variables_table>
///     CROSS JOIN
///       (
///         WITH <with>
///         SELECT
///           *
///         FROM
///           (
///             SELECT
///               coalesce(json_agg(row_to_json(<row_table_alias>)), '[]') AS <row_column_alias>
///             FROM (<row_select>) AS <row_table_alias>
///           ) AS <row_table_alias>
///         CROSS JOIN
///           (
///             SELECT
///               coalesce(row_to_json(<aggregate_table_alias>), '[]') AS <aggregate_column_alias>
///             FROM (<aggregate_select>) AS <aggregate_table_alias>
///           ) AS <aggregate_table_alias>
///       ) AS <output_table_alias>
///     ORDER BY <variables_table_reference>."%variable_order" ASC
///   ) AS <output_agg_table_alias>
/// ```
///
/// The `row_select` and `aggregate_set` will not be included if they are not relevant.
///
/// The `json_agg` and the `row_to_json` stand in different selects, so that the json rows are
/// ordered by the variable order before they are aggregated.
pub fn select_rowset_with_variables(
    with: With,
    output: (TableAlias, ColumnAlias),
    row: (TableAlias, ColumnAlias),
    aggregate: (TableAlias, ColumnAlias),
    variables: (From, TableName),
    output_agg_table_alias: &TableAlias,
    select_set: SelectSet,
) -> (select: Select)
    ensures
        is_bare_select(select),
        select.select_list matches SelectList::SelectList(list) && list@.len() == 1 && list@[0].0
            == output.1 && is_json_agg_or_empty(
            list@[0].1,
            Expression::ColumnName(
                ColumnName::AliasedColumn {
                    table: TableName::AliasedTable(*output_agg_table_alias),
                    name: output.1,
                },
            ),
        ),
        select.from matches Some(From::Select { select: inner, alias }) && alias
            == *output_agg_table_alias && ({
            &&& is_empty_with(inner.with)
            &&& inner.select_list matches SelectList::SelectList(l) && l@ == seq![
                (output.1, row_to_json(output.0)),
            ]
            &&& inner.from == Some(variables.0)
            &&& inner.where_ == Where(true_literal())
            &&& is_empty_limit(inner.limit)
            &&& inner.order_by.elements@.len() == 1
            &&& inner.order_by.elements@[0].direction == OrderByDirection::Asc
            &&& inner.order_by.elements@[0].target matches Expression::ColumnName(
                ColumnName::AliasedColumn { table, name },
            ) && table == variables.1 && name.unique_index == 0 && name.name@
                == VARIABLE_ORDER_FIELD@
            &&& inner.joins@.len() == 1
            &&& inner.joins@[0] matches Join::CrossJoin(j) && j.alias == output.0
                && j.select.with == with && is_rowset_shape(*j.select, select_set, row, aggregate)
        }),
{
    let (output_table_alias, output_column_alias) = output;
    let (row_table_alias, row_column_alias) = row;
    let (aggregate_table_alias, aggregate_column_alias) = aggregate;
    let (variables_table, variables_table_reference) = variables;
    let ghost oc = output_column_alias;
    let ghost ot = output_table_alias;
    let list = vec![
        (
            output_column_alias.clone(),
            Expression::RowToJson(TableName::AliasedTable(output_table_alias.clone())),
        ),
    ];
    assert(list@ =~= seq![(oc, row_to_json(ot))]);
    let mut final_select = bare_select(SelectList::SelectList(list), Some(variables_table));
    let order_by = OrderBy {
        elements: vec![
            OrderByElement {
                target: Expression::ColumnName(
                    ColumnName::AliasedColumn {
                        table: variables_table_reference,
                        name: make_column_alias(String::from_str(VARIABLE_ORDER_FIELD)),
                    },
                ),
                direction: OrderByDirection::Asc,
            },
        ],
    };
    // the rows and the aggregates both stand inside the select that `row_to_json` serialises.
    let mut select_star = rowset_body(
        row_table_alias,
        row_column_alias,
        aggregate_table_alias,
        aggregate_column_alias,
        select_set,
    );
    select_star.with = with;
    final_select.joins = vec![
        Join::CrossJoin(CrossJoin { select: Box::new(select_star), alias: output_table_alias }),
    ];
    final_select.order_by = order_by;
    let output_agg_row = vec![
        (
            output_column_alias.clone(),
            wrap_in_json_agg(
                Expression::ColumnName(
                    ColumnName::AliasedColumn {
                        table: TableName::AliasedTable(output_agg_table_alias.clone()),
                        name: output_column_alias,
                    },
                ),
            ),
        ),
    ];
    bare_select(
        SelectList::SelectList(output_agg_row),
        Some(From::Select { alias: output_agg_table_alias.clone(), select: Box::new(final_select) }),
    )
}

/// Whether the query asked for any field, which decides the shape of its rows.
#[derive(Debug, Clone, Copy, PartialEq, Eq)]
pub enum ReturnsFields {
    FieldsWereRequested,
    NoFieldsWereRequested,
}

/// `ARRAY_AGG(<table>)`
pub open spec fn is_array_agg_of(expression: Expression, table: TableAlias) -> bool {
    is_call(expression, Function::ArrayAgg, seq![Expression::TableReference(TableName::AliasedTable(table))])
}

/// `coalesce(ARRAY_AGG(<table>), [])`
pub open spec fn is_array_agg_or_empty(expression: Expression, table: TableAlias) -> bool {
    expression matches Expression::FunctionCall { function, args } && function == Function::Coalesce
        && args@.len() == 2 && is_array_agg_of(args@[0], table) && (args@[1] matches Expression::ArrayConstructor(
        items,
    ) && items@.len() == 0)
}

/// `FROM (SELECT * FROM (<select>) AS <inner>) AS <outer>`
pub open spec fn is_from_star_of(from: Option<From>, outer: TableAlias, inner: TableAlias, select: Select) -> bool {
    from matches Some(From::Select { select: star, alias }) && alias == outer && is_star_select(
        *star,
        From::Select { select: Box::new(select), alias: inner },
    )
}

/// The row set of a query as a single json object, built with arrays:
///
/// - rows alone: `SELECT json_build_object('rows', coalesce(ARRAY_AGG(<row table>), [])) AS
///   <output column>`, from the rows as `SELECT * FROM (<rows>) AS <row inner table>` aliased
///   `<row table>` when fields were requested, and else from
///   `SELECT json_build_object() AS <row table> FROM (<rows>) AS <row inner table>` aliased
///   `<row inner table>`;
/// - aggregates alone: `SELECT json_build_object('aggregates', <aggregate table>) AS
///   <output column> FROM (<aggregates>) AS <aggregate table>`;
/// - both: `SELECT json_build_object('aggregates', ARRAY_AGG(<aggregate table>)[SAFE_OFFSET(0)],
///   'rows', ARRAY_AGG(<row table>)) AS <output column>
///   FROM (SELECT * FROM (<rows>) AS <row inner table>) AS <row table>
///   CROSS JOIN (SELECT * FROM (<aggregates>) AS <aggregate table>) AS <aggregate table>`.
///   The cross join repeats the aggregates on every row, so the first is taken.
pub fn select_rowset_fields(
    output: (TableAlias, ColumnAlias),
    row: (TableAlias, TableAlias),
    aggregate: (TableAlias, TableAlias),
    select_set: SelectSet,
    returns_field: ReturnsFields,
) -> (s: Select)
    ensures
        is_bare_select(s) || select_set is RowsAndAggregates,
        s.select_list matches SelectList::SelectList(list) && list@.len() == 1 && list@[0].0
            == output.1,
        match select_set {
            SelectSet::Rows(rows) => {
                &&& s.select_list->SelectList_0@[0].1 matches Expression::JsonBuildObject(entries)
                    && entries@.len() == 1 && entries@[0].0@ == "rows"@ && is_array_agg_or_empty(
                    *entries@[0].1,
                    row.0,
                )
                &&& match returns_field {
                    ReturnsFields::FieldsWereRequested => is_from_star_of(s.from, row.0, row.1, rows),
                    ReturnsFields::NoFieldsWereRequested => s.from matches Some(
                        From::Select { select: inner, alias },
                    ) && alias == row.1 && is_bare_select(*inner) && (inner.select_list
                        matches SelectList::SelectList(l) && l@.len() == 1 && l@[0].0 == (ColumnAlias {
                        unique_index: 0,
                        name: row.0.name,
                    }) && (l@[0].1 matches Expression::JsonBuildObject(e) && e@.len() == 0))
                        && inner.from == Some(From::Select { select: Box::new(rows), alias: row.1 }),
                }
            },
            SelectSet::Aggregates(aggregates) => {
                &&& s.select_list->SelectList_0@[0].1 matches Expression::JsonBuildObject(entries)
                    && entries@.len() == 1 && entries@[0].0@ == "aggregates"@ && *entries@[0].1
                    == Expression::TableReference(TableName::AliasedTable(aggregate.0))
                &&& s.from == Some(From::Select { select: Box::new(aggregates), alias: aggregate.0 })
            },
            SelectSet::RowsAndAggregates(rows, aggregates) => {
                &&& s.select_list->SelectList_0@[0].1 matches Expression::JsonBuildObject(entries)
                    && entries@.len() == 2 && entries@[0].0@ == "aggregates"@ && (*entries@[0].1
                    matches Expression::JoinExpressions(parts) && parts@.len() == 2
                    && is_array_agg_of(parts@[0], aggregate.0) && parts@[1]
                    == Expression::SafeOffSet { offset: 0 }) && entries@[1].0@ == "rows"@
                    && is_array_agg_of(*entries@[1].1, row.0)
                &&& is_empty_with(s.with)
                &&& s.where_ == Where(true_literal())
                &&& is_empty_order_by(s.order_by)
                &&& is_empty_limit(s.limit)
                &&& is_from_star_of(s.from, row.0, row.1, rows)
                &&& s.joins@.len() == 1 && (s.joins@[0] matches Join::CrossJoin(j) && j.alias
                    == aggregate.0 && is_star_select(
                    *j.select,
                    From::Select { select: Box::new(aggregates), alias: aggregate.0 },
                ))
            },
        },
{
    let (_output_table_alias, output_column_alias) = output;
    let (row_table_alias, row_inner_table_alias) = row;
    let (aggregate_table_alias, _aggregate_inner_table_alias) = aggregate;
    proof {
        reveal_strlit("rows");
        reveal_strlit("aggregates");
    }
    match select_set {
        SelectSet::Rows(row_select) => {
            let ghost rt = row_table_alias;
            let agg = Expression::FunctionCall {
                function: Function::ArrayAgg,
                args: vec![Expression::TableReference(TableName::AliasedTable(row_table_alias.clone()))],
            };
            assert(agg->args@ =~= seq![Expression::TableReference(TableName::AliasedTable(rt))]);
            let rows_value = Expression::FunctionCall {
                function: Function::Coalesce,
                args: vec![agg, Expression::ArrayConstructor(Vec::new())],
            };
            let json = Expression::JsonBuildObject(
                vec![(String::from_str("rows"), Box::new(rows_value))],
            );
            let from = match returns_field {
                ReturnsFields::FieldsWereRequested => {
                    let star = star_select(
                        From::Select { alias: row_inner_table_alias, select: Box::new(row_select) },
                    );
                    From::Select { alias: row_table_alias, select: Box::new(star) }
                },
                ReturnsFields::NoFieldsWereRequested => {
                    let name = ColumnAlias { unique_index: 0, name: row_table_alias.name };
                    let inner = bare_select(
                        SelectList::SelectList(vec![(name, Expression::JsonBuildObject(Vec::new()))]),
                        Some(
                            From::Select {
                                alias: row_inner_table_alias.clone(),
                                select: Box::new(row_select),
                            },
                        ),
                    );
                    From::Select { alias: row_inner_table_alias, select: Box::new(inner) }
                },
            };
            bare_select(SelectList::SelectList(vec![(output_column_alias, json)]), Some(from))
        },
        SelectSet::Aggregates(aggregate_select) => {
            let json = Expression::JsonBuildObject(
                vec![
                    (
                        String::from_str("aggregates"),
                        Box::new(
                            Expression::TableReference(
                                TableName::AliasedTable(aggregate_table_alias.clone()),
                            ),
                        ),
                    ),
                ],
            );
            bare_select(
                SelectList::SelectList(vec![(output_column_alias, json)]),
                Some(From::Select { alias: aggregate_table_alias, select: Box::new(aggregate_select) }),
            )
        },
        SelectSet::RowsAndAggregates(row_select, aggregate_select) => {
            let ghost rt = row_table_alias;
            let ghost at = aggregate_table_alias;
            let rows_agg = Expression::FunctionCall {
                function: Function::ArrayAgg,
                args: vec![Expression::TableReference(TableName::AliasedTable(row_table_alias.clone()))],
            };
            assert(rows_agg->args@ =~= seq![Expression::TableReference(TableName::AliasedTable(rt))]);
            let aggregates_agg = Expression::FunctionCall {
                function: Function::ArrayAgg,
                args: vec![
                    Expression::TableReference(TableName::AliasedTable(aggregate_table_alias.clone())),
                ],
            };
            assert(aggregates_agg->args@ =~= seq![
                Expression::TableReference(TableName::AliasedTable(at)),
            ]);
            // the cross join repeats the aggregates on every row: take the first.
            let first_aggregates = Expression::JoinExpressions(
                vec![aggregates_agg, Expression::SafeOffSet { offset: 0 }],
            );
            let json = Expression::JsonBuildObject(
                vec![
                    (String::from_str("aggregates"), Box::new(first_aggregates)),
                    (String::from_str("rows"), Box::new(rows_agg)),
                ],
            );
            let rows_star = star_select(
                From::Select { alias: row_inner_table_alias, select: Box::new(row_select) },
            );
            let aggregates_star = star_select(
                From::Select { alias: aggregate_table_alias.clone(), select: Box::new(aggregate_select) },
            );
            let mut final_select = bare_select(
                SelectList::SelectList(vec![(output_column_alias, json)]),
                Some(From::Select { alias: row_table_alias, select: Box::new(rows_star) }),
            );
            final_select.joins = vec![
                Join::CrossJoin(
                    CrossJoin { select: Box::new(aggregates_star), alias: aggregate_table_alias },
                ),
            ];
            final_select
        },
    }
}

/// An unqualified scalar type representing int4.
pub fn int4_type() -> (t: ScalarType)
    ensures
        t matches ScalarType::BaseType(ScalarTypeName::Unqualified(name)) && name@ == "int4"@,
{
    ScalarType::BaseType(ScalarTypeName::Unqualified(String::from_str("int4")))
}

/// An unqualified scalar type representing jsonb.
pub fn jsonb_type() -> (t: ScalarType)
    ensures
        t matches ScalarType::BaseType(ScalarTypeName::Unqualified(name)) && name@ == "jsonb"@,
{
    ScalarType::BaseType(ScalarTypeName::Unqualified(String::from_str("jsonb")))
}

/// An unqualified scalar type name representing text.
pub fn text_type_name() -> (t: ScalarTypeName)
    ensures
        t matches ScalarTypeName::Unqualified(name) && name@ == "text"@,
{
    ScalarTypeName::Unqualified(String::from_str("text"))
}

/// Create a FROM clause for variables.
///
/// Something of the form:
///
/// ```sql
/// FROM
///   jsonb_to_recordset($1) AS "%0_variables"("%variable_order" int4, "%variables" jsonb)
/// ```
pub fn from_variables(alias: TableAlias) -> (from: From)
    ensures
        from matches From::JsonbToRecordset { expression, alias: a, columns } && a == alias
            && columns@.len() == 2 && columns@[0].0.name@ == VARIABLE_ORDER_FIELD@
            && columns@[0].0.unique_index == 0 && columns@[1].0.name@ == VARIABLES_FIELD@
            && columns@[1].0.unique_index == 0 && (expression matches Expression::Value(
            Value::Variable(placeholder),
        ) && placeholder@ == VARIABLES_OBJECT_PLACEHOLDER@) && (columns@[0].1 matches ScalarType::BaseType(
            ScalarTypeName::Unqualified(t0),
        ) && t0@ == "int4"@) && (columns@[1].1 matches ScalarType::BaseType(
            ScalarTypeName::Unqualified(t1),
        ) && t1@ == "jsonb"@),
{
    let expression = Expression::Value(
        Value::Variable(String::from_str(VARIABLES_OBJECT_PLACEHOLDER)),
    );
    let columns: Vec<(ColumnAlias, ScalarType)> = vec![
        (make_column_alias(String::from_str(VARIABLE_ORDER_FIELD)), int4_type()),
        (make_column_alias(String::from_str(VARIABLES_FIELD)), jsonb_type()),
    ];
    From::JsonbToRecordset { expression, alias, columns }
}

} // verus!
