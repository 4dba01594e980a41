use query_engine::sql::ast::{ColumnAlias, Expression, From, Select, TableAlias, TableName, Value, Where};
use query_engine::sql::execution_plan::select_to_sql;
use query_engine::sql::helpers::{
    empty_with, false_expr, from_variables, make_column_alias, make_table_alias, select_as_json,
    select_composite, select_row_as_json, select_row_as_json_with_default,
    select_rowset_with_variables,
    select_rowset_fields, select_rowset_without_variables, select_table_as_json_array,
    select_table_as_json_array_in_rows_object, simple_select, star_from_select, star_select,
    where_exists_select, wrap_with, ResultsKind, ReturnsFields, SelectSet,
};
use query_engine::sql::string::Param;

fn table(name: &str) -> From {
    From::Table {
        name: TableName::public_table(name.to_string()),
        alias: make_table_alias(name.to_string()),
    }
}

fn sql(select: &Select) -> String {
    select_to_sql(select).sql
}

fn aliases(name: &str) -> (TableAlias, ColumnAlias) {
    (make_table_alias(name.to_string()), make_column_alias(name.to_string()))
}

fn album() -> Select {
    star_select(table("Album"))
}

fn column_c() -> ColumnAlias {
    make_column_alias("c".to_string())
}

fn table_t() -> TableAlias {
    make_table_alias("t".to_string())
}

#[test]
fn json_wrappers() {
    assert_eq!(
        sql(&select_table_as_json_array(album(), column_c(), table_t())),
        "SELECT coalesce(json_agg(row_to_json(\"t\")), '[]') AS \"c\" FROM (SELECT * FROM \"public\".\"Album\" AS \"Album\") AS \"t\""
    );
    assert_eq!(
        sql(&select_row_as_json(album(), column_c(), table_t())),
        "SELECT row_to_json(\"t\") AS \"c\" FROM (SELECT * FROM \"public\".\"Album\" AS \"Album\") AS \"t\""
    );
    assert_eq!(
        sql(&select_table_as_json_array_in_rows_object(album(), column_c(), table_t())),
        "SELECT json_build_object('rows', coalesce(json_agg(row_to_json(\"t\")), '[]')) AS \"c\" FROM (SELECT * FROM \"public\".\"Album\" AS \"Album\") AS \"t\""
    );
    assert_eq!(
        sql(&select_row_as_json_with_default(album(), column_c(), table_t())),
        "SELECT coalesce(row_to_json(\"t\"), '{}'::json) AS \"c\" FROM (SELECT * FROM \"public\".\"Album\" AS \"Album\") AS \"t\""
    );
    let rendered = select_to_sql(&select_as_json(album(), column_c(), table_t()));
    assert_eq!(
        rendered.sql,
        "SELECT coalesce(json_agg(row_to_json(\"t\")), $1) AS \"c\" FROM (SELECT * FROM \"public\".\"Album\" AS \"Album\") AS \"t\""
    );
    assert_eq!(rendered.params, vec![Param::String("[]".to_string())]);
}

#[test]
fn small_selects() {
    assert_eq!(
        sql(&star_from_select(TableName::public_table("Album".to_string()), table("Album"))),
        "SELECT \"public\".\"Album\".* FROM \"public\".\"Album\" AS \"Album\""
    );
    assert_eq!(sql(&select_composite(false_expr())), "SELECT (false).* ");
    let exists =
        where_exists_select(table("Album"), vec![], Where(Expression::Value(Value::Bool(true))));
    assert_eq!(
        sql(&simple_select(vec![(make_column_alias("e".to_string()), exists)])),
        "SELECT EXISTS (SELECT 1 FROM \"public\".\"Album\" AS \"Album\") AS \"e\" "
    );
    assert_eq!(sql(&wrap_with(empty_with(), album())), "SELECT * FROM \"public\".\"Album\" AS \"Album\"");
}

#[test]
fn rowset_of_rows_and_aggregates() {
    let select = select_rowset_without_variables(
        ResultsKind::AggregateResults,
        aliases("universe"),
        aliases("rows"),
        aliases("aggregates"),
        SelectSet::RowsAndAggregates(album(), star_select(table("Artist"))),
    );
    assert_eq!(
        sql(&select),
        "SELECT coalesce(json_agg(row_to_json(\"universe\")), '[]') AS \"universe\" FROM (SELECT * FROM (SELECT coalesce(json_agg(row_to_json(\"rows\")), '[]') AS \"rows\" FROM (SELECT * FROM \"public\".\"Album\" AS \"Album\") AS \"rows\") AS \"rows\" CROSS JOIN (SELECT coalesce(row_to_json(\"aggregates\"), '[]') AS \"aggregates\" FROM (SELECT * FROM \"public\".\"Artist\" AS \"Artist\") AS \"aggregates\") AS \"aggregates\") AS \"universe\""
    );
}

#[test]
fn rowset_over_variable_sets() {
    let variables = make_table_alias("%0_variables".to_string());
    let select = select_rowset_with_variables(
        empty_with(),
        aliases("universe"),
        aliases("rows"),
        aliases("aggregates"),
        (from_variables(variables), TableName::AliasedTable(make_table_alias("%0_variables".to_string()))),
        &make_table_alias("universe_agg".to_string()),
        SelectSet::Rows(album()),
    );
    let rendered = select_to_sql(&select);
    assert_eq!(
        rendered.sql,
        "SELECT coalesce(json_agg(\"universe_agg\".\"universe\"), '[]') AS \"universe\" FROM (SELECT row_to_json(\"universe\") AS \"universe\" FROM jsonb_to_recordset($1) AS \"%0_variables\"(\"%variable_order\" int4, \"%variables\" jsonb) CROSS JOIN (SELECT * FROM (SELECT coalesce(json_agg(row_to_json(\"rows\")), '[]') AS \"rows\" FROM (SELECT * FROM \"public\".\"Album\" AS \"Album\") AS \"rows\") AS \"rows\") AS \"universe\" ORDER BY \"%0_variables\".\"%variable_order\" ASC ) AS \"universe_agg\""
    );
    assert_eq!(rendered.params, vec![Param::Variable("%VARIABLES_OBJECT_PLACEHOLDER".to_string())]);
}

#[test]
fn rowset_over_variable_sets_with_aggregates() {
    let select = select_rowset_with_variables(
        empty_with(),
        aliases("universe"),
        aliases("rows"),
        aliases("aggregates"),
        (
            from_variables(make_table_alias("%0_variables".to_string())),
            TableName::AliasedTable(make_table_alias("%0_variables".to_string())),
        ),
        &make_table_alias("universe_agg".to_string()),
        SelectSet::RowsAndAggregates(album(), star_select(table("Artist"))),
    );
    // the aggregates stand inside the subquery that `row_to_json("universe")` serialises
    assert_eq!(
        sql(&select),
        "SELECT coalesce(json_agg(\"universe_agg\".\"universe\"), '[]') AS \"universe\" FROM (SELECT row_to_json(\"universe\") AS \"universe\" FROM jsonb_to_recordset($1) AS \"%0_variables\"(\"%variable_order\" int4, \"%variables\" jsonb) CROSS JOIN (SELECT * FROM (SELECT coalesce(json_agg(row_to_json(\"rows\")), '[]') AS \"rows\" FROM (SELECT * FROM \"public\".\"Album\" AS \"Album\") AS \"rows\") AS \"rows\" CROSS JOIN (SELECT coalesce(row_to_json(\"aggregates\"), '[]') AS \"aggregates\" FROM (SELECT * FROM \"public\".\"Artist\" AS \"Artist\") AS \"aggregates\") AS \"aggregates\") AS \"universe\" ORDER BY \"%0_variables\".\"%variable_order\" ASC ) AS \"universe_agg\""
    );
}

fn pair(outer: &str, inner: &str) -> (TableAlias, TableAlias) {
    (make_table_alias(outer.to_string()), make_table_alias(inner.to_string()))
}

#[test]
fn rowset_fields_of_rows() {
    let rows = |returns| {
        sql(&select_rowset_fields(
            aliases("universe"),
            pair("rows", "rows_inner"),
            pair("aggregates", "aggregates_inner"),
            SelectSet::Rows(album()),
            returns,
        ))
    };
    assert_eq!(
        rows(ReturnsFields::FieldsWereRequested),
        "SELECT json_build_object('rows', coalesce(ARRAY_AGG(\"rows\"), [])) AS \"universe\" FROM (SELECT * FROM (SELECT * FROM \"public\".\"Album\" AS \"Album\") AS \"rows_inner\") AS \"rows\""
    );
    assert_eq!(
        rows(ReturnsFields::NoFieldsWereRequested),
        "SELECT json_build_object('rows', coalesce(ARRAY_AGG(\"rows\"), [])) AS \"universe\" FROM (SELECT json_build_object() AS \"rows\" FROM (SELECT * FROM \"public\".\"Album\" AS \"Album\") AS \"rows_inner\") AS \"rows_inner\""
    );
}

#[test]
fn rowset_fields_of_aggregates_and_both() {
    let of = |set| {
        sql(&select_rowset_fields(
            aliases("universe"),
            pair("rows", "rows_inner"),
            pair("aggregates", "aggregates_inner"),
            set,
            ReturnsFields::FieldsWereRequested,
        ))
    };
    assert_eq!(
        of(SelectSet::Aggregates(star_select(table("Artist")))),
        "SELECT json_build_object('aggregates', \"aggregates\") AS \"universe\" FROM (SELECT * FROM \"public\".\"Artist\" AS \"Artist\") AS \"aggregates\""
    );
    assert_eq!(
        of(SelectSet::RowsAndAggregates(album(), star_select(table("Artist")))),
        "SELECT json_build_object('aggregates', ARRAY_AGG(\"aggregates\")[SAFE_OFFSET(0)], 'rows', ARRAY_AGG(\"rows\")) AS \"universe\" FROM (SELECT * FROM (SELECT * FROM \"public\".\"Album\" AS \"Album\") AS \"rows_inner\") AS \"rows\" CROSS JOIN (SELECT * FROM (SELECT * FROM \"public\".\"Artist\" AS \"Artist\") AS \"aggregates\") AS \"aggregates\""
    );
}
