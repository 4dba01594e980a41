use query_engine::sql::ast::{
    BinaryOperator, ColumnAlias, ColumnName, Expression, From, Select, TableAlias, TableName, Value,
};
use query_engine::sql::execution_plan::{select_to_sql, simple_exec_plan};
use query_engine::sql::helpers::{
    empty_where, make_column, make_column_alias, make_table_alias, simple_select, star_select,
};
use query_engine::sql::string::{i64_to_text, u64_to_text, Param, SQL};

fn album_select(where_: Expression) -> Select {
    let mut select = simple_select(vec![make_column(
        TableName::AliasedTable(make_table_alias("Album".to_string())),
        "Title".to_string(),
        make_column_alias("Title".to_string()),
    )]);
    select.from = Some(From::Table {
        name: TableName::DBTable { schema: "public".to_string(), table: "Album".to_string() },
        alias: make_table_alias("Album".to_string()),
    });
    select.where_ = query_engine::sql::ast::Where(where_);
    select
}

#[test]
fn number_rendering() {
    assert_eq!(u64_to_text(0), "0");
    assert_eq!(u64_to_text(1234567890), "1234567890");
    assert_eq!(u64_to_text(u64::MAX), "18446744073709551615");
    assert_eq!(i64_to_text(-42), "-42");
    assert_eq!(i64_to_text(7), "7");
    assert_eq!(i64_to_text(i64::MIN), "-9223372036854775808");
    assert_eq!(i64_to_text(i64::MAX), "9223372036854775807");
}

#[test]
fn appending_parameters_numbers_them() {
    let mut sql = SQL::new();
    sql.append_syntax("SELECT ");
    sql.append_param(Param::String("a".to_string()));
    sql.append_syntax(", ");
    sql.append_param(Param::Variable("v".to_string()));
    sql.append_syntax(" FROM ");
    sql.append_identifier(&"t".to_string());
    assert_eq!(sql.sql, "SELECT $1, $2 FROM \"t\"");
    assert_eq!(
        sql.params,
        vec![Param::String("a".to_string()), Param::Variable("v".to_string())]
    );
    assert_eq!(sql.param_index, 2);
}

#[test]
fn simple_select_rendering() {
    let sql = select_to_sql(&album_select(empty_where()));
    assert_eq!(sql.sql, "SELECT \"Album\".\"Title\" AS \"Title\" FROM \"public\".\"Album\" AS \"Album\"");
    assert!(sql.params.is_empty());
}

#[test]
fn where_with_string_parameters() {
    let condition = Expression::And {
        left: Box::new(Expression::BinaryOperator {
            left: Box::new(Expression::ColumnName(ColumnName::TableColumn {
                table: TableName::AliasedTable(make_table_alias("Album".to_string())),
                name: "Title".to_string(),
            })),
            operator: BinaryOperator::Equals,
            right: Box::new(Expression::Value(Value::String("x".to_string()))),
        }),
        right: Box::new(Expression::BinaryOperator {
            left: Box::new(Expression::Value(Value::Int4(-3))),
            operator: BinaryOperator::LessThan,
            right: Box::new(Expression::Value(Value::Variable("limit".to_string()))),
        }),
    };
    let sql = select_to_sql(&album_select(condition));
    assert_eq!(
        sql.sql,
        "SELECT \"Album\".\"Title\" AS \"Title\" FROM \"public\".\"Album\" AS \"Album\" WHERE ((\"Album\".\"Title\" = $1) AND (-3 < $2))"
    );
    assert_eq!(
        sql.params,
        vec![Param::String("x".to_string()), Param::Variable("limit".to_string())]
    );
}

#[test]
fn star_select_and_execution_plan() {
    let select = star_select(From::Table {
        name: TableName::public_table("Album".to_string()),
        alias: TableAlias { unique_index: 0, name: "a".to_string() },
    });
    let plan = simple_exec_plan(None, "albums".to_string(), select);
    assert_eq!(plan.root_field, "albums");
    assert!(plan.pre.is_empty() && plan.post.is_empty());
    assert_eq!(plan.query().sql, "SELECT * FROM \"public\".\"Album\" AS \"a\"");
    assert_eq!(plan.explain_query().sql, "EXPLAIN SELECT * FROM \"public\".\"Album\" AS \"a\"");
}

#[test]
fn column_alias_helpers() {
    assert_eq!(make_column_alias("x".to_string()), ColumnAlias { unique_index: 0, name: "x".to_string() });
    assert_eq!(make_table_alias("y".to_string()), TableAlias { unique_index: 0, name: "y".to_string() });
}

#[test]
fn rendering_an_expression_numbers_its_parameters_after_those_written() {
    let mut sql = SQL::new();
    sql.append_syntax("SELECT ");
    sql.append_param(Param::String("first".to_string()));
    let expression = Expression::And {
        left: Box::new(Expression::Value(Value::String("a".to_string()))),
        right: Box::new(Expression::Value(Value::Variable("v".to_string()))),
    };
    expression.to_sql(&mut sql);
    assert_eq!(sql.sql, "SELECT $1($2 AND $3)");
    assert_eq!(
        sql.params,
        vec![
            Param::String("first".to_string()),
            Param::String("a".to_string()),
            Param::Variable("v".to_string()),
        ]
    );
    assert_eq!(sql.param_index, 3);
}
