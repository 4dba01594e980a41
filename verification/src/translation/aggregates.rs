//! Handle aggregates translation.
use vstd::prelude::*;

use super::error::Error;
use crate::sql::ast::{ColumnAlias, ColumnName, CountType, Expression, Function, TableName};
use crate::sql::helpers::is_call;
use crate::types::input::Aggregate;

verus! {

/// `(alias, expression)` is the select list item of the aggregate `aggregate` named
/// `name`, over the table `table`.
pub open spec fn aggregate_column_ok(
    table: TableName,
    name: String,
    aggregate: Aggregate,
    alias: ColumnAlias,
    expression: Expression,
) -> bool {
    &&& alias == (ColumnAlias { unique_index: 0, name })
    &&& match aggregate {
        Aggregate::ColumnCount { column, distinct } => {
            let column_name = ColumnName::AliasedColumn {
                table,
                name: ColumnAlias { unique_index: 0, name: column },
            };
            expression == Expression::Count(
                if distinct {
                    CountType::Distinct(column_name)
                } else {
                    CountType::Simple(column_name)
                },
            )
        },
        Aggregate::SingleColumn { column, function } => is_call(
            expression,
            Function::Unknown(function),
            seq![
                Expression::ColumnName(
                    ColumnName::AliasedColumn {
                        table,
                        name: ColumnAlias { unique_index: 0, name: column },
                    },
                ),
            ],
        ),
        Aggregate::StarCount => expression == Expression::Count(CountType::Star),
    }
}

/// `columns` are the select list items of `aggregates`, in order.
pub open spec fn aggregate_columns_ok(
    table: TableName,
    aggregates: Seq<(String, Aggregate)>,
    columns: Seq<(ColumnAlias, Expression)>,
) -> bool {
    &&& columns.len() == aggregates.len()
    &&& forall|i: int|
        0 <= i < aggregates.len() ==> aggregate_column_ok(
            table,
            aggregates[i].0,
            aggregates[i].1,
            #[trigger] columns[i].0,
            columns[i].1,
        )
}

/// Translate any aggregates we should include in the query into our SQL AST.
pub fn translate(table: TableName, aggregates: &Vec<(String, Aggregate)>) -> (res: Result<
    Vec<(ColumnAlias, Expression)>,
    Error,
>)
    ensures
        res matches Ok(columns) && aggregate_columns_ok(table, aggregates@, columns@),
{
    let mut columns: Vec<(ColumnAlias, Expression)> = Vec::new();
    let mut index: usize = 0;
    while index < aggregates.len()
        invariant
            0 <= index <= aggregates@.len(),
            columns@.len() == index,
            forall|i: int|
                0 <= i < index ==> aggregate_column_ok(
                    table,
                    aggregates@[i].0,
                    aggregates@[i].1,
                    #[trigger] columns@[i].0,
                    columns@[i].1,
                ),
        decreases aggregates@.len() - index,
    {
        let (alias, aggregation) = &aggregates[index];
        let expression = match aggregation {
            Aggregate::ColumnCount { column, distinct } => {
                let count_column_alias = crate::sql::helpers::make_column_alias(column.clone());
                if *distinct {
                    Expression::Count(
                        CountType::Distinct(
                            ColumnName::AliasedColumn {
                                table: table.clone(),
                                name: count_column_alias,
                            },
                        ),
                    )
                } else {
                    Expression::Count(
                        CountType::Simple(
                            ColumnName::AliasedColumn {
                                table: table.clone(),
                                name: count_column_alias,
                            },
                        ),
                    )
                }
            },
            Aggregate::SingleColumn { column, function } => {
                let args = vec![
                    Expression::ColumnName(
                        ColumnName::AliasedColumn {
                            table: table.clone(),
                            name: crate::sql::helpers::make_column_alias(column.clone()),
                        },
                    ),
                ];
                assert(args@ =~= seq![
                    Expression::ColumnName(
                        ColumnName::AliasedColumn {
                            table,
                            name: ColumnAlias { unique_index: 0, name: *column },
                        },
                    ),
                ]);
                Expression::FunctionCall { function: Function::Unknown(function.clone()), args }
            },
            Aggregate::StarCount => Expression::Count(CountType::Star),
        };
        let ghost before = columns@;
        columns.push((crate::sql::helpers::make_column_alias(alias.clone()), expression));
        assert(aggregate_column_ok(
            table,
            aggregates@[index as int].0,
            aggregates@[index as int].1,
            columns@[index as int].0,
            columns@[index as int].1,
        ));
        assert(forall|i: int| 0 <= i < index ==> columns@[i] == before[i]);
        index = index + 1;
    }
    Ok(columns)
}

} // verus!
