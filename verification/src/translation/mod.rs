//! Translate an incoming `QueryRequest` into an execution plan.
use vstd::prelude::*;

pub mod aggregates;
pub mod determinism;
pub mod error;
pub mod filtering;
pub mod helpers;
pub mod numbers;
pub mod relationships;
pub mod root;
pub mod sorting;
pub mod values;

use error::{Error, ErrorView, Failure};
use helpers::Env;
use root::{
    aggregates_failure, query_failure, query_next, query_translated, rowset_of, rows_failure,
    rows_next,
};
use crate::metadata::Metadata;
use crate::sql::ast::{ColumnAlias, Select, TableAlias};
use crate::sql::execution_plan::ExecutionPlan;
use crate::sql::helpers::{is_rowset_body, SelectSet};
use crate::types::input::{Query, QueryRequest, Relationship};

verus! {

/// Translate a query to sql ast.
/// We return a SELECT for the 'rows' field and a SELECT for the 'aggregates' field.
pub fn translate_query(
    env: &Env,
    next_free_name: &mut u32,
    table_name: &String,
    query: &Query,
) -> (res: Result<SelectSet, Error>)
    requires
        env.mappings_sorted(),
        query_failure(env, *old(next_free_name) as nat, *table_name, *query) != Some(
            Failure::Panic,
        ),
    ensures
        match res {
            Ok(set) => query_failure(env, *old(next_free_name) as nat, *table_name, *query) is None
                && query_translated(env, *old(next_free_name) as nat, *table_name, *query, set)
                && *final(next_free_name) == query_next(
                env,
                *old(next_free_name) as nat,
                *table_name,
                *query,
            ),
            Err(e) => query_failure(env, *old(next_free_name) as nat, *table_name, *query)
                == Some(Failure::Error(e@)) && (e is NoFields ==> *final(next_free_name)
                == query_next(env, *old(next_free_name) as nat, *table_name, *query)),
        },
    decreases query, 3nat,
{
    // translate rows query. if there are no fields, make this a None
    let row_select = match root::translate_rows_query(env, next_free_name, table_name, query) {
        Ok(select) => Some(select),
        // Error::NoFields becomes None
        Err(Error::NoFields) => None,
        // everything else stays an error
        Err(e) => return Err(e),
    };
    // translate aggregate select. if there are no fields, make this a None
    let aggregate_select = match root::translate_aggregate_query(
        env,
        next_free_name,
        table_name,
        query,
    ) {
        Ok(select) => Some(select),
        Err(Error::NoFields) => None,
        Err(e) => return Err(e),
    };
    match (row_select, aggregate_select) {
        (Some(rows), None) => Ok(SelectSet::Rows(rows)),
        (None, Some(aggregates)) => Ok(SelectSet::Aggregates(aggregates)),
        (Some(rows), Some(aggregates)) => Ok(SelectSet::RowsAndAggregates(rows, aggregates)),
        _ => Err(Error::NoFields),
    }
}

/// The environment of a request: the metadata and the relationships of the request.
pub open spec fn request_env<'a>(
    metadata: &'a Metadata,
    relationships: Vec<(String, Relationship)>,
) -> Env<'a> {
    Env { metadata, relationships }
}

/// How translating a request fails, if it does.
pub open spec fn request_failure(metadata: &Metadata, request: QueryRequest) -> Option<Failure> {
    query_failure(
        &request_env(metadata, request.table_relationships),
        0,
        request.table,
        request.query,
    )
}

/// `select` is the rowset of `set`, as a single json object `{ rows: [...], aggregates: {...} }`
/// selected as the column `universe`.
pub open spec fn universe_of(select: Select, set: SelectSet) -> bool {
    exists|column: ColumnAlias, table: TableAlias|
        #[trigger] rowset_of(select, column, table, set) && column.unique_index == 0
            && column.name@ == "universe"@ && table.unique_index == 0 && table.name@
            == "universe"@
}

/// Translate the incoming QueryRequest to an ExecutionPlan (SQL) to be run against the database.
///
/// The column mapping of each relationship is a map keyed by source column, listed in
/// increasing order of its keys.
pub fn translate(metadata: &Metadata, query_request: QueryRequest) -> (res: Result<
    ExecutionPlan,
    Error,
>)
    requires
        request_env(metadata, query_request.table_relationships).mappings_sorted(),
        request_failure(metadata, query_request) != Some(Failure::Panic),
    ensures
        match res {
            Ok(plan) => request_failure(metadata, query_request) is None && plan.variables
                == query_request.variables && plan.root_field == query_request.table
                && plan.pre@.len() == 0 && plan.post@.len() == 0 && exists|set: SelectSet|
                #[trigger] query_translated(
                    &request_env(metadata, query_request.table_relationships),
                    0,
                    query_request.table,
                    query_request.query,
                    set,
                ) && universe_of(plan.query, set),
            Err(e) => request_failure(metadata, query_request) == Some(Failure::Error(e@)),
        },
{
    let QueryRequest { table, query, arguments: _, table_relationships, variables } = query_request;
    let env = Env::new(metadata, table_relationships);
    let mut next_free_name: u32 = 0;
    let select_set = match translate_query(&env, &mut next_free_name, &table, &query) {
        Ok(set) => set,
        Err(e) => return Err(e),
    };
    let ghost set = select_set;
    proof {
        reveal_strlit("universe");
        reveal_strlit("rows");
        reveal_strlit("aggregates");
    }
    let universe_column = crate::sql::helpers::make_column_alias(String::from_str("universe"));
    let universe_table = crate::sql::helpers::make_table_alias(String::from_str("universe"));
    let row_table_alias = crate::sql::helpers::make_table_alias(String::from_str("rows"));
    let row_column_alias = crate::sql::helpers::make_column_alias(String::from_str("rows"));
    let aggregate_table_alias = crate::sql::helpers::make_table_alias(
        String::from_str("aggregates"),
    );
    let aggregate_column_alias = crate::sql::helpers::make_column_alias(
        String::from_str("aggregates"),
    );
    let ghost column = universe_column;
    let ghost table_alias = universe_table;
    let ghost row = (row_table_alias, row_column_alias);
    let ghost aggregate = (aggregate_table_alias, aggregate_column_alias);
    // form a single JSON item shaped `{ rows: [], aggregates: {} }`
    // that matches the RowSet type
    let json_select = crate::sql::helpers::select_rowset(
        universe_column,
        universe_table,
        row_table_alias,
        row_column_alias,
        aggregate_table_alias,
        aggregate_column_alias,
        select_set,
    );
    proof {
        let body = *json_select.from->Some_0->Select_select;
        assert(is_rowset_body(body, set, row, aggregate));
        assert(rowset_of(json_select, column, table_alias, set));
    }
    Ok(crate::sql::execution_plan::simple_exec_plan(variables, table, json_select))
}

} // verus!
