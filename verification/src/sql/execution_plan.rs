//! Definition of an execution plan to be run against the database.
use vstd::prelude::*;

use super::ast::{Explain, Select};
use super::string::{DDL, SQL};
use crate::types::input::JsonValue;

verus! {

/// Definition of an execution plan to be run against the database.
pub struct ExecutionPlan {
    /// One set of variables per rowset to fetch; the query runs once for each.
    pub variables: Option<Vec<Vec<(String, JsonValue)>>>,
    pub root_field: String,
    /// Run before the query. Should be a sql_ast in the future.
    pub pre: Vec<DDL>,
    /// The query.
    pub query: Select,
    /// Run after the query. Should be a sql_ast in the future.
    pub post: Vec<DDL>,
}

impl ExecutionPlan {
    /// Extract the query component as SQL.
    pub fn query(&self) -> (sql: SQL)
        requires
            self.query.sql_params().len() <= u64::MAX,
        ensures
            sql.sql@ == self.query.sql_text(0),
            sql.params@ == self.query.sql_params(),
            sql.param_index == self.query.sql_params().len(),
    {
        select_to_sql(&self.query)
    }

    /// Extract the query component as an `EXPLAIN` statement.
    pub fn explain_query(&self) -> (sql: SQL)
        requires
            self.query.sql_params().len() <= u64::MAX,
        ensures
            sql.sql@ == "EXPLAIN "@ + self.query.sql_text(0),
            sql.params@ == self.query.sql_params(),
            sql.param_index == self.query.sql_params().len(),
    {
        let mut sql = SQL::new();
        let explain = Explain::Select(&self.query);
        explain.to_sql(&mut sql);
        assert(sql.sql@ =~= "EXPLAIN "@ + self.query.sql_text(0));
        assert(sql.params@ =~= self.query.sql_params());
        sql
    }
}

/// Render a select as SQL text and parameters, numbering the parameters from one.
pub fn select_to_sql(select: &Select) -> (sql: SQL)
    requires
        select.sql_params().len() <= u64::MAX,
    ensures
        sql.sql@ == select.sql_text(0),
        sql.params@ == select.sql_params(),
        sql.param_index == select.sql_params().len(),
{
    let mut sql = SQL::new();
    select.to_sql(&mut sql);
    assert(sql.sql@ =~= select.sql_text(0));
    assert(sql.params@ =~= select.sql_params());
    sql
}

/// A simple execution plan with only a root field and a query.
pub fn simple_exec_plan(
    variables: Option<Vec<Vec<(String, JsonValue)>>>,
    root_field: String,
    query: Select,
) -> (plan: ExecutionPlan)
    ensures
        plan.variables == variables,
        plan.root_field == root_field,
        plan.pre@.len() == 0,
        plan.query == query,
        plan.post@.len() == 0,
{
    ExecutionPlan { variables, root_field, pre: Vec::new(), query, post: Vec::new() }
}

} // verus!
