//! Output types: the body of a query response.
use vstd::prelude::*;

use super::input::JsonValue;

verus! {

/// Query responses may return multiple RowSets when using foreach queries
/// Else, there should always be exactly one RowSet
#[derive(Debug, PartialEq)]
pub struct QueryResponse(pub Vec<RowSet>);

/// The rows and aggregates of one query.
#[derive(Debug, PartialEq)]
pub struct RowSet {
    /// The results of the aggregates returned by the query
    pub aggregates: Option<Vec<(String, JsonValue)>>,
    /// The rows returned by the query, corresponding to the query's fields
    pub rows: Option<Vec<Vec<(String, RowFieldValue)>>>,
}

/// The value of a field in a row.
#[derive(Debug, PartialEq)]
pub enum RowFieldValue {
    Relationship { rows: RowSet },
    Column { value: JsonValue },
}

} // verus!
