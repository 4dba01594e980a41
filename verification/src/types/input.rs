//! Input types: the body of a query request.
//!
//! Maps of the request are kept as lists of `(key, value)` entries, in the order in which
//! the request lists them.
use vstd::prelude::*;

verus! {

/// A JSON value.
///
/// A number is kept as the `i64` it denotes, or as `None` when it has no `i64` form
/// (a fraction, or a number out of range).
#[derive(Debug, PartialEq)]
pub enum JsonValue {
    Null,
    Bool(bool),
    Number(Option<i64>),
    String(String),
    Array(Vec<JsonValue>),
    Object(Vec<(String, JsonValue)>),
}

/// This is the request body of the query POST endpoint
#[derive(Debug, PartialEq)]
pub struct QueryRequest {
    /// The name of a table
    pub table: String,
    /// The query syntax tree
    pub query: Query,
    /// Values to be provided to any table arguments
    pub arguments: Vec<(String, Argument)>,
    /// Any relationships between tables involved in the query request
    pub table_relationships: Vec<(String, Relationship)>,
    /// One set of named variables for each rowset to fetch. Each variable set
    /// should be subtituted in turn, and a fresh set of rows returned.
    pub variables: Option<Vec<Vec<(String, JsonValue)>>>,
}

/// An argument of a table or a field.
#[derive(Debug, PartialEq)]
pub enum Argument {
    /// The argument is provided by reference to a variable
    Variable { name: String },
    /// The argument is provided as a literal value
    Literal { value: JsonValue },
}

/// A query: the fields and aggregates to fetch, and how to filter, sort and page the rows.
#[derive(Debug, PartialEq)]
pub struct Query {
    /// Aggregate fields of the query
    pub aggregates: Option<Vec<(String, Aggregate)>>,
    /// Fields of the query
    pub fields: Option<Vec<(String, Field)>>,
    /// Optionally limit to N results
    pub limit: Option<u32>,
    /// Optionally offset from the Nth result
    pub offset: Option<u32>,
    pub order_by: Option<OrderBy>,
    pub predicate: Option<Expression>,
}

/// An aggregate field.
#[derive(Debug, PartialEq)]
pub enum Aggregate {
    ColumnCount {
        /// The column to apply the count aggregate function to
        column: String,
        /// Whether or not only distinct items should be counted
        distinct: bool,
    },
    SingleColumn {
        /// The column to apply the aggregation function to
        column: String,
        /// Single column aggregate function name.
        function: String,
    },
    StarCount,
}

/// A field of a query.
#[derive(Debug, PartialEq)]
pub enum Field {
    Column {
        column: String,
        /// Values to be provided to any field arguments
        arguments: Vec<(String, Argument)>,
    },
    Relationship {
        query: Box<Query>,
        /// The name of the relationship to follow for the subquery
        relationship: String,
        /// Values to be provided to any table arguments
        arguments: Vec<(String, Argument)>,
    },
}

/// The elements to order rows by.
#[derive(Debug, PartialEq)]
pub struct OrderBy {
    /// The elements to order by, in priority order
    pub elements: Vec<OrderByElement>,
}

/// A single element to order rows by.
#[derive(Debug, PartialEq)]
pub struct OrderByElement {
    pub order_direction: OrderDirection,
    pub target: OrderByTarget,
}

/// What rows are ordered by.
#[derive(Debug, PartialEq)]
pub enum OrderByTarget {
    Column {
        /// The name of the column
        name: String,
        /// Any relationships to traverse to reach this column
        path: Vec<PathElement>,
    },
    SingleColumnAggregate {
        /// The column to apply the aggregation function to
        column: String,
        /// Single column aggregate function name.
        function: String,
        /// Non-empty collection of relationships to traverse
        path: Vec<PathElement>,
    },
    StarCountAggregate {
        /// Non-empty collection of relationships to traverse
        path: Vec<PathElement>,
    },
}

/// A relationship to follow, with a predicate on the rows of its target table.
#[derive(Debug, PartialEq)]
pub struct PathElementWithPredicate {
    /// The name of the relationship to follow
    pub relationship: String,
    /// Values to be provided to any table arguments
    pub arguments: Vec<(String, Argument)>,
    /// A predicate expression to apply to the target table
    pub predicate: Box<Expression>,
}

/// The direction of an ordering.
#[derive(Debug, Clone, Copy, PartialEq, Eq)]
pub enum OrderDirection {
    Asc,
    Desc,
}

/// A boolean expression over the rows of a table.
#[allow(inconsistent_fields)]
#[derive(Debug, PartialEq)]
pub enum Expression {
    And { expressions: Vec<Expression> },
    Or { expressions: Vec<Expression> },
    Not { expression: Box<Expression> },
    UnaryComparisonOperator { column: Box<ComparisonTarget>, operator: UnaryComparisonOperator },
    BinaryComparisonOperator {
        column: Box<ComparisonTarget>,
        operator: BinaryComparisonOperator,
        value: Box<ComparisonValue>,
    },
    BinaryArrayComparisonOperator {
        column: Box<ComparisonTarget>,
        operator: BinaryArrayComparisonOperator,
        values: Vec<ComparisonValue>,
    },
    Exists { in_table: Box<ExistsInTable>, predicate: Box<Expression> },
}

/// A comparison with a single operand.
#[derive(Debug, Clone, Copy, PartialEq, Eq)]
pub enum UnaryComparisonOperator {
    IsNull,
}

/// A comparison between a column and a list of values.
#[derive(Debug, Clone, Copy, PartialEq, Eq)]
pub enum BinaryArrayComparisonOperator {
    In,
}

/// A comparison between a column and a value.
#[derive(Debug, PartialEq, Eq)]
pub enum BinaryComparisonOperator {
    Equal,
    Other { name: String },
}

/// A column to compare.
#[derive(Debug, PartialEq)]
pub enum ComparisonTarget {
    Column {
        /// The name of the column
        name: String,
        /// Any relationships to traverse to reach this column
        path: Vec<PathElementWithPredicate>,
    },
    RootTableColumn {
        /// The name of the column
        name: String,
    },
}

/// A relationship to follow.
#[derive(Debug, PartialEq)]
pub struct PathElement {
    /// The name of the relationship to follow
    pub relationship: String,
    /// Values to be provided to any table arguments
    pub arguments: Vec<(String, Argument)>,
}

/// A value to compare a column with.
#[derive(Debug, PartialEq)]
pub enum ComparisonValue {
    Column { column: Box<ComparisonTarget> },
    Scalar { value: JsonValue },
    Variable { name: String },
}

/// The table an `EXISTS` looks into.
#[derive(Debug, PartialEq)]
pub enum ExistsInTable {
    Related {
        relationship: String,
        /// Values to be provided to any table arguments
        arguments: Vec<(String, Argument)>,
    },
    Unrelated {
        /// The name of a table
        table: String,
        /// Values to be provided to any table arguments
        arguments: Vec<(String, Argument)>,
    },
}

/// A relationship between two tables.
#[derive(Debug, PartialEq)]
pub struct Relationship {
    /// A mapping between columns on the source table to columns on the target table
    pub column_mapping: Vec<(String, String)>,
    pub relationship_type: RelationshipType,
    /// The name of the table or object type which is the source of this relationship
    pub source_table_or_type: String,
    /// The name of a table
    pub target_table: String,
    /// Values to be provided to any table arguments
    pub arguments: Vec<(String, ComparisonValue)>,
}

/// Whether a relationship relates a row with one row or with many.
#[derive(Debug, Clone, Copy, PartialEq, Eq)]
pub enum RelationshipType {
    Object,
    Array,
}

} // verus!
