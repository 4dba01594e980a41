//! Type definitions of a SQL AST representation.
use vstd::prelude::*;

verus! {

/// A `WITH` clause.
#[derive(Debug, PartialEq, Eq)]
pub struct With {
    pub recursive: bool,
    pub common_table_expressions: Vec<CommonTableExpression>,
}

/// A single common table expression, `<name>(<columns>) AS (<select>)`.
#[derive(Debug, PartialEq, Eq)]
pub struct CommonTableExpression {
    pub table_name: TableAlias,
    pub column_names: Option<Vec<ColumnAlias>>,
    pub select: Box<Select>,
}

/// An `EXPLAIN` statement.
#[derive(Debug, PartialEq, Eq)]
pub enum Explain<'a> {
    Select(&'a Select),
}

/// A `SELECT` statement.
#[derive(Debug, PartialEq, Eq)]
pub struct Select {
    pub with: With,
    pub select_list: SelectList,
    pub from: Option<From>,
    pub joins: Vec<Join>,
    pub where_: Where,
    pub group_by: GroupBy,
    pub order_by: OrderBy,
    pub limit: Limit,
}

/// The list of items selected by a `SELECT`.
#[derive(Debug, PartialEq, Eq)]
pub enum SelectList {
    /// `<expression> AS <alias>, ...`
    SelectList(Vec<(ColumnAlias, Expression)>),
    /// `*`
    SelectStar,
    /// `<table>.*`
    SelectStarFrom(TableName),
    /// `1`
    Select1,
    /// `(<expression>).*`
    SelectStarComposite(Expression),
}

/// A `FROM` clause.
#[derive(Debug, PartialEq, Eq)]
pub enum From {
    Table { name: TableName, alias: TableAlias },
    Select { select: Box<Select>, alias: TableAlias },
    /// A record set decoded from a json value, with the given typed columns.
    JsonbToRecordset {
        expression: Expression,
        alias: TableAlias,
        columns: Vec<(ColumnAlias, ScalarType)>,
    },
}

/// A join with another select.
#[derive(Debug, PartialEq, Eq)]
pub enum Join {
    LeftOuterJoinLateral(LeftOuterJoinLateral),
    InnerJoinLateral(InnerJoinLateral),
    CrossJoin(CrossJoin),
}

/// `LEFT OUTER JOIN LATERAL (<select>) AS <alias> ON ('true')`
#[derive(Debug, PartialEq, Eq)]
pub struct LeftOuterJoinLateral {
    pub select: Box<Select>,
    pub alias: TableAlias,
}

/// `INNER JOIN LATERAL (<select>) AS <alias> ON ('true')`
#[derive(Debug, PartialEq, Eq)]
pub struct InnerJoinLateral {
    pub select: Box<Select>,
    pub alias: TableAlias,
}

/// `CROSS JOIN (<select>) AS <alias>`
#[derive(Debug, PartialEq, Eq)]
pub struct CrossJoin {
    pub select: Box<Select>,
    pub alias: TableAlias,
}

/// A `WHERE` clause.
#[derive(Debug, PartialEq, Eq)]
pub struct Where(pub Expression);

/// A `GROUP BY` clause.
#[derive(Debug, PartialEq, Eq)]
pub struct GroupBy {}

/// An `ORDER BY` clause.
#[derive(Debug, PartialEq, Eq)]
pub struct OrderBy {
    pub elements: Vec<OrderByElement>,
}

/// A single element of an `ORDER BY` clause.
#[derive(Debug, PartialEq, Eq)]
pub struct OrderByElement {
    pub target: Expression,
    pub direction: OrderByDirection,
}

/// The direction of an `ORDER BY` element.
#[derive(Debug, PartialEq, Eq)]
pub enum OrderByDirection {
    Asc,
    Desc,
}

/// `LIMIT` and `OFFSET` clauses.
#[derive(Debug, PartialEq, Eq)]
pub struct Limit {
    pub limit: Option<u32>,
    pub offset: Option<u32>,
}

/// A scalar expression.
#[allow(inconsistent_fields)]
#[derive(Debug, PartialEq, Eq)]
pub enum Expression {
    And { left: Box<Expression>, right: Box<Expression> },
    Or { left: Box<Expression>, right: Box<Expression> },
    Not(Box<Expression>),
    BinaryOperator { left: Box<Expression>, operator: BinaryOperator, right: Box<Expression> },
    BinaryArrayOperator {
        left: Box<Expression>,
        operator: BinaryArrayOperator,
        right: Vec<Expression>,
    },
    UnaryOperator { column: Box<Expression>, operator: UnaryOperator },
    FunctionCall { function: Function, args: Vec<Expression> },
    Exists { select: Box<Select> },
    /// `json_build_object('<label>', <expression>, ...)`, in label order.
    JsonBuildObject(Vec<(String, Box<Expression>)>),
    /// select queries can appear in a select list if they return one row.
    /// For now we can only do this with 'row_to_json'.
    RowToJson(TableName),
    ColumnName(ColumnName),
    Value(Value),
    Count(CountType),
    /// A table reference used as a value: the row of the table.
    TableReference(TableName),
    /// An array literal, `[<expression>, ...]`.
    ArrayConstructor(Vec<Expression>),
    /// The expressions written one after the other.
    JoinExpressions(Vec<Expression>),
    /// The subscript `[SAFE_OFFSET(<offset>)]` of an array.
    SafeOffSet { offset: u64 },
}

/// A unary operator.
#[derive(Debug, PartialEq, Eq)]
pub enum UnaryOperator {
    IsNull,
}

/// A binary comparison operator.
#[derive(Debug, PartialEq, Eq)]
pub enum BinaryOperator {
    Equals,
    NotEquals,
    GreaterThan,
    LessThan,
    GreaterThanOrEqualTo,
    LessThanOrEqualTo,
    Like,
    NotLike,
    CaseInsensitiveLike,
    NotCaseInsensitiveLike,
    Similar,
    NotSimilar,
    Regex,
    NotRegex,
    CaseInsensitiveRegex,
    NotCaseInsensitiveRegex,
}

/// An operator between a value and a list of values.
#[derive(Debug, PartialEq, Eq)]
pub enum BinaryArrayOperator {
    In,
}

/// A function that can be called in an expression.
#[derive(Debug, PartialEq, Eq)]
pub enum Function {
    Coalesce,
    JsonAgg,
    ArrayAgg,
    Unknown(String),
}

/// The argument of a `COUNT`.
#[derive(Debug, PartialEq, Eq)]
pub enum CountType {
    Star,
    Simple(ColumnName),
    Distinct(ColumnName),
}

/// A type a value can be cast to.
#[derive(Debug, PartialEq, Eq)]
pub enum Type {
    Json,
}

/// A scalar type of a column.
#[derive(Debug, PartialEq, Eq)]
pub enum ScalarType {
    BaseType(ScalarTypeName),
}

/// The name of a scalar type.
#[derive(Debug, PartialEq, Eq)]
pub enum ScalarTypeName {
    Unqualified(String),
}

/// A type that a string value can be cast to.
#[derive(Debug, Clone, Copy, PartialEq, Eq)]
pub enum CastType {
    Smallint,
    Integer,
    Bigint,
    Real,
    DoublePrecision,
    Numeric,
    Date,
    TimeWithTimeZone,
    TimeWithoutTimeZone,
    TimestampWithTimeZone,
    TimestampWithoutTimeZone,
    Uuid,
}

/// A literal value.
#[derive(Debug, PartialEq, Eq)]
pub enum Value {
    /// `'[]'`
    EmptyJsonArray,
    /// `'{}'::json`
    EmptyJsonObject,
    Int4(i32),
    Int8(i64),
    /// A string read as a value of the given type: `cast(<string> as <type>)`.
    Cast { value: String, cast_type: CastType },
    Bool(bool),
    String(String),
    Null,
    Array(Vec<Value>),
    /// A variable name to look up in the variables of a query request.
    Variable(String),
}

/// aliases that we give to relations
#[derive(Debug, PartialEq, Eq)]
pub struct TableAlias {
    pub unique_index: u64,
    pub name: String,
}

/// aliases that we give to columns
#[derive(Debug, PartialEq, Eq)]
pub struct ColumnAlias {
    pub unique_index: u64,
    pub name: String,
}

/// A reference to a table.
#[derive(Debug, PartialEq, Eq)]
pub enum TableName {
    /// refers to a db table object name
    DBTable { schema: String, table: String },
    /// refers to an alias we created
    AliasedTable(TableAlias),
}

/// A reference to a column of a table.
#[allow(inconsistent_fields)]
#[derive(Debug, PartialEq, Eq)]
pub enum ColumnName {
    /// refers to a db column object name
    TableColumn { table: TableName, name: String },
    /// refers to an alias we created
    AliasedColumn { table: TableName, name: ColumnAlias },
}

impl Clone for TableAlias {
    fn clone(&self) -> (res: Self)
        ensures
            res == *self,
    {
        TableAlias { unique_index: self.unique_index, name: self.name.clone() }
    }
}

impl Clone for ColumnAlias {
    fn clone(&self) -> (res: Self)
        ensures
            res == *self,
    {
        ColumnAlias { unique_index: self.unique_index, name: self.name.clone() }
    }
}

impl Clone for TableName {
    fn clone(&self) -> (res: Self)
        ensures
            res == *self,
    {
        match self {
            TableName::DBTable { schema, table } => TableName::DBTable {
                schema: schema.clone(),
                table: table.clone(),
            },
            TableName::AliasedTable(alias) => TableName::AliasedTable(alias.clone()),
        }
    }
}

impl Clone for ColumnName {
    fn clone(&self) -> (res: Self)
        ensures
            res == *self,
    {
        match self {
            ColumnName::TableColumn { table, name } => ColumnName::TableColumn {
                table: table.clone(),
                name: name.clone(),
            },
            ColumnName::AliasedColumn { table, name } => ColumnName::AliasedColumn {
                table: table.clone(),
                name: name.clone(),
            },
        }
    }
}

} // verus!
