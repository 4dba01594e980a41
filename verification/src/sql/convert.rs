//! Convert a SQL AST to a low-level SQL string.
//!
//! Every node of the tree has a specification of the text it renders to, given the number of the
//! last parameter placeholder written before it, and of the parameters it adds, in order.
use vstd::prelude::*;

use super::ast::{
    BinaryArrayOperator, BinaryOperator, CastType, ColumnAlias, ColumnName, CommonTableExpression, CountType,
    CrossJoin, Explain, Expression, From, Function, InnerJoinLateral, Join, LeftOuterJoinLateral,
    Limit, OrderBy, OrderByDirection, OrderByElement, ScalarType, ScalarTypeName, Select,
    SelectList, TableAlias, TableName, Type, UnaryOperator, Value, Where, With,
};
use super::string::{
    i64_to_text, int_text, is_numeral, lemma_nat_text_value, nat_text, numeral_value, param_text,
    quoted, u64_to_text, Param, SQL,
};

verus! {

/// The separator between the items of a list.
pub open spec fn separator(more: bool) -> Seq<char> {
    if more {
        ", "@
    } else {
        Seq::empty()
    }
}

/// `sql` is `before` with `text` and `params` appended.
pub open spec fn appended(before: SQL, sql: SQL, text: Seq<char>, params: Seq<Param>) -> bool {
    &&& sql.sql@ == before.sql@ + text
    &&& sql.params@ == before.params@ + params
    &&& sql.param_index == before.param_index + params.len()
}

/// There is room for `params` more parameters after those written to `sql`.
pub open spec fn has_room(sql: SQL, params: Seq<Param>) -> bool {
    sql.param_index + params.len() <= u64::MAX
}

// Text of names.

impl TableAlias {
    pub open spec fn sql_text(self) -> Seq<char> {
        quoted(self.name@)
    }
}

impl ColumnAlias {
    pub open spec fn sql_text(self) -> Seq<char> {
        quoted(self.name@)
    }
}

impl TableName {
    pub open spec fn sql_text(self) -> Seq<char> {
        match self {
            TableName::DBTable { schema, table } => quoted(schema@) + "."@ + quoted(table@),
            TableName::AliasedTable(alias) => alias.sql_text(),
        }
    }
}

impl ColumnName {
    pub open spec fn sql_text(self) -> Seq<char> {
        match self {
            ColumnName::TableColumn { table, name } => table.sql_text() + "."@ + quoted(name@),
            ColumnName::AliasedColumn { table, name } => table.sql_text() + "."@ + name.sql_text(),
        }
    }
}

impl BinaryOperator {
    pub open spec fn sql_text(self) -> Seq<char> {
        match self {
            BinaryOperator::Equals => " = "@,
            BinaryOperator::NotEquals => " <> "@,
            BinaryOperator::GreaterThan => " > "@,
            BinaryOperator::GreaterThanOrEqualTo => " >= "@,
            BinaryOperator::LessThan => " < "@,
            BinaryOperator::LessThanOrEqualTo => " <= "@,
            BinaryOperator::Like => " LIKE "@,
            BinaryOperator::NotLike => " NOT LIKE "@,
            BinaryOperator::CaseInsensitiveLike => " ILIKE "@,
            BinaryOperator::NotCaseInsensitiveLike => " NOT ILIKE "@,
            BinaryOperator::Similar => " SIMILAR TO "@,
            BinaryOperator::NotSimilar => " NOT SIMILAR TO "@,
            BinaryOperator::Regex => " ~ "@,
            BinaryOperator::NotRegex => " !~ "@,
            BinaryOperator::CaseInsensitiveRegex => " ~* "@,
            BinaryOperator::NotCaseInsensitiveRegex => " !~* "@,
        }
    }
}

impl BinaryArrayOperator {
    pub open spec fn sql_text(self) -> Seq<char> {
        match self {
            BinaryArrayOperator::In => " IN "@,
        }
    }
}

impl UnaryOperator {
    pub open spec fn sql_text(self) -> Seq<char> {
        match self {
            UnaryOperator::IsNull => " IS NULL"@,
        }
    }
}

impl Function {
    pub open spec fn sql_text(self) -> Seq<char> {
        match self {
            Function::Coalesce => "coalesce"@,
            Function::JsonAgg => "json_agg"@,
            Function::ArrayAgg => "ARRAY_AGG"@,
            Function::Unknown(name) => name@,
        }
    }
}

impl CountType {
    pub open spec fn sql_text(self) -> Seq<char> {
        match self {
            CountType::Star => "*"@,
            CountType::Simple(column) => column.sql_text(),
            CountType::Distinct(column) => "DISTINCT "@ + column.sql_text(),
        }
    }
}

impl Type {
    pub open spec fn sql_text(self) -> Seq<char> {
        match self {
            Type::Json => "json"@,
        }
    }
}

impl ScalarType {
    pub open spec fn sql_text(self) -> Seq<char> {
        match self {
            ScalarType::BaseType(ScalarTypeName::Unqualified(name)) => name@,
        }
    }
}

impl OrderByDirection {
    pub open spec fn sql_text(self) -> Seq<char> {
        match self {
            OrderByDirection::Asc => " ASC "@,
            OrderByDirection::Desc => " DESC "@,
        }
    }
}

impl Limit {
    pub open spec fn sql_text(self) -> Seq<char> {
        (match self.limit {
            None => Seq::empty(),
            Some(limit) => " LIMIT "@ + nat_text(limit as nat),
        }) + (match self.offset {
            None => Seq::empty(),
            Some(offset) => " OFFSET "@ + nat_text(offset as nat),
        })
    }
}

// Values.

impl CastType {
    pub open spec fn sql_text(self) -> Seq<char> {
        match self {
            CastType::Smallint => "smallint"@,
            CastType::Integer => "integer"@,
            CastType::Bigint => "bigint"@,
            CastType::Real => "real"@,
            CastType::DoublePrecision => "double precision"@,
            CastType::Numeric => "numeric"@,
            CastType::Date => "date"@,
            CastType::TimeWithTimeZone => "time with time zone"@,
            CastType::TimeWithoutTimeZone => "time without time zone"@,
            CastType::TimestampWithTimeZone => "timestamp with time zone"@,
            CastType::TimestampWithoutTimeZone => "timestamp without time zone"@,
            CastType::Uuid => "uuid"@,
        }
    }

    /// The SQL name of the type.
    pub fn name(&self) -> (name: &'static str)
        ensures
            name@ == self.sql_text(),
    {
        match self {
            CastType::Smallint => "smallint",
            CastType::Integer => "integer",
            CastType::Bigint => "bigint",
            CastType::Real => "real",
            CastType::DoublePrecision => "double precision",
            CastType::Numeric => "numeric",
            CastType::Date => "date",
            CastType::TimeWithTimeZone => "time with time zone",
            CastType::TimeWithoutTimeZone => "time without time zone",
            CastType::TimestampWithTimeZone => "timestamp with time zone",
            CastType::TimestampWithoutTimeZone => "timestamp without time zone",
            CastType::Uuid => "uuid",
        }
    }
}

impl Value {
    pub open spec fn sql_params(self) -> Seq<Param>
        decreases self,
    {
        match self {
            Value::String(s) => seq![Param::String(s)],
            Value::Variable(v) => seq![Param::Variable(v)],
            Value::Cast { value, .. } => seq![Param::String(value)],
            Value::Array(items) => values_params(items@),
            _ => Seq::empty(),
        }
    }

    pub open spec fn sql_text(self, n: nat) -> Seq<char>
        decreases self,
    {
        match self {
            Value::EmptyJsonArray => "'[]'"@,
            Value::EmptyJsonObject => "'{}'::json"@,
            Value::Int4(i) => int_text(i as int),
            Value::Int8(i) => int_text(i as int),
            Value::Cast { cast_type, .. } => "cast("@ + param_text(n + 1) + " as "@
                + cast_type.sql_text() + ")"@,
            Value::String(_) => param_text(n + 1),
            Value::Variable(_) => param_text(n + 1),
            Value::Bool(b) => if b {
                "true"@
            } else {
                "false"@
            },
            Value::Null => "null"@,
            Value::Array(items) => "ARRAY ["@ + values_text(items@, n) + "]"@,
        }
    }
}

pub open spec fn values_params(s: Seq<Value>) -> Seq<Param>
    decreases s,
{
    if s.len() == 0 {
        Seq::empty()
    } else {
        s[0].sql_params() + values_params(s.subrange(1, s.len() as int))
    }
}

pub open spec fn values_text(s: Seq<Value>, n: nat) -> Seq<char>
    decreases s,
{
    if s.len() == 0 {
        Seq::empty()
    } else {
        s[0].sql_text(n) + separator(s.len() > 1) + values_text(
            s.subrange(1, s.len() as int),
            n + s[0].sql_params().len(),
        )
    }
}

// Convert to SQL strings.

impl TableAlias {
    pub fn to_sql(&self, sql: &mut SQL)
        ensures
            appended(*old(sql), *final(sql), self.sql_text(), Seq::empty()),
    {
        sql.append_identifier(&self.name);
        assert(sql.params@ =~= old(sql).params@ + Seq::<Param>::empty());
    }
}

impl ColumnAlias {
    pub fn to_sql(&self, sql: &mut SQL)
        ensures
            appended(*old(sql), *final(sql), self.sql_text(), Seq::empty()),
    {
        sql.append_identifier(&self.name);
        assert(sql.params@ =~= old(sql).params@ + Seq::<Param>::empty());
    }
}

impl TableName {
    pub fn to_sql(&self, sql: &mut SQL)
        ensures
            appended(*old(sql), *final(sql), self.sql_text(), Seq::empty()),
    {
        match self {
            TableName::DBTable { schema, table } => {
                sql.append_identifier(schema);
                sql.append_syntax(".");
                sql.append_identifier(table);
                assert(sql.sql@ =~= old(sql).sql@ + self.sql_text());
            },
            TableName::AliasedTable(alias) => alias.to_sql(sql),
        }
        assert(sql.params@ =~= old(sql).params@ + Seq::<Param>::empty());
    }
}

impl ColumnName {
    pub fn to_sql(&self, sql: &mut SQL)
        ensures
            appended(*old(sql), *final(sql), self.sql_text(), Seq::empty()),
    {
        match self {
            ColumnName::TableColumn { table, name } => {
                table.to_sql(sql);
                sql.append_syntax(".");
                sql.append_identifier(name);
            },
            ColumnName::AliasedColumn { table, name } => {
                table.to_sql(sql);
                sql.append_syntax(".");
                name.to_sql(sql);
            },
        }
        assert(sql.sql@ =~= old(sql).sql@ + self.sql_text());
        assert(sql.params@ =~= old(sql).params@ + Seq::<Param>::empty());
    }
}

impl BinaryOperator {
    pub fn to_sql(&self, sql: &mut SQL)
        ensures
            appended(*old(sql), *final(sql), self.sql_text(), Seq::empty()),
    {
        match self {
            BinaryOperator::Equals => sql.append_syntax(" = "),
            BinaryOperator::NotEquals => sql.append_syntax(" <> "),
            BinaryOperator::GreaterThan => sql.append_syntax(" > "),
            BinaryOperator::GreaterThanOrEqualTo => sql.append_syntax(" >= "),
            BinaryOperator::LessThan => sql.append_syntax(" < "),
            BinaryOperator::LessThanOrEqualTo => sql.append_syntax(" <= "),
            BinaryOperator::Like => sql.append_syntax(" LIKE "),
            BinaryOperator::NotLike => sql.append_syntax(" NOT LIKE "),
            BinaryOperator::CaseInsensitiveLike => sql.append_syntax(" ILIKE "),
            BinaryOperator::NotCaseInsensitiveLike => sql.append_syntax(" NOT ILIKE "),
            BinaryOperator::Similar => sql.append_syntax(" SIMILAR TO "),
            BinaryOperator::NotSimilar => sql.append_syntax(" NOT SIMILAR TO "),
            BinaryOperator::Regex => sql.append_syntax(" ~ "),
            BinaryOperator::NotRegex => sql.append_syntax(" !~ "),
            BinaryOperator::CaseInsensitiveRegex => sql.append_syntax(" ~* "),
            BinaryOperator::NotCaseInsensitiveRegex => sql.append_syntax(" !~* "),
        }
        assert(sql.params@ =~= old(sql).params@ + Seq::<Param>::empty());
    }
}

impl BinaryArrayOperator {
    pub fn to_sql(&self, sql: &mut SQL)
        ensures
            appended(*old(sql), *final(sql), self.sql_text(), Seq::empty()),
    {
        match self {
            BinaryArrayOperator::In => sql.append_syntax(" IN "),
        }
        assert(sql.params@ =~= old(sql).params@ + Seq::<Param>::empty());
    }
}

impl UnaryOperator {
    pub fn to_sql(&self, sql: &mut SQL)
        ensures
            appended(*old(sql), *final(sql), self.sql_text(), Seq::empty()),
    {
        match self {
            UnaryOperator::IsNull => sql.append_syntax(" IS NULL"),
        }
        assert(sql.params@ =~= old(sql).params@ + Seq::<Param>::empty());
    }
}

impl Function {
    pub fn to_sql(&self, sql: &mut SQL)
        ensures
            appended(*old(sql), *final(sql), self.sql_text(), Seq::empty()),
    {
        match self {
            Function::Coalesce => sql.append_syntax("coalesce"),
            Function::JsonAgg => sql.append_syntax("json_agg"),
            Function::ArrayAgg => sql.append_syntax("ARRAY_AGG"),
            Function::Unknown(name) => sql.append_syntax(name.as_str()),
        }
        assert(sql.params@ =~= old(sql).params@ + Seq::<Param>::empty());
    }
}

impl CountType {
    pub fn to_sql(&self, sql: &mut SQL)
        ensures
            appended(*old(sql), *final(sql), self.sql_text(), Seq::empty()),
    {
        match self {
            CountType::Star => sql.append_syntax("*"),
            CountType::Simple(column) => column.to_sql(sql),
            CountType::Distinct(column) => {
                sql.append_syntax("DISTINCT ");
                column.to_sql(sql);
                assert(sql.sql@ =~= old(sql).sql@ + self.sql_text());
            },
        }
        assert(sql.params@ =~= old(sql).params@ + Seq::<Param>::empty());
    }
}

impl Type {
    pub fn to_sql(&self, sql: &mut SQL)
        ensures
            appended(*old(sql), *final(sql), self.sql_text(), Seq::empty()),
    {
        match self {
            Type::Json => sql.append_syntax("json"),
        }
        assert(sql.params@ =~= old(sql).params@ + Seq::<Param>::empty());
    }
}

impl ScalarType {
    pub fn to_sql(&self, sql: &mut SQL)
        ensures
            appended(*old(sql), *final(sql), self.sql_text(), Seq::empty()),
    {
        match self {
            ScalarType::BaseType(ScalarTypeName::Unqualified(name)) => sql.append_syntax(
                name.as_str(),
            ),
        }
        assert(sql.params@ =~= old(sql).params@ + Seq::<Param>::empty());
    }
}

impl OrderByDirection {
    pub fn to_sql(&self, sql: &mut SQL)
        ensures
            appended(*old(sql), *final(sql), self.sql_text(), Seq::empty()),
    {
        match self {
            OrderByDirection::Asc => sql.append_syntax(" ASC "),
            OrderByDirection::Desc => sql.append_syntax(" DESC "),
        }
        assert(sql.params@ =~= old(sql).params@ + Seq::<Param>::empty());
    }
}

impl Limit {
    pub fn to_sql(&self, sql: &mut SQL)
        ensures
            appended(*old(sql), *final(sql), self.sql_text(), Seq::empty()),
    {
        match self.limit {
            None => (),
            Some(limit) => {
                sql.append_syntax(" LIMIT ");
                let text = u64_to_text(limit as u64);
                sql.append_syntax(text.as_str());
            },
        };
        let ghost middle = sql.sql@;
        match self.offset {
            None => (),
            Some(offset) => {
                sql.append_syntax(" OFFSET ");
                let text = u64_to_text(offset as u64);
                sql.append_syntax(text.as_str());
            },
        };
        assert(sql.sql@ =~= old(sql).sql@ + self.sql_text());
        assert(sql.params@ =~= old(sql).params@ + Seq::<Param>::empty());
    }
}

impl Value {
    pub fn to_sql(&self, sql: &mut SQL)
        requires
            has_room(*old(sql), self.sql_params()),
        ensures
            appended(
                *old(sql),
                *final(sql),
                self.sql_text(old(sql).param_index as nat),
                self.sql_params(),
            ),
        decreases self,
    {
        match self {
            Value::EmptyJsonArray => sql.append_syntax("'[]'"),
            Value::EmptyJsonObject => sql.append_syntax("'{}'::json"),
            Value::Int4(i) => {
                let text = i64_to_text(*i as i64);
                sql.append_syntax(text.as_str());
            },
            Value::Int8(i) => {
                let text = i64_to_text(*i);
                sql.append_syntax(text.as_str());
            },
            Value::Cast { value, cast_type } => {
                sql.append_syntax("cast(");
                sql.append_param(Param::String(value.clone()));
                sql.append_syntax(" as ");
                sql.append_syntax(cast_type.name());
                sql.append_syntax(")");
            },
            Value::String(s) => sql.append_param(Param::String(s.clone())),
            Value::Variable(v) => sql.append_param(Param::Variable(v.clone())),
            Value::Bool(b) => if *b {
                sql.append_syntax("true")
            } else {
                sql.append_syntax("false")
            },
            Value::Null => sql.append_syntax("null"),
            Value::Array(items) => {
                sql.append_syntax("ARRAY [");
                let ghost before = *sql;
                let ghost n0 = sql.param_index as nat;
                let mut index: usize = 0;
                assert(items@.skip(0) =~= items@);
                proof {
                    assert(decreases_to!(self => self->Array_0));
                    assert(forall|i: int|
                        0 <= i < items@.len() ==> decreases_to!(self->Array_0 => #[trigger] items@[i]));
                }
                while index < items.len()
                    invariant
                        forall|i: int|
                            0 <= i < items@.len() ==> decreases_to!(self => #[trigger] items@[i]),
                        0 <= index <= items.len(),
                        sql.sql@ + values_text(items@.skip(index as int), sql.param_index as nat)
                            == before.sql@ + values_text(items@, n0),
                        sql.params@ + values_params(items@.skip(index as int)) == before.params@
                            + values_params(items@),
                        sql.param_index + values_params(items@.skip(index as int)).len() == n0
                            + values_params(items@).len(),
                        n0 + values_params(items@).len() <= u64::MAX,
                    decreases items.len() - index,
                {
                    let ghost rest = items@.skip(index as int);
                    assert(rest.subrange(1, rest.len() as int) =~= items@.skip(index + 1));
                    assert(rest[0] == items@[index as int]);
                    items[index].to_sql(sql);
                    if index < items.len() - 1 {
                        sql.append_syntax(", ");
                    }
                    index = index + 1;
                }
                sql.append_syntax("]");
            },
        }
        assert(sql.sql@ =~= old(sql).sql@ + self.sql_text(old(sql).param_index as nat));
        assert(sql.params@ =~= old(sql).params@ + self.sql_params());
    }
}

// Expressions and selects.

impl Expression {
    pub open spec fn sql_params(self) -> Seq<Param>
        decreases self,
    {
        match self {
            Expression::And { left, right } => left.sql_params() + right.sql_params(),
            Expression::Or { left, right } => left.sql_params() + right.sql_params(),
            Expression::Not(expr) => expr.sql_params(),
            Expression::BinaryOperator { left, right, .. } => left.sql_params()
                + right.sql_params(),
            Expression::BinaryArrayOperator { left, right, .. } => left.sql_params()
                + expressions_params(right@),
            Expression::UnaryOperator { column, .. } => column.sql_params(),
            Expression::FunctionCall { args, .. } => expressions_params(args@),
            Expression::Exists { select } => select.sql_params(),
            Expression::JsonBuildObject(items) => json_items_params(items@),
            Expression::RowToJson(_) => Seq::empty(),
            Expression::ColumnName(_) => Seq::empty(),
            Expression::Value(value) => value.sql_params(),
            Expression::Count(_) => Seq::empty(),
            Expression::TableReference(_) => Seq::empty(),
            Expression::ArrayConstructor(items) => expressions_params(items@),
            Expression::JoinExpressions(items) => expressions_params(items@),
            Expression::SafeOffSet { .. } => Seq::empty(),
        }
    }

    pub open spec fn sql_text(self, n: nat) -> Seq<char>
        decreases self,
    {
        match self {
            Expression::ColumnName(column_name) => column_name.sql_text(),
            Expression::Value(value) => value.sql_text(n),
            Expression::And { left, right } => "("@ + left.sql_text(n) + " AND "@ + right.sql_text(
                n + left.sql_params().len(),
            ) + ")"@,
            Expression::Or { left, right } => "("@ + left.sql_text(n) + " OR "@ + right.sql_text(
                n + left.sql_params().len(),
            ) + ")"@,
            Expression::Not(expr) => "NOT "@ + expr.sql_text(n),
            Expression::BinaryOperator { left, operator, right } => "("@ + left.sql_text(n)
                + operator.sql_text() + right.sql_text(n + left.sql_params().len()) + ")"@,
            Expression::BinaryArrayOperator { left, operator, right } => "("@ + left.sql_text(n)
                + operator.sql_text() + "("@ + expressions_text(
                right@,
                n + left.sql_params().len(),
            ) + ")"@ + ")"@,
            Expression::UnaryOperator { column, operator } => "("@ + column.sql_text(n)
                + operator.sql_text() + ")"@,
            Expression::FunctionCall { function, args } => function.sql_text() + "("@
                + expressions_text(args@, n) + ")"@,
            Expression::Exists { select } => "EXISTS ("@ + select.sql_text(n) + ")"@,
            Expression::JsonBuildObject(items) => "json_build_object"@ + "("@ + json_items_text(
                items@,
                n,
            ) + ")"@,
            Expression::RowToJson(table) => "row_to_json"@ + "("@ + table.sql_text() + ")"@,
            Expression::Count(count_type) => "COUNT"@ + "("@ + count_type.sql_text() + ")"@,
            Expression::TableReference(table) => table.sql_text(),
            Expression::ArrayConstructor(items) => "["@ + expressions_text(items@, n) + "]"@,
            Expression::JoinExpressions(items) => joined_text(items@, n),
            Expression::SafeOffSet { offset } => "[SAFE_OFFSET("@ + nat_text(offset as nat)
                + ")]"@,
        }
    }
}

pub open spec fn expressions_params(s: Seq<Expression>) -> Seq<Param>
    decreases s,
{
    if s.len() == 0 {
        Seq::empty()
    } else {
        s[0].sql_params() + expressions_params(s.subrange(1, s.len() as int))
    }
}

/// The texts of the expressions, one after the other.
pub open spec fn joined_text(s: Seq<Expression>, n: nat) -> Seq<char>
    decreases s,
{
    if s.len() == 0 {
        Seq::empty()
    } else {
        s[0].sql_text(n) + joined_text(s.subrange(1, s.len() as int), n + s[0].sql_params().len())
    }
}

pub open spec fn expressions_text(s: Seq<Expression>, n: nat) -> Seq<char>
    decreases s,
{
    if s.len() == 0 {
        Seq::empty()
    } else {
        s[0].sql_text(n) + separator(s.len() > 1) + expressions_text(
            s.subrange(1, s.len() as int),
            n + s[0].sql_params().len(),
        )
    }
}

pub open spec fn json_items_params(s: Seq<(String, Box<Expression>)>) -> Seq<Param>
    decreases s,
{
    if s.len() == 0 {
        Seq::empty()
    } else {
        s[0].1.sql_params() + json_items_params(s.subrange(1, s.len() as int))
    }
}

/// `'<label>', <expression>, ...`
pub open spec fn json_items_text(s: Seq<(String, Box<Expression>)>, n: nat) -> Seq<char>
    decreases s,
{
    if s.len() == 0 {
        Seq::empty()
    } else {
        "'"@ + s[0].0@ + "'"@ + ", "@ + s[0].1.sql_text(n) + separator(s.len() > 1)
            + json_items_text(s.subrange(1, s.len() as int), n + s[0].1.sql_params().len())
    }
}

pub open spec fn select_items_params(s: Seq<(ColumnAlias, Expression)>) -> Seq<Param>
    decreases s,
{
    if s.len() == 0 {
        Seq::empty()
    } else {
        s[0].1.sql_params() + select_items_params(s.subrange(1, s.len() as int))
    }
}

/// `<expression> AS <alias>, ...`
pub open spec fn select_items_text(s: Seq<(ColumnAlias, Expression)>, n: nat) -> Seq<char>
    decreases s,
{
    if s.len() == 0 {
        Seq::empty()
    } else {
        s[0].1.sql_text(n) + " AS "@ + s[0].0.sql_text() + separator(s.len() > 1)
            + select_items_text(s.subrange(1, s.len() as int), n + s[0].1.sql_params().len())
    }
}

pub open spec fn joins_params(s: Seq<Join>) -> Seq<Param>
    decreases s,
{
    if s.len() == 0 {
        Seq::empty()
    } else {
        s[0].sql_params() + joins_params(s.subrange(1, s.len() as int))
    }
}

pub open spec fn joins_text(s: Seq<Join>, n: nat) -> Seq<char>
    decreases s,
{
    if s.len() == 0 {
        Seq::empty()
    } else {
        s[0].sql_text(n) + joins_text(s.subrange(1, s.len() as int), n + s[0].sql_params().len())
    }
}

pub open spec fn order_elements_params(s: Seq<OrderByElement>) -> Seq<Param>
    decreases s,
{
    if s.len() == 0 {
        Seq::empty()
    } else {
        s[0].sql_params() + order_elements_params(s.subrange(1, s.len() as int))
    }
}

pub open spec fn order_elements_text(s: Seq<OrderByElement>, n: nat) -> Seq<char>
    decreases s,
{
    if s.len() == 0 {
        Seq::empty()
    } else {
        s[0].sql_text(n) + separator(s.len() > 1) + order_elements_text(
            s.subrange(1, s.len() as int),
            n + s[0].sql_params().len(),
        )
    }
}

/// `<column> <type>, ...`
pub open spec fn typed_columns_text(s: Seq<(ColumnAlias, ScalarType)>) -> Seq<char>
    decreases s.len(),
{
    if s.len() == 0 {
        Seq::empty()
    } else {
        s[0].0.sql_text() + " "@ + s[0].1.sql_text() + separator(s.len() > 1)
            + typed_columns_text(s.subrange(1, s.len() as int))
    }
}

/// The column aliases, one after the other.
pub open spec fn column_aliases_text(s: Seq<ColumnAlias>) -> Seq<char>
    decreases s.len(),
{
    if s.len() == 0 {
        Seq::empty()
    } else {
        s[0].sql_text() + column_aliases_text(s.subrange(1, s.len() as int))
    }
}

impl SelectList {
    pub open spec fn sql_params(self) -> Seq<Param>
        decreases self,
    {
        match self {
            SelectList::SelectList(items) => select_items_params(items@),
            SelectList::SelectStarComposite(expr) => expr.sql_params(),
            _ => Seq::empty(),
        }
    }

    pub open spec fn sql_text(self, n: nat) -> Seq<char>
        decreases self,
    {
        match self {
            SelectList::SelectList(items) => select_items_text(items@, n),
            SelectList::SelectStar => "*"@,
            SelectList::SelectStarFrom(table) => table.sql_text() + ".*"@,
            SelectList::Select1 => "1"@,
            SelectList::SelectStarComposite(expr) => "("@ + expr.sql_text(n) + ").*"@,
        }
    }
}

impl From {
    pub open spec fn sql_params(self) -> Seq<Param>
        decreases self,
    {
        match self {
            From::Table { .. } => Seq::empty(),
            From::Select { select, .. } => select.sql_params(),
            From::JsonbToRecordset { expression, .. } => expression.sql_params(),
        }
    }

    pub open spec fn sql_text(self, n: nat) -> Seq<char>
        decreases self,
    {
        "FROM "@ + match self {
            From::Table { name, alias } => name.sql_text() + " AS "@ + alias.sql_text(),
            From::Select { select, alias } => "("@ + select.sql_text(n) + ")"@ + " AS "@
                + alias.sql_text(),
            From::JsonbToRecordset { expression, alias, columns } => "jsonb_to_recordset("@
                + expression.sql_text(n) + ")"@ + " AS "@ + alias.sql_text() + "("@
                + typed_columns_text(columns@) + ")"@,
        }
    }
}

impl Join {
    pub open spec fn sql_params(self) -> Seq<Param>
        decreases self,
    {
        match self {
            Join::LeftOuterJoinLateral(join) => join.select.sql_params(),
            Join::InnerJoinLateral(join) => join.select.sql_params(),
            Join::CrossJoin(join) => join.select.sql_params(),
        }
    }

    pub open spec fn sql_text(self, n: nat) -> Seq<char>
        decreases self,
    {
        match self {
            Join::LeftOuterJoinLateral(join) => " LEFT OUTER JOIN LATERAL "@ + "("@
                + join.select.sql_text(n) + ")"@ + " AS "@ + join.alias.sql_text()
                + " ON ('true') "@,
            Join::InnerJoinLateral(join) => " INNER JOIN LATERAL "@ + "("@ + join.select.sql_text(
                n,
            ) + ")"@ + " AS "@ + join.alias.sql_text() + " ON ('true') "@,
            Join::CrossJoin(join) => " CROSS JOIN "@ + "("@ + join.select.sql_text(n) + ")"@
                + " AS "@ + join.alias.sql_text(),
        }
    }
}

impl Expression {
    /// The expression is the literal `true`.
    pub open spec fn is_true_literal(self) -> bool {
        self matches Expression::Value(Value::Bool(true))
    }
}

impl Where {
    pub open spec fn sql_params(self) -> Seq<Param>
        decreases self,
    {
        if self.0.is_true_literal() {
            Seq::empty()
        } else {
            self.0.sql_params()
        }
    }

    pub open spec fn sql_text(self, n: nat) -> Seq<char>
        decreases self,
    {
        if self.0.is_true_literal() {
            Seq::empty()
        } else {
            " WHERE "@ + self.0.sql_text(n)
        }
    }
}

impl OrderByElement {
    pub open spec fn sql_params(self) -> Seq<Param>
        decreases self,
    {
        self.target.sql_params()
    }

    pub open spec fn sql_text(self, n: nat) -> Seq<char>
        decreases self,
    {
        self.target.sql_text(n) + self.direction.sql_text()
    }
}

impl OrderBy {
    pub open spec fn sql_params(self) -> Seq<Param>
        decreases self,
    {
        order_elements_params(self.elements@)
    }

    pub open spec fn sql_text(self, n: nat) -> Seq<char>
        decreases self,
    {
        if self.elements.len() == 0 {
            Seq::empty()
        } else {
            " ORDER BY "@ + order_elements_text(self.elements@, n)
        }
    }
}

impl Select {
    pub open spec fn sql_params(self) -> Seq<Param>
        decreases self,
    {
        let p_list = self.select_list.sql_params();
        let p_from = match self.from {
            Some(from) => from.sql_params(),
            None => Seq::empty(),
        };
        p_list + p_from + joins_params(self.joins@) + self.where_.sql_params()
            + self.order_by.sql_params()
    }

    /// `SELECT <list> <from> <joins> <where> <order by> <limit>`
    pub open spec fn sql_text(self, n: nat) -> Seq<char>
        decreases self,
    {
        let p_list = self.select_list.sql_params();
        let p_from = match self.from {
            Some(from) => from.sql_params(),
            None => Seq::empty(),
        };
        let p_joins = joins_params(self.joins@);
        let p_where = self.where_.sql_params();
        "SELECT "@ + self.select_list.sql_text(n) + " "@ + match self.from {
            Some(from) => from.sql_text(n + p_list.len()),
            None => Seq::empty(),
        } + joins_text(self.joins@, n + p_list.len() + p_from.len()) + self.where_.sql_text(
            n + p_list.len() + p_from.len() + p_joins.len(),
        ) + self.order_by.sql_text(n + p_list.len() + p_from.len() + p_joins.len() + p_where.len())
            + self.limit.sql_text()
    }
}

impl CommonTableExpression {
    pub open spec fn sql_params(self) -> Seq<Param> {
        self.select.sql_params()
    }

    /// `<name>(<columns>) AS (<select>)`
    pub open spec fn sql_text(self, n: nat) -> Seq<char> {
        self.table_name.sql_text() + match self.column_names {
            None => Seq::empty(),
            Some(names) => "("@ + column_aliases_text(names@) + ")"@,
        } + " AS ("@ + self.select.sql_text(n) + ")"@
    }
}

pub open spec fn ctes_params(s: Seq<CommonTableExpression>) -> Seq<Param>
    decreases s.len(),
{
    if s.len() == 0 {
        Seq::empty()
    } else {
        s[0].sql_params() + ctes_params(s.subrange(1, s.len() as int))
    }
}

pub open spec fn ctes_text(s: Seq<CommonTableExpression>, n: nat) -> Seq<char>
    decreases s.len(),
{
    if s.len() == 0 {
        Seq::empty()
    } else {
        s[0].sql_text(n) + separator(s.len() > 1) + ctes_text(
            s.subrange(1, s.len() as int),
            n + s[0].sql_params().len(),
        )
    }
}

impl With {
    pub open spec fn sql_params(self) -> Seq<Param> {
        ctes_params(self.common_table_expressions@)
    }

    /// Nothing when there are no common table expressions, else
    /// `WITH [RECURSIVE ]<cte>, ...`.
    pub open spec fn sql_text(self, n: nat) -> Seq<char> {
        if self.common_table_expressions.len() == 0 {
            Seq::empty()
        } else {
            "WITH "@ + (if self.recursive {
                "RECURSIVE "@
            } else {
                Seq::empty()
            }) + ctes_text(self.common_table_expressions@, n)
        }
    }
}

impl<'a> Explain<'a> {
    pub open spec fn sql_params(self) -> Seq<Param> {
        match self {
            Explain::Select(select) => select.sql_params(),
        }
    }

    pub open spec fn sql_text(self, n: nat) -> Seq<char> {
        "EXPLAIN "@ + match self {
            Explain::Select(select) => select.sql_text(n),
        }
    }
}

impl Expression {
    pub fn is_true_literal_exec(&self) -> (res: bool)
        ensures
            res == self.is_true_literal(),
    {
        match self {
            Expression::Value(Value::Bool(b)) => *b,
            _ => false,
        }
    }

    #[verifier::spinoff_prover]
    #[verifier::rlimit(50)]
    pub fn to_sql(&self, sql: &mut SQL)
        requires
            has_room(*old(sql), self.sql_params()),
        ensures
            appended(
                *old(sql),
                *final(sql),
                self.sql_text(old(sql).param_index as nat),
                self.sql_params(),
            ),
        decreases self,
    {
        match self {
            Expression::ColumnName(column_name) => column_name.to_sql(sql),
            Expression::Value(value) => value.to_sql(sql),
            Expression::And { left, right } => {
                sql.append_syntax("(");
                left.to_sql(sql);
                sql.append_syntax(" AND ");
                right.to_sql(sql);
                sql.append_syntax(")");
            },
            Expression::Or { left, right } => {
                sql.append_syntax("(");
                left.to_sql(sql);
                sql.append_syntax(" OR ");
                right.to_sql(sql);
                sql.append_syntax(")");
            },
            Expression::Not(expr) => {
                sql.append_syntax("NOT ");
                expr.to_sql(sql);
            },
            Expression::BinaryOperator { left, operator, right } => {
                sql.append_syntax("(");
                left.to_sql(sql);
                operator.to_sql(sql);
                right.to_sql(sql);
                sql.append_syntax(")");
            },
            Expression::BinaryArrayOperator { left, operator, right } => {
                sql.append_syntax("(");
                left.to_sql(sql);
                operator.to_sql(sql);
                sql.append_syntax("(");
                let ghost before = *sql;
                let ghost n0 = sql.param_index as nat;
                let mut index: usize = 0;
                assert(right@.skip(0) =~= right@);
                proof {
                    assert(decreases_to!(self => self->BinaryArrayOperator_right));
                    assert(forall|i: int|
                        0 <= i < right@.len() ==> decreases_to!(self->BinaryArrayOperator_right => #[trigger] right@[i]));
                }
                while index < right.len()
                    invariant
                        forall|i: int|
                            0 <= i < right@.len() ==> decreases_to!(self => #[trigger] right@[i]),
                        0 <= index <= right.len(),
                        sql.sql@ + expressions_text(right@.skip(index as int), sql.param_index as nat)
                            == before.sql@ + expressions_text(right@, n0),
                        sql.params@ + expressions_params(right@.skip(index as int))
                            == before.params@ + expressions_params(right@),
                        sql.param_index + expressions_params(right@.skip(index as int)).len() == n0
                            + expressions_params(right@).len(),
                        n0 + expressions_params(right@).len() <= u64::MAX,
                    decreases right.len() - index,
                {
                    let ghost rest = right@.skip(index as int);
                    assert(rest.subrange(1, rest.len() as int) =~= right@.skip(index + 1));
                    assert(rest[0] == right@[index as int]);
                    right[index].to_sql(sql);
                    if index < right.len() - 1 {
                        sql.append_syntax(", ");
                    }
                    index = index + 1;
                }
                sql.append_syntax(")");
                sql.append_syntax(")");
            },
            Expression::UnaryOperator { column, operator } => {
                sql.append_syntax("(");
                column.to_sql(sql);
                operator.to_sql(sql);
                sql.append_syntax(")");
            },
            Expression::FunctionCall { function, args } => {
                function.to_sql(sql);
                sql.append_syntax("(");
                let ghost before = *sql;
                let ghost n0 = sql.param_index as nat;
                let mut index: usize = 0;
                assert(args@.skip(0) =~= args@);
                proof {
                    assert(decreases_to!(self => self->args));
                    assert(forall|i: int|
                        0 <= i < args@.len() ==> decreases_to!(self->args => #[trigger] args@[i]));
                }
                while index < args.len()
                    invariant
                        forall|i: int|
                            0 <= i < args@.len() ==> decreases_to!(self => #[trigger] args@[i]),
                        0 <= index <= args.len(),
                        sql.sql@ + expressions_text(args@.skip(index as int), sql.param_index as nat)
                            == before.sql@ + expressions_text(args@, n0),
                        sql.params@ + expressions_params(args@.skip(index as int))
                            == before.params@ + expressions_params(args@),
                        sql.param_index + expressions_params(args@.skip(index as int)).len() == n0
                            + expressions_params(args@).len(),
                        n0 + expressions_params(args@).len() <= u64::MAX,
                    decreases args.len() - index,
                {
                    let ghost rest = args@.skip(index as int);
                    assert(rest.subrange(1, rest.len() as int) =~= args@.skip(index + 1));
                    assert(rest[0] == args@[index as int]);
                    args[index].to_sql(sql);
                    if index < args.len() - 1 {
                        sql.append_syntax(", ");
                    }
                    index = index + 1;
                }
                sql.append_syntax(")");
            },
            Expression::Exists { select } => {
                sql.append_syntax("EXISTS (");
                select.to_sql(sql);
                sql.append_syntax(")");
            },
            Expression::JsonBuildObject(items) => {
                sql.append_syntax("json_build_object");
                sql.append_syntax("(");
                let ghost before = *sql;
                let ghost n0 = sql.param_index as nat;
                let mut index: usize = 0;
                assert(items@.skip(0) =~= items@);
                proof {
                    assert(decreases_to!(self => self->JsonBuildObject_0));
                    assert(forall|i: int|
                        0 <= i < items@.len() ==> decreases_to!(
                            self->JsonBuildObject_0 => #[trigger] items@[i].1
                        ));
                }
                while index < items.len()
                    invariant
                        forall|i: int|
                            0 <= i < items@.len() ==> decreases_to!(self => #[trigger] items@[i].1),
                        0 <= index <= items.len(),
                        sql.sql@ + json_items_text(items@.skip(index as int), sql.param_index as nat)
                            == before.sql@ + json_items_text(items@, n0),
                        sql.params@ + json_items_params(items@.skip(index as int))
                            == before.params@ + json_items_params(items@),
                        sql.param_index + json_items_params(items@.skip(index as int)).len() == n0
                            + json_items_params(items@).len(),
                        n0 + json_items_params(items@).len() <= u64::MAX,
                    decreases items.len() - index,
                {
                    let ghost rest = items@.skip(index as int);
                    assert(rest.subrange(1, rest.len() as int) =~= items@.skip(index + 1));
                    assert(rest[0] == items@[index as int]);
                    let (label, item) = &items[index];
                    sql.append_syntax("'");
                    sql.append_syntax(label.as_str());
                    sql.append_syntax("'");
                    sql.append_syntax(", ");
                    item.to_sql(sql);
                    if index < items.len() - 1 {
                        sql.append_syntax(", ");
                    }
                    index = index + 1;
                }
                sql.append_syntax(")");
            },
            Expression::RowToJson(table) => {
                sql.append_syntax("row_to_json");
                sql.append_syntax("(");
                table.to_sql(sql);
                sql.append_syntax(")");
            },
            Expression::TableReference(table) => table.to_sql(sql),
            Expression::SafeOffSet { offset } => {
                sql.append_syntax("[SAFE_OFFSET(");
                let text = u64_to_text(*offset);
                sql.append_syntax(text.as_str());
                sql.append_syntax(")]");
            },
            Expression::ArrayConstructor(items) => {
                sql.append_syntax("[");
                let ghost before = *sql;
                let ghost n0 = sql.param_index as nat;
                let mut index: usize = 0;
                assert(items@.skip(0) =~= items@);
                proof {
                    assert(decreases_to!(self => self->ArrayConstructor_0));
                    assert(forall|i: int|
                        0 <= i < items@.len() ==> decreases_to!(self->ArrayConstructor_0 => #[trigger] items@[i]));
                }
                while index < items.len()
                    invariant
                        forall|i: int|
                            0 <= i < items@.len() ==> decreases_to!(self => #[trigger] items@[i]),
                        0 <= index <= items.len(),
                        sql.sql@ + expressions_text(items@.skip(index as int), sql.param_index as nat)
                            == before.sql@ + expressions_text(items@, n0),
                        sql.params@ + expressions_params(items@.skip(index as int))
                            == before.params@ + expressions_params(items@),
                        sql.param_index + expressions_params(items@.skip(index as int)).len() == n0
                            + expressions_params(items@).len(),
                        n0 + expressions_params(items@).len() <= u64::MAX,
                    decreases items.len() - index,
                {
                    let ghost rest = items@.skip(index as int);
                    assert(rest.subrange(1, rest.len() as int) =~= items@.skip(index + 1));
                    assert(rest[0] == items@[index as int]);
                    items[index].to_sql(sql);
                    if index < items.len() - 1 {
                        sql.append_syntax(", ");
                    }
                    index = index + 1;
                }
                sql.append_syntax("]");
            },
            Expression::JoinExpressions(items) => {
                let ghost before = *sql;
                let ghost n0 = sql.param_index as nat;
                let mut index: usize = 0;
                assert(items@.skip(0) =~= items@);
                proof {
                    assert(decreases_to!(self => self->JoinExpressions_0));
                    assert(forall|i: int|
                        0 <= i < items@.len() ==> decreases_to!(self->JoinExpressions_0 => #[trigger] items@[i]));
                }
                while index < items.len()
                    invariant
                        forall|i: int|
                            0 <= i < items@.len() ==> decreases_to!(self => #[trigger] items@[i]),
                        0 <= index <= items.len(),
                        sql.sql@ + joined_text(items@.skip(index as int), sql.param_index as nat)
                            == before.sql@ + joined_text(items@, n0),
                        sql.params@ + expressions_params(items@.skip(index as int))
                            == before.params@ + expressions_params(items@),
                        sql.param_index + expressions_params(items@.skip(index as int)).len() == n0
                            + expressions_params(items@).len(),
                        n0 + expressions_params(items@).len() <= u64::MAX,
                    decreases items.len() - index,
                {
                    let ghost rest = items@.skip(index as int);
                    assert(rest.subrange(1, rest.len() as int) =~= items@.skip(index + 1));
                    assert(rest[0] == items@[index as int]);
                    items[index].to_sql(sql);
                    index = index + 1;
                }
            },
            Expression::Count(count_type) => {
                sql.append_syntax("COUNT");
                sql.append_syntax("(");
                count_type.to_sql(sql);
                sql.append_syntax(")");
            },
        }
        assert(sql.sql@ =~= old(sql).sql@ + self.sql_text(old(sql).param_index as nat));
        assert(sql.params@ =~= old(sql).params@ + self.sql_params());
    }
}

impl SelectList {
    pub fn to_sql(&self, sql: &mut SQL)
        requires
            has_room(*old(sql), self.sql_params()),
        ensures
            appended(
                *old(sql),
                *final(sql),
                self.sql_text(old(sql).param_index as nat),
                self.sql_params(),
            ),
        decreases self,
    {
        match self {
            SelectList::SelectList(select_list) => {
                let ghost before = *sql;
                let ghost n0 = sql.param_index as nat;
                let mut index: usize = 0;
                assert(select_list@.skip(0) =~= select_list@);
                proof {
                    assert(decreases_to!(self => self->SelectList_0));
                    assert(forall|i: int|
                        0 <= i < select_list@.len() ==> decreases_to!(
                            self->SelectList_0 => #[trigger] select_list@[i].1
                        ));
                }
                while index < select_list.len()
                    invariant
                        forall|i: int|
                            0 <= i < select_list@.len() ==> decreases_to!(
                                self => #[trigger] select_list@[i].1
                            ),
                        0 <= index <= select_list.len(),
                        sql.sql@ + select_items_text(
                            select_list@.skip(index as int),
                            sql.param_index as nat,
                        ) == before.sql@ + select_items_text(select_list@, n0),
                        sql.params@ + select_items_params(select_list@.skip(index as int))
                            == before.params@ + select_items_params(select_list@),
                        sql.param_index + select_items_params(select_list@.skip(index as int)).len()
                            == n0 + select_items_params(select_list@).len(),
                        n0 + select_items_params(select_list@).len() <= u64::MAX,
                    decreases select_list.len() - index,
                {
                    let ghost rest = select_list@.skip(index as int);
                    assert(rest.subrange(1, rest.len() as int) =~= select_list@.skip(index + 1));
                    assert(rest[0] == select_list@[index as int]);
                    let (col, expr) = &select_list[index];
                    expr.to_sql(sql);
                    sql.append_syntax(" AS ");
                    col.to_sql(sql);
                    if index < select_list.len() - 1 {
                        sql.append_syntax(", ");
                    }
                    index = index + 1;
                }
            },
            SelectList::SelectStar => {
                sql.append_syntax("*");
            },
            SelectList::SelectStarFrom(table) => {
                table.to_sql(sql);
                sql.append_syntax(".*");
            },
            SelectList::Select1 => {
                sql.append_syntax("1");
            },
            SelectList::SelectStarComposite(expr) => {
                sql.append_syntax("(");
                expr.to_sql(sql);
                sql.append_syntax(").*");
            },
        }
        assert(sql.sql@ =~= old(sql).sql@ + self.sql_text(old(sql).param_index as nat));
        assert(sql.params@ =~= old(sql).params@ + self.sql_params());
    }
}

impl From {
    pub fn to_sql(&self, sql: &mut SQL)
        requires
            has_room(*old(sql), self.sql_params()),
        ensures
            appended(
                *old(sql),
                *final(sql),
                self.sql_text(old(sql).param_index as nat),
                self.sql_params(),
            ),
        decreases self,
    {
        sql.append_syntax("FROM ");
        match self {
            From::Table { name, alias } => {
                name.to_sql(sql);
                sql.append_syntax(" AS ");
                alias.to_sql(sql);
            },
            From::Select { select, alias } => {
                sql.append_syntax("(");
                select.to_sql(sql);
                sql.append_syntax(")");
                sql.append_syntax(" AS ");
                alias.to_sql(sql);
            },
            From::JsonbToRecordset { expression, alias, columns } => {
                sql.append_syntax("jsonb_to_recordset(");
                expression.to_sql(sql);
                sql.append_syntax(")");
                sql.append_syntax(" AS ");
                alias.to_sql(sql);
                sql.append_syntax("(");
                let ghost before = *sql;
                let mut index: usize = 0;
                assert(columns@.skip(0) =~= columns@);
                while index < columns.len()
                    invariant
                        0 <= index <= columns.len(),
                        sql.sql@ + typed_columns_text(columns@.skip(index as int)) == before.sql@
                            + typed_columns_text(columns@),
                        sql.params@ == before.params@,
                        sql.param_index == before.param_index,
                    decreases columns.len() - index,
                {
                    let ghost rest = columns@.skip(index as int);
                    assert(rest.subrange(1, rest.len() as int) =~= columns@.skip(index + 1));
                    assert(rest[0] == columns@[index as int]);
                    let (column, scalar_type) = &columns[index];
                    column.to_sql(sql);
                    sql.append_syntax(" ");
                    scalar_type.to_sql(sql);
                    if index < columns.len() - 1 {
                        sql.append_syntax(", ");
                    }
                    index = index + 1;
                }
                sql.append_syntax(")");
            },
        }
        assert(sql.sql@ =~= old(sql).sql@ + self.sql_text(old(sql).param_index as nat));
        assert(sql.params@ =~= old(sql).params@ + self.sql_params());
    }
}

impl Join {
    pub fn to_sql(&self, sql: &mut SQL)
        requires
            has_room(*old(sql), self.sql_params()),
        ensures
            appended(
                *old(sql),
                *final(sql),
                self.sql_text(old(sql).param_index as nat),
                self.sql_params(),
            ),
        decreases self,
    {
        match self {
            Join::LeftOuterJoinLateral(join) => {
                sql.append_syntax(" LEFT OUTER JOIN LATERAL ");
                sql.append_syntax("(");
                join.select.to_sql(sql);
                sql.append_syntax(")");
                sql.append_syntax(" AS ");
                join.alias.to_sql(sql);
                sql.append_syntax(" ON ('true') ");
            },
            Join::InnerJoinLateral(join) => {
                sql.append_syntax(" INNER JOIN LATERAL ");
                sql.append_syntax("(");
                join.select.to_sql(sql);
                sql.append_syntax(")");
                sql.append_syntax(" AS ");
                join.alias.to_sql(sql);
                sql.append_syntax(" ON ('true') ");
            },
            Join::CrossJoin(join) => {
                sql.append_syntax(" CROSS JOIN ");
                sql.append_syntax("(");
                join.select.to_sql(sql);
                sql.append_syntax(")");
                sql.append_syntax(" AS ");
                join.alias.to_sql(sql);
            },
        }
        assert(sql.sql@ =~= old(sql).sql@ + self.sql_text(old(sql).param_index as nat));
        assert(sql.params@ =~= old(sql).params@ + self.sql_params());
    }
}

impl Where {
    pub fn to_sql(&self, sql: &mut SQL)
        requires
            has_room(*old(sql), self.sql_params()),
        ensures
            appended(
                *old(sql),
                *final(sql),
                self.sql_text(old(sql).param_index as nat),
                self.sql_params(),
            ),
        decreases self,
    {
        let Where(expression) = self;
        if !expression.is_true_literal_exec() {
            sql.append_syntax(" WHERE ");
            expression.to_sql(sql);
        }
        assert(sql.sql@ =~= old(sql).sql@ + self.sql_text(old(sql).param_index as nat));
        assert(sql.params@ =~= old(sql).params@ + self.sql_params());
    }
}

impl OrderByElement {
    pub fn to_sql(&self, sql: &mut SQL)
        requires
            has_room(*old(sql), self.sql_params()),
        ensures
            appended(
                *old(sql),
                *final(sql),
                self.sql_text(old(sql).param_index as nat),
                self.sql_params(),
            ),
        decreases self,
    {
        self.target.to_sql(sql);
        self.direction.to_sql(sql);
        assert(sql.sql@ =~= old(sql).sql@ + self.sql_text(old(sql).param_index as nat));
        assert(sql.params@ =~= old(sql).params@ + self.sql_params());
    }
}

impl OrderBy {
    pub fn to_sql(&self, sql: &mut SQL)
        requires
            has_room(*old(sql), self.sql_params()),
        ensures
            appended(
                *old(sql),
                *final(sql),
                self.sql_text(old(sql).param_index as nat),
                self.sql_params(),
            ),
        decreases self,
    {
        if self.elements.len() != 0 {
            sql.append_syntax(" ORDER BY ");
            let ghost before = *sql;
            let ghost n0 = sql.param_index as nat;
            let mut index: usize = 0;
            assert(self.elements@.skip(0) =~= self.elements@);
            proof {
                assert(forall|i: int|
                    0 <= i < self.elements@.len() ==> decreases_to!(
                        self.elements => #[trigger] self.elements@[i]
                    ));
            }
            while index < self.elements.len()
                invariant
                    forall|i: int|
                        0 <= i < self.elements@.len() ==> decreases_to!(
                            self => #[trigger] self.elements@[i]
                        ),
                    0 <= index <= self.elements.len(),
                    sql.sql@ + order_elements_text(
                        self.elements@.skip(index as int),
                        sql.param_index as nat,
                    ) == before.sql@ + order_elements_text(self.elements@, n0),
                    sql.params@ + order_elements_params(self.elements@.skip(index as int))
                        == before.params@ + order_elements_params(self.elements@),
                    sql.param_index + order_elements_params(self.elements@.skip(index as int)).len()
                        == n0 + order_elements_params(self.elements@).len(),
                    n0 + order_elements_params(self.elements@).len() <= u64::MAX,
                decreases self.elements.len() - index,
            {
                let ghost rest = self.elements@.skip(index as int);
                assert(rest.subrange(1, rest.len() as int) =~= self.elements@.skip(index + 1));
                assert(rest[0] == self.elements@[index as int]);
                self.elements[index].to_sql(sql);
                if index < self.elements.len() - 1 {
                    sql.append_syntax(", ");
                }
                index = index + 1;
            }
        }
        assert(sql.sql@ =~= old(sql).sql@ + self.sql_text(old(sql).param_index as nat));
        assert(sql.params@ =~= old(sql).params@ + self.sql_params());
    }
}

impl Select {
    #[verifier::spinoff_prover]
    #[verifier::rlimit(50)]
    pub fn to_sql(&self, sql: &mut SQL)
        requires
            has_room(*old(sql), self.sql_params()),
        ensures
            appended(
                *old(sql),
                *final(sql),
                self.sql_text(old(sql).param_index as nat),
                self.sql_params(),
            ),
        decreases self,
    {
        sql.append_syntax("SELECT ");
        self.select_list.to_sql(sql);
        sql.append_syntax(" ");
        match &self.from {
            Some(from) => from.to_sql(sql),
            None => (),
        }
        let ghost before = *sql;
        let ghost n0 = sql.param_index as nat;
        let mut index: usize = 0;
        assert(self.joins@.skip(0) =~= self.joins@);
        proof {
            assert(forall|i: int|
                0 <= i < self.joins@.len() ==> decreases_to!(self.joins => #[trigger] self.joins@[i]));
        }
        while index < self.joins.len()
            invariant
                forall|i: int|
                    0 <= i < self.joins@.len() ==> decreases_to!(self => #[trigger] self.joins@[i]),
                0 <= index <= self.joins.len(),
                sql.sql@ + joins_text(self.joins@.skip(index as int), sql.param_index as nat)
                    == before.sql@ + joins_text(self.joins@, n0),
                sql.params@ + joins_params(self.joins@.skip(index as int)) == before.params@
                    + joins_params(self.joins@),
                sql.param_index + joins_params(self.joins@.skip(index as int)).len() == n0
                    + joins_params(self.joins@).len(),
                n0 + joins_params(self.joins@).len() + self.where_.sql_params().len()
                    + self.order_by.sql_params().len() <= u64::MAX,
            decreases self.joins.len() - index,
        {
            let ghost rest = self.joins@.skip(index as int);
            assert(rest.subrange(1, rest.len() as int) =~= self.joins@.skip(index + 1));
            assert(rest[0] == self.joins@[index as int]);
            self.joins[index].to_sql(sql);
            index = index + 1;
        }
        self.where_.to_sql(sql);
        self.order_by.to_sql(sql);
        self.limit.to_sql(sql);
        assert(sql.sql@ =~= old(sql).sql@ + self.sql_text(old(sql).param_index as nat));
        assert(sql.params@ =~= old(sql).params@ + self.sql_params());
    }
}

impl CommonTableExpression {
    pub fn to_sql(&self, sql: &mut SQL)
        requires
            has_room(*old(sql), self.sql_params()),
        ensures
            appended(
                *old(sql),
                *final(sql),
                self.sql_text(old(sql).param_index as nat),
                self.sql_params(),
            ),
    {
        self.table_name.to_sql(sql);
        match &self.column_names {
            None => {},
            Some(names) => {
                sql.append_syntax("(");
                let ghost before = *sql;
                let mut index: usize = 0;
                assert(names@.skip(0) =~= names@);
                while index < names.len()
                    invariant
                        0 <= index <= names.len(),
                        sql.sql@ + column_aliases_text(names@.skip(index as int)) == before.sql@
                            + column_aliases_text(names@),
                        sql.params@ == before.params@,
                        sql.param_index == before.param_index,
                    decreases names.len() - index,
                {
                    let ghost rest = names@.skip(index as int);
                    assert(rest.subrange(1, rest.len() as int) =~= names@.skip(index + 1));
                    assert(rest[0] == names@[index as int]);
                    names[index].to_sql(sql);
                    index = index + 1;
                }
                sql.append_syntax(")");
            },
        }
        sql.append_syntax(" AS (");
        self.select.to_sql(sql);
        sql.append_syntax(")");
        assert(sql.sql@ =~= old(sql).sql@ + self.sql_text(old(sql).param_index as nat));
        assert(sql.params@ =~= old(sql).params@ + self.sql_params());
    }
}

impl With {
    pub fn to_sql(&self, sql: &mut SQL)
        requires
            has_room(*old(sql), self.sql_params()),
        ensures
            appended(
                *old(sql),
                *final(sql),
                self.sql_text(old(sql).param_index as nat),
                self.sql_params(),
            ),
    {
        if self.common_table_expressions.len() == 0 {
            assert(self.sql_params() =~= Seq::<Param>::empty());
        } else {
            sql.append_syntax("WITH ");
            if self.recursive {
                sql.append_syntax("RECURSIVE ");
            }
            let ctes = &self.common_table_expressions;
            let ghost before = *sql;
            let ghost n0 = sql.param_index as nat;
            let mut index: usize = 0;
            assert(ctes@.skip(0) =~= ctes@);
            while index < ctes.len()
                invariant
                    0 <= index <= ctes.len(),
                    sql.sql@ + ctes_text(ctes@.skip(index as int), sql.param_index as nat)
                        == before.sql@ + ctes_text(ctes@, n0),
                    sql.params@ + ctes_params(ctes@.skip(index as int)) == before.params@
                        + ctes_params(ctes@),
                    sql.param_index + ctes_params(ctes@.skip(index as int)).len() == n0
                        + ctes_params(ctes@).len(),
                    n0 + ctes_params(ctes@).len() <= u64::MAX,
                decreases ctes.len() - index,
            {
                let ghost rest = ctes@.skip(index as int);
                assert(rest.subrange(1, rest.len() as int) =~= ctes@.skip(index + 1));
                assert(rest[0] == ctes@[index as int]);
                ctes[index].to_sql(sql);
                if index < ctes.len() - 1 {
                    sql.append_syntax(", ");
                }
                index = index + 1;
            }
        }
        assert(sql.sql@ =~= old(sql).sql@ + self.sql_text(old(sql).param_index as nat));
        assert(sql.params@ =~= old(sql).params@ + self.sql_params());
    }
}

impl<'a> Explain<'a> {
    pub fn to_sql(&self, sql: &mut SQL)
        requires
            has_room(*old(sql), self.sql_params()),
        ensures
            appended(
                *old(sql),
                *final(sql),
                self.sql_text(old(sql).param_index as nat),
                self.sql_params(),
            ),
    {
        sql.append_syntax("EXPLAIN ");
        match self {
            Explain::Select(select) => select.to_sql(sql),
        }
        assert(sql.sql@ =~= old(sql).sql@ + self.sql_text(old(sql).param_index as nat));
        assert(sql.params@ =~= old(sql).params@ + self.sql_params());
    }
}

// What the rendering of a clause shows.

/// No character of `s` is `c`.
pub open spec fn lacks_char(s: Seq<char>, c: char) -> bool {
    forall|i: int| 0 <= i < s.len() ==> s[i] != c
}

/// A `LIMIT`/`OFFSET` clause writes each number that it has in decimal after its keyword,
/// the limit before the offset, and writes a keyword only for a number that it has.
pub proof fn limit_clause_shows_its_numbers(l: Limit)
    ensures
        l.limit is None ==> lacks_char(l.sql_text(), 'L'),
        l.offset is None ==> lacks_char(l.sql_text(), 'O'),
        l.limit matches Some(x) ==> exists|t: Seq<char>, rest: Seq<char>|
            #![trigger is_numeral(t), rest.len()]
            l.sql_text() == " LIMIT "@ + t + rest && is_numeral(t) && numeral_value(t)
                == x && (rest.len() == 0 || rest[0] == ' '),
        l.offset matches Some(o) ==> exists|before: Seq<char>, t: Seq<char>|
            #![trigger is_numeral(t), before.len()]
            l.sql_text() == before + " OFFSET "@ + t && is_numeral(t) && numeral_value(t)
                == o,
{
    reveal_strlit(" LIMIT ");
    reveal_strlit(" OFFSET ");
    let a = match l.limit {
        None => Seq::<char>::empty(),
        Some(limit) => " LIMIT "@ + nat_text(limit as nat),
    };
    let b = match l.offset {
        None => Seq::<char>::empty(),
        Some(offset) => " OFFSET "@ + nat_text(offset as nat),
    };
    assert(l.sql_text() == a + b);
    match l.limit {
        Some(x) => {
            lemma_nat_text_value(x as nat);
            assert(l.sql_text() == " LIMIT "@ + nat_text(x as nat) + b);
            assert(is_numeral(nat_text(x as nat)));
        },
        None => {},
    }
    match l.offset {
        Some(o) => {
            lemma_nat_text_value(o as nat);
            assert(l.sql_text() == a + " OFFSET "@ + nat_text(o as nat));
            assert(is_numeral(nat_text(o as nat)));
        },
        None => {},
    }
    assert(lacks_char(a, 'O')) by {
        match l.limit {
            Some(x) => {
                lemma_nat_text_value(x as nat);
                assert forall|i: int| 0 <= i < a.len() implies a[i] != 'O' by {
                    if i >= 7 {
                        assert(a[i] == nat_text(x as nat)[i - 7]);
                    }
                }
            },
            None => {},
        }
    }
    assert(lacks_char(b, 'L')) by {
        match l.offset {
            Some(o) => {
                lemma_nat_text_value(o as nat);
                assert forall|i: int| 0 <= i < b.len() implies b[i] != 'L' by {
                    if i >= 8 {
                        assert(b[i] == nat_text(o as nat)[i - 8]);
                    }
                }
            },
            None => {},
        }
    }
    assert forall|c: char| lacks_char(a, c) && lacks_char(b, c) implies lacks_char(a + b, c) by {
        assert forall|i: int| 0 <= i < (a + b).len() implies (a + b)[i] != c by {
            if i < a.len() {
                assert((a + b)[i] == a[i]);
            } else {
                assert((a + b)[i] == b[i - a.len()]);
            }
        }
    }
}

/// The text of a table or column name starts with a quote.
proof fn lemma_column_text_quoted(c: ColumnName)
    ensures
        c.sql_text().len() > 0,
        c.sql_text()[0] == '"',
{
    let t = match c {
        ColumnName::TableColumn { table, .. } => table,
        ColumnName::AliasedColumn { table, .. } => table,
    };
    assert(t.sql_text()[0] == '"');
    assert(c.sql_text()[0] == t.sql_text()[0]);
}

/// A count shows what it counts: the text of a count tells whether it counts the rows, the
/// values of a column or their distinct values, and which column.
pub proof fn count_text_tells_what_it_counts(a: CountType, b: CountType)
    requires
        a.sql_text() == b.sql_text(),
    ensures
        a is Star <==> b is Star,
        a is Simple <==> b is Simple,
        a is Distinct <==> b is Distinct,
        a matches CountType::Simple(x) ==> b matches CountType::Simple(y) && x.sql_text()
            == y.sql_text(),
        a matches CountType::Distinct(x) ==> b matches CountType::Distinct(y) && x.sql_text()
            == y.sql_text(),
{
    reveal_strlit("*");
    reveal_strlit("DISTINCT ");
    match a {
        CountType::Simple(x) => lemma_column_text_quoted(x),
        CountType::Distinct(x) => lemma_column_text_quoted(x),
        _ => {},
    }
    match b {
        CountType::Simple(y) => lemma_column_text_quoted(y),
        CountType::Distinct(y) => lemma_column_text_quoted(y),
        _ => {},
    }
    assert(a.sql_text()[0] == b.sql_text()[0]);
    if a is Distinct && b is Distinct {
        let (x, y) = (a->Distinct_0, b->Distinct_0);
        assert(x.sql_text() =~= a.sql_text().subrange(9, a.sql_text().len() as int));
        assert(y.sql_text() =~= b.sql_text().subrange(9, b.sql_text().len() as int));
    }
}

/// Counting the values of a column shows the column: `COUNT(<column>)`, and
/// `COUNT(DISTINCT <column>)` for distinct values; counting the rows is `COUNT(*)`.
pub proof fn counts_show_their_column(c: ColumnName, n: nat)
    ensures
        Expression::Count(CountType::Simple(c)).sql_text(n) == "COUNT("@ + c.sql_text() + ")"@,
        Expression::Count(CountType::Distinct(c)).sql_text(n) == "COUNT(DISTINCT "@ + c.sql_text()
            + ")"@,
        Expression::Count(CountType::Star).sql_text(n) == "COUNT(*)"@,
{
    reveal_strlit("COUNT");
    reveal_strlit("(");
    reveal_strlit(")");
    reveal_strlit("COUNT(");
    reveal_strlit("*");
    reveal_strlit("COUNT(*)");
    reveal_strlit("DISTINCT ");
    reveal_strlit("COUNT(DISTINCT ");
    assert(Expression::Count(CountType::Simple(c)).sql_text(n) =~= "COUNT("@ + c.sql_text() + ")"@);
    assert(Expression::Count(CountType::Distinct(c)).sql_text(n) =~= "COUNT(DISTINCT "@
        + c.sql_text() + ")"@);
    assert(Expression::Count(CountType::Star).sql_text(n) =~= "COUNT(*)"@);
}

} // verus!
