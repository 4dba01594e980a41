//! Handle filtering/where clauses translation.
//!
//! A boolean expression of the request becomes a SQL expression, together with the joins
//! that its columns need: each relationship on the path to a compared column becomes an
//! `INNER JOIN LATERAL` with a fresh alias, numbered by a counter that the translation
//! threads through.
use vstd::prelude::*;

use super::error::{Error, ErrorView, Failure};
use super::helpers::{Env, RootAndCurrentTables, TableNameAndReference};
use super::relationships::{mapping_error, mapping_expression, peel_ands};
use super::values::{json_failure, json_translated};
use crate::sql::ast::{
    BinaryArrayOperator, BinaryOperator, ColumnName, Expression, From, GroupBy, Join, SelectList,
    TableName, UnaryOperator, Value,
};
use crate::sql::helpers::{
    alias_named, indexed_name, is_empty_limit, is_empty_order_by, is_empty_with, true_literal,
};
use crate::types::input;

verus! {

// Counting the aliases and the joins that a translation makes.

/// The number of fresh aliases that translating `e` draws: one for each relationship on
/// the path to a compared column, at any depth.
pub open spec fn expr_aliases(e: input::Expression) -> nat
    decreases e,
{
    match e {
        input::Expression::And { expressions } => exprs_aliases(expressions@),
        input::Expression::Or { expressions } => exprs_aliases(expressions@),
        input::Expression::Not { expression } => expr_aliases(*expression),
        input::Expression::UnaryComparisonOperator { column, .. } => target_aliases(*column),
        input::Expression::BinaryComparisonOperator { column, value, .. } => target_aliases(
            *column,
        ) + value_aliases(*value),
        input::Expression::BinaryArrayComparisonOperator { column, values, .. } => target_aliases(
            *column,
        ) + values_aliases(values@),
        input::Expression::Exists { predicate, .. } => expr_aliases(*predicate),
    }
}

/// The number of fresh aliases that translating each of `es` draws.
pub open spec fn exprs_aliases(es: Seq<input::Expression>) -> nat
    decreases es,
{
    if es.len() == 0 {
        0
    } else {
        exprs_aliases(es.subrange(0, es.len() - 1)) + expr_aliases(es[es.len() - 1])
    }
}

/// The number of fresh aliases that translating a comparison target draws.
pub open spec fn target_aliases(t: input::ComparisonTarget) -> nat
    decreases t,
{
    match t {
        input::ComparisonTarget::Column { path, .. } => path_aliases(path@),
        input::ComparisonTarget::RootTableColumn { .. } => 0,
    }
}

/// The number of fresh aliases that translating a path draws.
pub open spec fn path_aliases(path: Seq<input::PathElementWithPredicate>) -> nat
    decreases path,
{
    if path.len() == 0 {
        0
    } else {
        path_aliases(path.subrange(0, path.len() - 1)) + 1 + expr_aliases(
            *path[path.len() - 1].predicate,
        )
    }
}

/// The number of fresh aliases that translating a comparison value draws.
pub open spec fn value_aliases(v: input::ComparisonValue) -> nat
    decreases v,
{
    match v {
        input::ComparisonValue::Column { column } => target_aliases(*column),
        _ => 0,
    }
}

/// The number of fresh aliases that translating each of `vs` draws.
pub open spec fn values_aliases(vs: Seq<input::ComparisonValue>) -> nat
    decreases vs,
{
    if vs.len() == 0 {
        0
    } else {
        values_aliases(vs.subrange(0, vs.len() - 1)) + value_aliases(vs[vs.len() - 1])
    }
}

/// The number of joins that translating `e` returns: one for each relationship on the path
/// to a column compared outside of an `EXISTS`.
pub open spec fn expr_joins(e: input::Expression) -> nat
    decreases e,
{
    match e {
        input::Expression::And { expressions } => exprs_joins(expressions@),
        input::Expression::Or { expressions } => exprs_joins(expressions@),
        input::Expression::Not { expression } => expr_joins(*expression),
        input::Expression::UnaryComparisonOperator { column, .. } => target_joins(*column),
        input::Expression::BinaryComparisonOperator { column, value, .. } => target_joins(*column)
            + value_joins(*value),
        input::Expression::BinaryArrayComparisonOperator { column, values, .. } => target_joins(
            *column,
        ) + values_joins(values@),
        input::Expression::Exists { .. } => 0,
    }
}

/// The number of joins that translating each of `es` returns.
pub open spec fn exprs_joins(es: Seq<input::Expression>) -> nat
    decreases es,
{
    if es.len() == 0 {
        0
    } else {
        exprs_joins(es.subrange(0, es.len() - 1)) + expr_joins(es[es.len() - 1])
    }
}

/// The number of joins that translating a comparison target returns.
pub open spec fn target_joins(t: input::ComparisonTarget) -> nat {
    match t {
        input::ComparisonTarget::Column { path, .. } => path@.len(),
        input::ComparisonTarget::RootTableColumn { .. } => 0,
    }
}

/// The number of joins that translating a comparison value returns.
pub open spec fn value_joins(v: input::ComparisonValue) -> nat {
    match v {
        input::ComparisonValue::Column { column } => target_joins(*column),
        _ => 0,
    }
}

/// The number of joins that translating each of `vs` returns.
pub open spec fn values_joins(vs: Seq<input::ComparisonValue>) -> nat
    decreases vs,
{
    if vs.len() == 0 {
        0
    } else {
        values_joins(vs.subrange(0, vs.len() - 1)) + value_joins(vs[vs.len() - 1])
    }
}

// Operators.

/// The SQL operator named `name` in the schema; an unknown name stands for equality.
pub open spec fn operator_named(name: Seq<char>) -> BinaryOperator {
    if name == "eq"@ {
        BinaryOperator::Equals
    } else if name == "neq"@ {
        BinaryOperator::NotEquals
    } else if name == "lt"@ {
        BinaryOperator::LessThan
    } else if name == "lte"@ {
        BinaryOperator::LessThanOrEqualTo
    } else if name == "gt"@ {
        BinaryOperator::GreaterThan
    } else if name == "gte"@ {
        BinaryOperator::GreaterThanOrEqualTo
    } else if name == "like"@ {
        BinaryOperator::Like
    } else if name == "nlike"@ {
        BinaryOperator::NotLike
    } else if name == "ilike"@ {
        BinaryOperator::CaseInsensitiveLike
    } else if name == "nilike"@ {
        BinaryOperator::NotCaseInsensitiveLike
    } else if name == "similar"@ {
        BinaryOperator::Similar
    } else if name == "nsimilar"@ {
        BinaryOperator::NotSimilar
    } else if name == "regex"@ {
        BinaryOperator::Regex
    } else if name == "nregex"@ {
        BinaryOperator::NotRegex
    } else if name == "iregex"@ {
        BinaryOperator::CaseInsensitiveRegex
    } else if name == "niregex"@ {
        BinaryOperator::NotCaseInsensitiveRegex
    } else {
        BinaryOperator::Equals
    }
}

/// The SQL operator with the meaning of an operator of the schema.
pub open spec fn sql_operator_of(operator: crate::metadata::BinaryOperator) -> BinaryOperator {
    match operator {
        crate::metadata::BinaryOperator::Equals => BinaryOperator::Equals,
        crate::metadata::BinaryOperator::NotEquals => BinaryOperator::NotEquals,
        crate::metadata::BinaryOperator::LessThan => BinaryOperator::LessThan,
        crate::metadata::BinaryOperator::LessThanOrEqualTo => BinaryOperator::LessThanOrEqualTo,
        crate::metadata::BinaryOperator::GreaterThan => BinaryOperator::GreaterThan,
        crate::metadata::BinaryOperator::GreaterThanOrEqualTo => BinaryOperator::GreaterThanOrEqualTo,
        crate::metadata::BinaryOperator::Like => BinaryOperator::Like,
        crate::metadata::BinaryOperator::NotLike => BinaryOperator::NotLike,
        crate::metadata::BinaryOperator::CaseInsensitiveLike => BinaryOperator::CaseInsensitiveLike,
        crate::metadata::BinaryOperator::NotCaseInsensitiveLike => BinaryOperator::NotCaseInsensitiveLike,
        crate::metadata::BinaryOperator::Similar => BinaryOperator::Similar,
        crate::metadata::BinaryOperator::NotSimilar => BinaryOperator::NotSimilar,
        crate::metadata::BinaryOperator::Regex => BinaryOperator::Regex,
        crate::metadata::BinaryOperator::NotRegex => BinaryOperator::NotRegex,
        crate::metadata::BinaryOperator::CaseInsensitiveRegex => BinaryOperator::CaseInsensitiveRegex,
        crate::metadata::BinaryOperator::NotCaseInsensitiveRegex => BinaryOperator::NotCaseInsensitiveRegex,
    }
}

/// Comparing with an operator called by the name the schema gives it compares with that
/// operator: the name of every operator of the schema translates to the SQL operator of
/// the same meaning.
pub proof fn schema_operator_names_translate_to_their_operators(
    operator: crate::metadata::BinaryOperator,
    name: String,
)
    ensures
        operator_named(operator.name_text()) == sql_operator_of(operator),
        name@ == operator.name_text() ==> binary_operator_of(
            input::BinaryComparisonOperator::Other { name },
        ) == sql_operator_of(operator),
{
    reveal_strlit("eq");
    reveal_strlit("neq");
    reveal_strlit("lt");
    reveal_strlit("lte");
    reveal_strlit("gt");
    reveal_strlit("gte");
    reveal_strlit("like");
    reveal_strlit("nlike");
    reveal_strlit("ilike");
    reveal_strlit("nilike");
    reveal_strlit("similar");
    reveal_strlit("nsimilar");
    reveal_strlit("regex");
    reveal_strlit("nregex");
    reveal_strlit("iregex");
    reveal_strlit("niregex");
    let text = operator.name_text();
    match operator {
        crate::metadata::BinaryOperator::Equals => {
            assert(text == "eq"@);
        },
        crate::metadata::BinaryOperator::NotEquals => {
            assert(text == "neq"@);
            assert(text.len() != "eq"@.len());
        },
        crate::metadata::BinaryOperator::LessThan => {
            assert(text == "lt"@);
            assert(text[0] != "eq"@[0]);
            assert(text.len() != "neq"@.len());
        },
        crate::metadata::BinaryOperator::LessThanOrEqualTo => {
            assert(text == "lte"@);
            assert(text.len() != "eq"@.len());
            assert(text[0] != "neq"@[0]);
            assert(text.len() != "lt"@.len());
        },
        crate::metadata::BinaryOperator::GreaterThan => {
            assert(text == "gt"@);
            assert(text[0] != "eq"@[0]);
            assert(text.len() != "neq"@.len());
            assert(text[0] != "lt"@[0]);
            assert(text.len() != "lte"@.len());
        },
        crate::metadata::BinaryOperator::GreaterThanOrEqualTo => {
            assert(text == "gte"@);
            assert(text.len() != "eq"@.len());
            assert(text[0] != "neq"@[0]);
            assert(text.len() != "lt"@.len());
            assert(text[0] != "lte"@[0]);
            assert(text.len() != "gt"@.len());
        },
        crate::metadata::BinaryOperator::Like => {
            assert(text == "like"@);
            assert(text.len() != "eq"@.len());
            assert(text.len() != "neq"@.len());
            assert(text.len() != "lt"@.len());
            assert(text.len() != "lte"@.len());
            assert(text.len() != "gt"@.len());
            assert(text.len() != "gte"@.len());
        },
        crate::metadata::BinaryOperator::NotLike => {
            assert(text == "nlike"@);
            assert(text.len() != "eq"@.len());
            assert(text.len() != "neq"@.len());
            assert(text.len() != "lt"@.len());
            assert(text.len() != "lte"@.len());
            assert(text.len() != "gt"@.len());
            assert(text.len() != "gte"@.len());
            assert(text.len() != "like"@.len());
        },
        crate::metadata::BinaryOperator::CaseInsensitiveLike => {
            assert(text == "ilike"@);
            assert(text.len() != "eq"@.len());
            assert(text.len() != "neq"@.len());
            assert(text.len() != "lt"@.len());
            assert(text.len() != "lte"@.len());
            assert(text.len() != "gt"@.len());
            assert(text.len() != "gte"@.len());
            assert(text.len() != "like"@.len());
            assert(text[0] != "nlike"@[0]);
        },
        crate::metadata::BinaryOperator::NotCaseInsensitiveLike => {
            assert(text == "nilike"@);
            assert(text.len() != "eq"@.len());
            assert(text.len() != "neq"@.len());
            assert(text.len() != "lt"@.len());
            assert(text.len() != "lte"@.len());
            assert(text.len() != "gt"@.len());
            assert(text.len() != "gte"@.len());
            assert(text.len() != "like"@.len());
            assert(text.len() != "nlike"@.len());
            assert(text.len() != "ilike"@.len());
        },
        crate::metadata::BinaryOperator::Similar => {
            assert(text == "similar"@);
            assert(text.len() != "eq"@.len());
            assert(text.len() != "neq"@.len());
            assert(text.len() != "lt"@.len());
            assert(text.len() != "lte"@.len());
            assert(text.len() != "gt"@.len());
            assert(text.len() != "gte"@.len());
            assert(text.len() != "like"@.len());
            assert(text.len() != "nlike"@.len());
            assert(text.len() != "ilike"@.len());
            assert(text.len() != "nilike"@.len());
        },
        crate::metadata::BinaryOperator::NotSimilar => {
            assert(text == "nsimilar"@);
            assert(text.len() != "eq"@.len());
            assert(text.len() != "neq"@.len());
            assert(text.len() != "lt"@.len());
            assert(text.len() != "lte"@.len());
            assert(text.len() != "gt"@.len());
            assert(text.len() != "gte"@.len());
            assert(text.len() != "like"@.len());
            assert(text.len() != "nlike"@.len());
            assert(text.len() != "ilike"@.len());
            assert(text.len() != "nilike"@.len());
            assert(text.len() != "similar"@.len());
        },
        crate::metadata::BinaryOperator::Regex => {
            assert(text == "regex"@);
            assert(text.len() != "eq"@.len());
            assert(text.len() != "neq"@.len());
            assert(text.len() != "lt"@.len());
            assert(text.len() != "lte"@.len());
            assert(text.len() != "gt"@.len());
            assert(text.len() != "gte"@.len());
            assert(text.len() != "like"@.len());
            assert(text[0] != "nlike"@[0]);
            assert(text[0] != "ilike"@[0]);
            assert(text.len() != "nilike"@.len());
            assert(text.len() != "similar"@.len());
            assert(text.len() != "nsimilar"@.len());
        },
        crate::metadata::BinaryOperator::NotRegex => {
            assert(text == "nregex"@);
            assert(text.len() != "eq"@.len());
            assert(text.len() != "neq"@.len());
            assert(text.len() != "lt"@.len());
            assert(text.len() != "lte"@.len());
            assert(text.len() != "gt"@.len());
            assert(text.len() != "gte"@.len());
            assert(text.len() != "like"@.len());
            assert(text.len() != "nlike"@.len());
            assert(text.len() != "ilike"@.len());
            assert(text[1] != "nilike"@[1]);
            assert(text.len() != "similar"@.len());
            assert(text.len() != "nsimilar"@.len());
            assert(text.len() != "regex"@.len());
        },
        crate::metadata::BinaryOperator::CaseInsensitiveRegex => {
            assert(text == "iregex"@);
            assert(text.len() != "eq"@.len());
            assert(text.len() != "neq"@.len());
            assert(text.len() != "lt"@.len());
            assert(text.len() != "lte"@.len());
            assert(text.len() != "gt"@.len());
            assert(text.len() != "gte"@.len());
            assert(text.len() != "like"@.len());
            assert(text.len() != "nlike"@.len());
            assert(text.len() != "ilike"@.len());
            assert(text[0] != "nilike"@[0]);
            assert(text.len() != "similar"@.len());
            assert(text.len() != "nsimilar"@.len());
            assert(text.len() != "regex"@.len());
            assert(text[0] != "nregex"@[0]);
        },
        crate::metadata::BinaryOperator::NotCaseInsensitiveRegex => {
            assert(text == "niregex"@);
            assert(text.len() != "eq"@.len());
            assert(text.len() != "neq"@.len());
            assert(text.len() != "lt"@.len());
            assert(text.len() != "lte"@.len());
            assert(text.len() != "gt"@.len());
            assert(text.len() != "gte"@.len());
            assert(text.len() != "like"@.len());
            assert(text.len() != "nlike"@.len());
            assert(text.len() != "ilike"@.len());
            assert(text.len() != "nilike"@.len());
            assert(text[0] != "similar"@[0]);
            assert(text.len() != "nsimilar"@.len());
            assert(text.len() != "regex"@.len());
            assert(text.len() != "nregex"@.len());
            assert(text.len() != "iregex"@.len());
        },
    }
}

/// The SQL operator of a comparison operator of the request.
pub open spec fn binary_operator_of(operator: input::BinaryComparisonOperator) -> BinaryOperator {
    match operator {
        input::BinaryComparisonOperator::Equal => BinaryOperator::Equals,
        input::BinaryComparisonOperator::Other { name } => operator_named(name@),
    }
}

// How a translation fails.

/// The table that a path leads to from the table named `current`.
pub open spec fn path_end(env: &Env, current: Seq<char>, path: Seq<input::PathElementWithPredicate>) -> Seq<char> {
    if path.len() == 0 {
        current
    } else {
        env.relationship_of(path[path.len() - 1].relationship@).unwrap().target_table@
    }
}

/// How translating `e` fails, if it does, where `root` and `current` name the root and the
/// current table and `n` is the number of the next fresh alias.
pub open spec fn expr_failure(
    env: &Env,
    root: Seq<char>,
    current: Seq<char>,
    n: nat,
    e: input::Expression,
) -> Option<Failure>
    decreases e,
{
    match e {
        input::Expression::And { expressions } => exprs_failure(env, root, current, n, expressions@),
        input::Expression::Or { expressions } => exprs_failure(env, root, current, n, expressions@),
        input::Expression::Not { expression } => expr_failure(env, root, current, n, *expression),
        input::Expression::UnaryComparisonOperator { column, .. } => target_failure(
            env,
            root,
            current,
            n,
            *column,
        ),
        input::Expression::BinaryComparisonOperator { column, value, .. } => match target_failure(
            env,
            root,
            current,
            n,
            *column,
        ) {
            Some(f) => Some(f),
            None => value_failure(env, root, current, n + target_aliases(*column), *value),
        },
        input::Expression::BinaryArrayComparisonOperator { column, values, .. } => match target_failure(
            env,
            root,
            current,
            n,
            *column,
        ) {
            Some(f) => Some(f),
            None => values_failure(env, root, current, n + target_aliases(*column), values@),
        },
        input::Expression::Exists { in_table, predicate } => match *in_table {
            input::ExistsInTable::Unrelated { table, .. } => match env.table_error(table@) {
                Some(e) => Some(Failure::Error(e)),
                None => expr_failure(env, root, table@, n, *predicate),
            },
            input::ExistsInTable::Related { relationship, .. } => match env.relationship_of(
                relationship@,
            ) {
                None => Some(Failure::Error(ErrorView::RelationshipNotFound(relationship@))),
                Some(rel) => if current != rel.source_table_or_type@ {
                    Some(Failure::Error(ErrorView::CollectionNotFound(rel.source_table_or_type@)))
                } else {
                    match env.table_error(rel.target_table@) {
                        Some(e) => Some(Failure::Error(e)),
                        None => match expr_failure(env, root, rel.target_table@, n, *predicate) {
                            Some(f) => Some(f),
                            None => match mapping_error(env, current, rel) {
                                Some(e) => Some(Failure::Error(e)),
                                None => None,
                            },
                        },
                    }
                },
            },
        },
    }
}

/// The first failure among the translations of `es`, in order.
pub open spec fn exprs_failure(
    env: &Env,
    root: Seq<char>,
    current: Seq<char>,
    n: nat,
    es: Seq<input::Expression>,
) -> Option<Failure>
    decreases es,
{
    if es.len() == 0 {
        None
    } else {
        match expr_failure(env, root, current, n, es[0]) {
            Some(f) => Some(f),
            None => exprs_failure(
                env,
                root,
                current,
                n + expr_aliases(es[0]),
                es.subrange(1, es.len() as int),
            ),
        }
    }
}

/// How translating a comparison target fails, if it does.
pub open spec fn target_failure(
    env: &Env,
    root: Seq<char>,
    current: Seq<char>,
    n: nat,
    t: input::ComparisonTarget,
) -> Option<Failure>
    decreases t,
{
    match t {
        input::ComparisonTarget::Column { name, path } => match path_failure(
            env,
            root,
            current,
            n,
            path@,
        ) {
            Some(f) => Some(f),
            None => match env.column_error(path_end(env, current, path@), name@) {
                Some(e) => Some(Failure::Error(e)),
                None => None,
            },
        },
        input::ComparisonTarget::RootTableColumn { name } => match env.column_error(root, name@) {
            Some(e) => Some(Failure::Error(e)),
            None => None,
        },
    }
}

/// How translating a path from the table named `current` fails, if it does. Drawing an
/// alias when the counter is at its largest value panics.
pub open spec fn path_failure(
    env: &Env,
    root: Seq<char>,
    current: Seq<char>,
    n: nat,
    path: Seq<input::PathElementWithPredicate>,
) -> Option<Failure>
    decreases path,
{
    if path.len() == 0 {
        None
    } else {
        match env.relationship_of(path[0].relationship@) {
            None => Some(Failure::Error(ErrorView::RelationshipNotFound(path[0].relationship@))),
            Some(rel) => if current != rel.source_table_or_type@ {
                Some(Failure::Error(ErrorView::CollectionNotFound(rel.source_table_or_type@)))
            } else {
                match env.table_error(rel.target_table@) {
                    Some(e) => Some(Failure::Error(e)),
                    None => if n >= u32::MAX {
                        Some(Failure::Panic)
                    } else {
                        match expr_failure(env, root, rel.target_table@, n + 1, *path[0].predicate) {
                            Some(f) => Some(f),
                            None => match mapping_error(env, current, rel) {
                                Some(e) => Some(Failure::Error(e)),
                                None => path_failure(
                                    env,
                                    root,
                                    rel.target_table@,
                                    n + 1 + expr_aliases(*path[0].predicate),
                                    path.subrange(1, path.len() as int),
                                ),
                            },
                        }
                    },
                }
            },
        }
    }
}

/// How translating a comparison value fails, if it does.
pub open spec fn value_failure(
    env: &Env,
    root: Seq<char>,
    current: Seq<char>,
    n: nat,
    v: input::ComparisonValue,
) -> Option<Failure>
    decreases v,
{
    match v {
        input::ComparisonValue::Column { column } => target_failure(env, root, current, n, *column),
        input::ComparisonValue::Scalar { value } => json_failure(value),
        input::ComparisonValue::Variable { .. } => None,
    }
}

/// The first failure among the translations of `vs`, in order.
pub open spec fn values_failure(
    env: &Env,
    root: Seq<char>,
    current: Seq<char>,
    n: nat,
    vs: Seq<input::ComparisonValue>,
) -> Option<Failure>
    decreases vs,
{
    if vs.len() == 0 {
        None
    } else {
        match value_failure(env, root, current, n, vs[0]) {
            Some(f) => Some(f),
            None => values_failure(
                env,
                root,
                current,
                n + value_aliases(vs[0]),
                vs.subrange(1, vs.len() as int),
            ),
        }
    }
}

// What a successful translation returns.

/// The alias of a join.
pub open spec fn join_alias(join: Join) -> crate::sql::ast::TableAlias {
    match join {
        Join::LeftOuterJoinLateral(j) => j.alias,
        Join::InnerJoinLateral(j) => j.alias,
        Join::CrossJoin(j) => j.alias,
    }
}

/// The table reached by the `k` first elements of a path: its name, and the alias of the
/// `k`-th join.
pub open spec fn path_table(
    env: &Env,
    tables: RootAndCurrentTables,
    path: Seq<input::PathElementWithPredicate>,
    joins: Seq<Join>,
    k: int,
) -> TableNameAndReference {
    if k == 0 {
        tables.current_table
    } else {
        TableNameAndReference {
            name: env.relationship_of(path[k - 1].relationship@).unwrap().target_table,
            reference: TableName::AliasedTable(join_alias(joins[k - 1])),
        }
    }
}

/// `(out, joins)` is the translation of `e`, where `n` is the number of the next fresh
/// alias.
pub open spec fn expr_translated(
    env: &Env,
    tables: RootAndCurrentTables,
    n: nat,
    e: input::Expression,
    out: Expression,
    joins: Seq<Join>,
) -> bool
    decreases e,
{
    match e {
        input::Expression::And { expressions } => fold_translated(
            env,
            tables,
            n,
            expressions@,
            true,
            out,
            joins,
        ),
        input::Expression::Or { expressions } => fold_translated(
            env,
            tables,
            n,
            expressions@,
            false,
            out,
            joins,
        ),
        input::Expression::Not { expression } => out matches Expression::Not(inner)
            && expr_translated(env, tables, n, *expression, *inner, joins),
        input::Expression::UnaryComparisonOperator { column, .. } => out matches Expression::UnaryOperator { column: c, operator }
            && operator == UnaryOperator::IsNull && target_translated(
            env,
            tables,
            n,
            *column,
            *c,
            joins,
        ),
        input::Expression::BinaryComparisonOperator { column, operator, value } => out matches Expression::BinaryOperator { left, operator: op, right }
            && op == binary_operator_of(operator) && joins.len() == target_joins(*column)
            + value_joins(*value) && target_translated(
            env,
            tables,
            n,
            *column,
            *left,
            joins.subrange(0, target_joins(*column) as int),
        ) && value_translated(
            env,
            tables,
            n + target_aliases(*column),
            *value,
            *right,
            joins.subrange(target_joins(*column) as int, joins.len() as int),
        ),
        input::Expression::BinaryArrayComparisonOperator { column, values, .. } => out matches Expression::BinaryArrayOperator { left, operator, right }
            && operator == BinaryArrayOperator::In && joins.len() == target_joins(*column)
            + values_joins(values@) && target_translated(
            env,
            tables,
            n,
            *column,
            *left,
            joins.subrange(0, target_joins(*column) as int),
        ) && values_translated(
            env,
            tables,
            n + target_aliases(*column),
            values@,
            right@,
            joins.subrange(target_joins(*column) as int, joins.len() as int),
        ),
        input::Expression::Exists { in_table, predicate } => out matches Expression::Exists { select }
            && joins.len() == 0 && exists_shape(
            env,
            tables,
            *in_table,
            *select,
        ) && expr_translated(
            env,
            exists_tables(env, tables, *in_table),
            n,
            *predicate,
            exists_condition(env, *in_table, *select),
            select.joins@,
        ),
    }
}

/// `(out, joins)` is `true AND e0 AND ... AND ek` (or with `OR`), nested to the left, with
/// the joins of the translations of the expressions `es`, in order.
pub open spec fn fold_translated(
    env: &Env,
    tables: RootAndCurrentTables,
    n: nat,
    es: Seq<input::Expression>,
    is_and: bool,
    out: Expression,
    joins: Seq<Join>,
) -> bool
    decreases es,
{
    if es.len() == 0 {
        out == true_literal() && joins.len() == 0
    } else {
        let init = es.subrange(0, es.len() - 1);
        let k = exprs_joins(init);
        k <= joins.len() && if is_and {
            out matches Expression::And { left, right } && fold_translated(
                env,
                tables,
                n,
                init,
                is_and,
                *left,
                joins.subrange(0, k as int),
            ) && expr_translated(
                env,
                tables,
                n + exprs_aliases(init),
                es[es.len() - 1],
                *right,
                joins.subrange(k as int, joins.len() as int),
            )
        } else {
            out matches Expression::Or { left, right } && fold_translated(
                env,
                tables,
                n,
                init,
                is_and,
                *left,
                joins.subrange(0, k as int),
            ) && expr_translated(
                env,
                tables,
                n + exprs_aliases(init),
                es[es.len() - 1],
                *right,
                joins.subrange(k as int, joins.len() as int),
            )
        }
    }
}

/// `(out, joins)` is the translation of a comparison target.
pub open spec fn target_translated(
    env: &Env,
    tables: RootAndCurrentTables,
    n: nat,
    t: input::ComparisonTarget,
    out: Expression,
    joins: Seq<Join>,
) -> bool
    decreases t,
{
    match t {
        input::ComparisonTarget::Column { name, path } => out matches Expression::ColumnName(ColumnName::TableColumn { table, name: column })
            && column == env.column_of(path_end(env, tables.current_table.name@, path@), name@).unwrap().name
            && joins.len() == path@.len() && table == path_table(env, tables, path@, joins, path@.len() as int).reference
            && path_translated(env, tables, n, path@, joins),
        input::ComparisonTarget::RootTableColumn { name } => joins.len() == 0 && out
            == Expression::ColumnName(
            ColumnName::TableColumn {
                table: tables.root_table.reference,
                name: env.column_of(tables.root_table.name@, name@).unwrap().name,
            },
        ),
    }
}

/// `joins` is the translation of a path: the `k`-th join selects the rows of the target
/// table of the `k`-th relationship that match its predicate and are related to the rows
/// of the table before it.
///
/// ```sql
/// INNER JOIN LATERAL (
///   SELECT * FROM <target table> AS <fresh alias>
///   WHERE <predicate> AND <previous table>.<column> = <fresh alias>.<column> ...
/// ) AS <fresh alias>
/// ```
pub open spec fn path_translated(
    env: &Env,
    tables: RootAndCurrentTables,
    n: nat,
    path: Seq<input::PathElementWithPredicate>,
    joins: Seq<Join>,
) -> bool
    decreases path,
{
    if path.len() == 0 {
        joins.len() == 0
    } else {
        let last = path.len() - 1;
        let init = path.subrange(0, last);
        let m = n + path_aliases(init);
        let rel = env.relationship_of(path[last].relationship@).unwrap();
        let info = env.table_of(rel.target_table@).unwrap();
        let previous = path_table(env, tables, path, joins, last);
        &&& joins.len() == path.len()
        &&& path_translated(env, tables, n, init, joins.subrange(0, last))
        &&& joins[last] matches Join::InnerJoinLateral(j)
            && alias_named(j.alias, indexed_name("BOOLEXP_"@, m, rel.target_table@))
            && is_empty_with(j.select.with) && j.select.select_list == SelectList::SelectStar
            && j.select.from == Some(
            From::Table {
                name: TableName::DBTable { schema: info.schema_name, table: info.table_name },
                alias: j.alias,
            },
        ) && j.select.group_by == GroupBy {} && is_empty_order_by(j.select.order_by)
            && is_empty_limit(j.select.limit) && j.select.where_.0 == mapping_expression(
            env,
            previous,
            TableName::AliasedTable(j.alias),
            peel_ands(j.select.where_.0, rel.column_mapping@.len()),
            rel,
        ) && expr_translated(
            env,
            RootAndCurrentTables {
                root_table: tables.root_table,
                current_table: TableNameAndReference {
                    name: rel.target_table,
                    reference: TableName::AliasedTable(j.alias),
                },
            },
            m + 1,
            *path[last].predicate,
            peel_ands(j.select.where_.0, rel.column_mapping@.len()),
            j.select.joins@,
        )
    }
}

/// `(out, joins)` is the translation of a comparison value.
pub open spec fn value_translated(
    env: &Env,
    tables: RootAndCurrentTables,
    n: nat,
    v: input::ComparisonValue,
    out: Expression,
    joins: Seq<Join>,
) -> bool
    decreases v,
{
    match v {
        input::ComparisonValue::Column { column } => target_translated(
            env,
            tables,
            n,
            *column,
            out,
            joins,
        ),
        input::ComparisonValue::Scalar { value } => out matches Expression::Value(val)
            && joins.len() == 0 && json_translated(value, val),
        input::ComparisonValue::Variable { name } => joins.len() == 0 && out == Expression::Value(
            Value::Variable(name),
        ),
    }
}

/// `(outs, joins)` are the translations of the comparison values `vs`, in order.
pub open spec fn values_translated(
    env: &Env,
    tables: RootAndCurrentTables,
    n: nat,
    vs: Seq<input::ComparisonValue>,
    outs: Seq<Expression>,
    joins: Seq<Join>,
) -> bool
    decreases vs,
{
    if vs.len() == 0 {
        outs.len() == 0 && joins.len() == 0
    } else {
        let init = vs.subrange(0, vs.len() - 1);
        let k = values_joins(init);
        &&& outs.len() == vs.len()
        &&& k <= joins.len()
        &&& values_translated(
            env,
            tables,
            n,
            init,
            outs.subrange(0, outs.len() - 1),
            joins.subrange(0, k as int),
        )
        &&& value_translated(
            env,
            tables,
            n + values_aliases(init),
            vs[vs.len() - 1],
            outs[outs.len() - 1],
            joins.subrange(k as int, joins.len() as int),
        )
    }
}

/// The table an `EXISTS` looks into: its name and its alias, the name of the table.
pub open spec fn exists_table(env: &Env, in_table: input::ExistsInTable) -> String {
    match in_table {
        input::ExistsInTable::Unrelated { table, .. } => table,
        input::ExistsInTable::Related { relationship, .. } => env.relationship_of(
            relationship@,
        ).unwrap().target_table,
    }
}

/// The root and current tables inside an `EXISTS`.
pub open spec fn exists_tables(
    env: &Env,
    tables: RootAndCurrentTables,
    in_table: input::ExistsInTable,
) -> RootAndCurrentTables {
    RootAndCurrentTables {
        root_table: tables.root_table,
        current_table: TableNameAndReference {
            name: exists_table(env, in_table),
            reference: TableName::AliasedTable(
                crate::sql::ast::TableAlias { unique_index: 0, name: exists_table(env, in_table) },
            ),
        },
    }
}

/// The translated predicate of an `EXISTS`, found in the `WHERE` clause of its select
/// under the conditions of the relationship, if there is one.
pub open spec fn exists_condition(
    env: &Env,
    in_table: input::ExistsInTable,
    select: crate::sql::ast::Select,
) -> Expression {
    match in_table {
        input::ExistsInTable::Unrelated { .. } => select.where_.0,
        input::ExistsInTable::Related { relationship, .. } => peel_ands(
            select.where_.0,
            env.relationship_of(relationship@).unwrap().column_mapping@.len(),
        ),
    }
}

/// The shape of the select of an `EXISTS`:
///
/// ```sql
/// EXISTS (SELECT FROM <table> AS <table> WHERE <predicate> [AND <relationship conditions>])
/// ```
pub open spec fn exists_shape(
    env: &Env,
    tables: RootAndCurrentTables,
    in_table: input::ExistsInTable,
    select: crate::sql::ast::Select,
) -> bool {
    let name = exists_table(env, in_table);
    let alias = crate::sql::ast::TableAlias { unique_index: 0, name };
    let info = env.table_of(name@).unwrap();
    &&& is_empty_with(select.with)
    &&& select.select_list matches SelectList::SelectList(list) && list@.len() == 0
    &&& select.from == Some(
        From::Table {
            name: TableName::DBTable { schema: info.schema_name, table: info.table_name },
            alias,
        },
    )
    &&& select.group_by == GroupBy {}
    &&& is_empty_order_by(select.order_by)
    &&& is_empty_limit(select.limit)
    &&& match in_table {
        input::ExistsInTable::Unrelated { .. } => true,
        input::ExistsInTable::Related { relationship, .. } => select.where_.0 == mapping_expression(
            env,
            tables.current_table,
            TableName::AliasedTable(alias),
            exists_condition(env, in_table, select),
            env.relationship_of(relationship@).unwrap(),
        ),
    }
}

// Translation.

/// Does `name` read `text`?
fn name_is(name: &String, text: &str) -> (res: bool)
    ensures
        res == (name@ == text@),
{
    let other = String::from_str(text);
    *name == other
}

/// The SQL operator named `name` in the schema; an unknown name stands for equality.
fn translate_operator_name(name: &String) -> (operator: BinaryOperator)
    ensures
        operator == operator_named(name@),
{
    // The strings we're matching against here (ie 'like')
    // are best guesses for now. We will need to update
    // these as we discover more.
    // We need to keep these in sync with documentation.
    proof {
        reveal_strlit("eq");
        reveal_strlit("neq");
        reveal_strlit("lt");
        reveal_strlit("lte");
        reveal_strlit("gt");
        reveal_strlit("gte");
        reveal_strlit("like");
        reveal_strlit("nlike");
        reveal_strlit("ilike");
        reveal_strlit("nilike");
        reveal_strlit("similar");
        reveal_strlit("nsimilar");
        reveal_strlit("regex");
        reveal_strlit("nregex");
        reveal_strlit("iregex");
        reveal_strlit("niregex");
    }
    if name_is(name, "eq") {
        BinaryOperator::Equals
    } else if name_is(name, "neq") {
        BinaryOperator::NotEquals
    } else if name_is(name, "lt") {
        BinaryOperator::LessThan
    } else if name_is(name, "lte") {
        BinaryOperator::LessThanOrEqualTo
    } else if name_is(name, "gt") {
        BinaryOperator::GreaterThan
    } else if name_is(name, "gte") {
        BinaryOperator::GreaterThanOrEqualTo
    } else if name_is(name, "like") {
        BinaryOperator::Like
    } else if name_is(name, "nlike") {
        BinaryOperator::NotLike
    } else if name_is(name, "ilike") {
        BinaryOperator::CaseInsensitiveLike
    } else if name_is(name, "nilike") {
        BinaryOperator::NotCaseInsensitiveLike
    } else if name_is(name, "similar") {
        BinaryOperator::Similar
    } else if name_is(name, "nsimilar") {
        BinaryOperator::NotSimilar
    } else if name_is(name, "regex") {
        BinaryOperator::Regex
    } else if name_is(name, "nregex") {
        BinaryOperator::NotRegex
    } else if name_is(name, "iregex") {
        BinaryOperator::CaseInsensitiveRegex
    } else if name_is(name, "niregex") {
        BinaryOperator::NotCaseInsensitiveRegex
    } else {
        BinaryOperator::Equals
    }
}

/// Translate a boolean expression to a SQL expression, and the joins that the columns it
/// compares need.
pub fn translate_expression(
    env: &Env,
    next_free_name: &mut u32,
    root_and_current_tables: &RootAndCurrentTables,
    predicate: &input::Expression,
) -> (res: Result<(Expression, Vec<Join>), Error>)
    requires
        env.mappings_sorted(),
        expr_failure(
            env,
            root_and_current_tables.root_table.name@,
            root_and_current_tables.current_table.name@,
            *old(next_free_name) as nat,
            *predicate,
        ) != Some(Failure::Panic),
    ensures
        match res {
            Ok((out, joins)) => expr_failure(
                env,
                root_and_current_tables.root_table.name@,
                root_and_current_tables.current_table.name@,
                *old(next_free_name) as nat,
                *predicate,
            ) is None && expr_translated(
                env,
                *root_and_current_tables,
                *old(next_free_name) as nat,
                *predicate,
                out,
                joins@,
            ) && *final(next_free_name) == *old(next_free_name) + expr_aliases(*predicate)
                && joins@.len() == expr_joins(*predicate),
            Err(e) => expr_failure(
                env,
                root_and_current_tables.root_table.name@,
                root_and_current_tables.current_table.name@,
                *old(next_free_name) as nat,
                *predicate,
            ) == Some(Failure::Error(e@)) && !(e is NoFields),
        },
    decreases predicate, 0nat,
{
    match predicate {
        input::Expression::And { expressions } => {
            translate_boolean_fold(env, next_free_name, root_and_current_tables, expressions, true)
        },
        input::Expression::Or { expressions } => {
            translate_boolean_fold(env, next_free_name, root_and_current_tables, expressions, false)
        },
        input::Expression::Not { expression } => {
            match translate_expression(env, next_free_name, root_and_current_tables, expression) {
                Ok((expr, joins)) => Ok((Expression::Not(Box::new(expr)), joins)),
                Err(e) => Err(e),
            }
        },
        input::Expression::BinaryComparisonOperator { column, operator, value } => {
            let ghost n0 = *next_free_name as nat;
            let (left, mut joins) = match translate_comparison_target(
                env,
                next_free_name,
                root_and_current_tables,
                column,
            ) {
                Ok(r) => r,
                Err(e) => return Err(e),
            };
            let (right, mut right_joins) = match translate_comparison_value(
                env,
                next_free_name,
                root_and_current_tables,
                value,
            ) {
                Ok(r) => r,
                Err(e) => return Err(e),
            };
            let operator = match operator {
                input::BinaryComparisonOperator::Equal => BinaryOperator::Equals,
                input::BinaryComparisonOperator::Other { name } => translate_operator_name(name),
            };
            let ghost left_joins = joins@;
            let ghost value_joins_seq = right_joins@;
            joins.append(&mut right_joins);
            proof {
                assert(joins@.subrange(0, left_joins.len() as int) =~= left_joins);
                assert(joins@.subrange(left_joins.len() as int, joins@.len() as int)
                    =~= value_joins_seq);
            }
            Ok(
                (
                    Expression::BinaryOperator {
                        left: Box::new(left),
                        operator,
                        right: Box::new(right),
                    },
                    joins,
                ),
            )
        },
        input::Expression::BinaryArrayComparisonOperator { column, operator, values } => {
            let ghost root = root_and_current_tables.root_table.name@;
            let ghost current = root_and_current_tables.current_table.name@;
            let (left, mut joins) = match translate_comparison_target(
                env,
                next_free_name,
                root_and_current_tables,
                column,
            ) {
                Ok(r) => r,
                Err(e) => return Err(e),
            };
            let ghost n1 = *next_free_name as nat;
            let ghost vs = values@;
            let mut right: Vec<Expression> = Vec::new();
            let mut value_joins: Vec<Join> = Vec::new();
            let mut index: usize = 0;
            proof {
                assert(decreases_to!(*predicate => predicate->BinaryArrayComparisonOperator_values));
                assert(forall|i: int|
                    0 <= i < vs.len() ==> decreases_to!(predicate->BinaryArrayComparisonOperator_values => #[trigger] vs[i]));
                assert(vs.skip(0) =~= vs);
                assert(vs.subrange(0, 0) =~= Seq::<input::ComparisonValue>::empty());
            }
            while index < values.len()
                invariant
                    env.mappings_sorted(),
                    forall|i: int| 0 <= i < vs.len() ==> decreases_to!(*predicate => #[trigger] vs[i]),
                    vs == values@,
                    expr_failure(env, root, current, *old(next_free_name) as nat, *predicate)
                        == values_failure(env, root, current, n1, vs),
                    n1 == *old(next_free_name) + target_aliases(**column),
                    joins@.len() == target_joins(**column),
                    0 <= index <= vs.len(),
                    root == root_and_current_tables.root_table.name@,
                    current == root_and_current_tables.current_table.name@,
                    values_failure(env, root, current, n1, vs) == values_failure(
                        env,
                        root,
                        current,
                        *next_free_name as nat,
                        vs.skip(index as int),
                    ),
                    values_failure(env, root, current, n1, vs) != Some(Failure::Panic),
                    *next_free_name == n1 + values_aliases(vs.subrange(0, index as int)),
                    value_joins@.len() == values_joins(vs.subrange(0, index as int)),
                    values_translated(
                        env,
                        *root_and_current_tables,
                        n1,
                        vs.subrange(0, index as int),
                        right@,
                        value_joins@,
                    ),
                decreases vs.len() - index,
            {
                let ghost rest = vs.skip(index as int);
                assert(rest.subrange(1, rest.len() as int) =~= vs.skip(index + 1));
                assert(rest[0] == vs[index as int]);
                let ghost before_joins = value_joins@;
                let ghost before_right = right@;
                let ghost before_n = *next_free_name as nat;
                let (expr, mut expr_joins) = match translate_comparison_value(
                    env,
                    next_free_name,
                    root_and_current_tables,
                    &values[index],
                ) {
                    Ok(r) => r,
                    Err(e) => return Err(e),
                };
                let ghost these_joins = expr_joins@;
                value_joins.append(&mut expr_joins);
                right.push(expr);
                proof {
                    let prefix = vs.subrange(0, index + 1);
                    assert(prefix.subrange(0, index as int) =~= vs.subrange(0, index as int));
                    assert(prefix[index as int] == vs[index as int]);
                    assert(right@.subrange(0, index as int) =~= before_right);
                    assert(value_joins@.subrange(0, before_joins.len() as int) =~= before_joins);
                    assert(value_joins@.subrange(
                        before_joins.len() as int,
                        value_joins@.len() as int,
                    ) =~= these_joins);
                }
                index = index + 1;
            }
            proof {
                assert(vs.subrange(0, index as int) =~= vs);
                assert(vs.skip(index as int) =~= Seq::<input::ComparisonValue>::empty());
            }
            let ghost left_joins = joins@;
            let ghost array_joins = value_joins@;
            joins.append(&mut value_joins);
            proof {
                assert(joins@.subrange(0, left_joins.len() as int) =~= left_joins);
                assert(joins@.subrange(left_joins.len() as int, joins@.len() as int)
                    =~= array_joins);
            }
            let operator = match operator {
                input::BinaryArrayComparisonOperator::In => BinaryArrayOperator::In,
            };
            Ok((Expression::BinaryArrayOperator { left: Box::new(left), operator, right }, joins))
        },
        input::Expression::Exists { in_table, predicate } => {
            match translate_exists_in_collection(
                env,
                next_free_name,
                root_and_current_tables,
                in_table,
                predicate,
            ) {
                Ok(expr) => Ok((expr, Vec::new())),
                Err(e) => Err(e),
            }
        },
        input::Expression::UnaryComparisonOperator { column, operator } => {
            match operator {
                input::UnaryComparisonOperator::IsNull => {
                    match translate_comparison_target(
                        env,
                        next_free_name,
                        root_and_current_tables,
                        column,
                    ) {
                        Ok((value, joins)) => Ok(
                            (
                                Expression::UnaryOperator {
                                    column: Box::new(value),
                                    operator: UnaryOperator::IsNull,
                                },
                                joins,
                            ),
                        ),
                        Err(e) => Err(e),
                    }
                },
            }
        },
    }
}

/// Fold the translations of `expressions` with `AND` (or `OR`), starting from `true`.
fn translate_boolean_fold(
    env: &Env,
    next_free_name: &mut u32,
    root_and_current_tables: &RootAndCurrentTables,
    expressions: &Vec<input::Expression>,
    is_and: bool,
) -> (res: Result<(Expression, Vec<Join>), Error>)
    requires
        env.mappings_sorted(),
        exprs_failure(
            env,
            root_and_current_tables.root_table.name@,
            root_and_current_tables.current_table.name@,
            *old(next_free_name) as nat,
            expressions@,
        ) != Some(Failure::Panic),
    ensures
        match res {
            Ok((out, joins)) => exprs_failure(
                env,
                root_and_current_tables.root_table.name@,
                root_and_current_tables.current_table.name@,
                *old(next_free_name) as nat,
                expressions@,
            ) is None && fold_translated(
                env,
                *root_and_current_tables,
                *old(next_free_name) as nat,
                expressions@,
                is_and,
                out,
                joins@,
            ) && *final(next_free_name) == *old(next_free_name) + exprs_aliases(expressions@)
                && joins@.len() == exprs_joins(expressions@),
            Err(e) => exprs_failure(
                env,
                root_and_current_tables.root_table.name@,
                root_and_current_tables.current_table.name@,
                *old(next_free_name) as nat,
                expressions@,
            ) == Some(Failure::Error(e@)) && !(e is NoFields),
        },
    decreases expressions, 0nat,
{
    let ghost root = root_and_current_tables.root_table.name@;
    let ghost current = root_and_current_tables.current_table.name@;
    let ghost n0 = *next_free_name as nat;
    let ghost es = expressions@;
    let mut acc = Expression::Value(Value::Bool(true));
    let mut acc_joins: Vec<Join> = Vec::new();
    let mut index: usize = 0;
    proof {
        assert(forall|i: int| 0 <= i < es.len() ==> decreases_to!(*expressions => #[trigger] es[i]));
        assert(es.skip(0) =~= es);
        assert(es.subrange(0, 0) =~= Seq::<input::Expression>::empty());
    }
    while index < expressions.len()
        invariant
            env.mappings_sorted(),
            forall|i: int| 0 <= i < es.len() ==> decreases_to!(*expressions => #[trigger] es[i]),
            es == expressions@,
            n0 == *old(next_free_name) as nat,
            0 <= index <= es.len(),
            root == root_and_current_tables.root_table.name@,
            current == root_and_current_tables.current_table.name@,
            exprs_failure(env, root, current, n0, es) == exprs_failure(
                env,
                root,
                current,
                *next_free_name as nat,
                es.skip(index as int),
            ),
            exprs_failure(env, root, current, n0, es) != Some(Failure::Panic),
            *next_free_name == n0 + exprs_aliases(es.subrange(0, index as int)),
            acc_joins@.len() == exprs_joins(es.subrange(0, index as int)),
            fold_translated(
                env,
                *root_and_current_tables,
                n0,
                es.subrange(0, index as int),
                is_and,
                acc,
                acc_joins@,
            ),
        decreases es.len() - index,
    {
        let ghost rest = es.skip(index as int);
        assert(rest.subrange(1, rest.len() as int) =~= es.skip(index + 1));
        assert(rest[0] == es[index as int]);
        let ghost before_joins = acc_joins@;
        let ghost before_acc = acc;
        let (right, mut right_joins) = match translate_expression(
            env,
            next_free_name,
            root_and_current_tables,
            &expressions[index],
        ) {
            Ok(r) => r,
            Err(e) => return Err(e),
        };
        let ghost these_joins = right_joins@;
        acc_joins.append(&mut right_joins);
        if is_and {
            acc = Expression::And { left: Box::new(acc), right: Box::new(right) };
        } else {
            acc = Expression::Or { left: Box::new(acc), right: Box::new(right) };
        }
        proof {
            let prefix = es.subrange(0, index + 1);
            assert(prefix.subrange(0, index as int) =~= es.subrange(0, index as int));
            assert(prefix[index as int] == es[index as int]);
            assert(acc_joins@.subrange(0, before_joins.len() as int) =~= before_joins);
            assert(acc_joins@.subrange(before_joins.len() as int, acc_joins@.len() as int)
                =~= these_joins);
        }
        index = index + 1;
    }
    proof {
        assert(es.subrange(0, index as int) =~= es);
        assert(es.skip(index as int) =~= Seq::<input::Expression>::empty());
    }
    Ok((acc, acc_joins))
}

/// Given a path of relationships and the table the expression is over, return a join for
/// each relationship, in the form of:
///
/// ```sql
/// INNER JOIN LATERAL
/// (
///   SELECT *
///   FROM
///     <table of path[0]> AS <fresh name>
///   WHERE
///     <predicate of path[0]>
///     AND <table 0 join condition>
/// ) AS <fresh name>
/// ...
/// INNER JOIN LATERAL
/// (
///     SELECT *
///     FROM
///        <table of path[m]> AS <fresh name>
///     WHERE
///        <predicate of path[m]>
///        AND <table m join condition on table m-1>
/// ) AS <fresh name>
/// ```
///
/// and the table under which the sought column can be found, i.e. the last drawn fresh
/// name. Or, in the case of an empty path, simply the current table.
fn translate_comparison_pathelements(
    env: &Env,
    next_free_name: &mut u32,
    root_and_current_tables: &RootAndCurrentTables,
    path: &Vec<input::PathElementWithPredicate>,
) -> (res: Result<(TableNameAndReference, Vec<Join>), Error>)
    requires
        env.mappings_sorted(),
        path_failure(
            env,
            root_and_current_tables.root_table.name@,
            root_and_current_tables.current_table.name@,
            *old(next_free_name) as nat,
            path@,
        ) != Some(Failure::Panic),
    ensures
        match res {
            Ok((table, joins)) => path_failure(
                env,
                root_and_current_tables.root_table.name@,
                root_and_current_tables.current_table.name@,
                *old(next_free_name) as nat,
                path@,
            ) is None && joins@.len() == path@.len() && path_translated(
                env,
                *root_and_current_tables,
                *old(next_free_name) as nat,
                path@,
                joins@,
            ) && table == path_table(
                env,
                *root_and_current_tables,
                path@,
                joins@,
                path@.len() as int,
            ) && *final(next_free_name) == *old(next_free_name) + path_aliases(path@),
            Err(e) => path_failure(
                env,
                root_and_current_tables.root_table.name@,
                root_and_current_tables.current_table.name@,
                *old(next_free_name) as nat,
                path@,
            ) == Some(Failure::Error(e@)) && !(e is NoFields),
        },
    decreases path, 0nat,
{
    let ghost root = root_and_current_tables.root_table.name@;
    let ghost n0 = *next_free_name as nat;
    let ghost p = path@;
    let mut joins: Vec<Join> = Vec::new();
    let mut current_table = root_and_current_tables.current_table.clone();
    let mut index: usize = 0;
    proof {
        assert(forall|i: int| 0 <= i < p.len() ==> decreases_to!(*path => #[trigger] p[i]));
        assert(p.skip(0) =~= p);
        assert(p.subrange(0, 0) =~= Seq::<input::PathElementWithPredicate>::empty());
    }
    while index < path.len()
        invariant
            env.mappings_sorted(),
            forall|i: int| 0 <= i < p.len() ==> decreases_to!(*path => #[trigger] p[i]),
            p == path@,
            n0 == *old(next_free_name) as nat,
            0 <= index <= p.len(),
            root == root_and_current_tables.root_table.name@,
            path_failure(
                env,
                root,
                root_and_current_tables.current_table.name@,
                n0,
                p,
            ) == path_failure(
                env,
                root,
                current_table.name@,
                *next_free_name as nat,
                p.skip(index as int),
            ),
            path_failure(env, root, root_and_current_tables.current_table.name@, n0, p)
                != Some(Failure::Panic),
            *next_free_name == n0 + path_aliases(p.subrange(0, index as int)),
            joins@.len() == index,
            path_translated(
                env,
                *root_and_current_tables,
                n0,
                p.subrange(0, index as int),
                joins@,
            ),
            current_table == path_table(env, *root_and_current_tables, p, joins@, index as int),
        decreases p.len() - index,
    {
        let ghost rest = p.skip(index as int);
        assert(rest.subrange(1, rest.len() as int) =~= p.skip(index + 1));
        assert(rest[0] == p[index as int]);
        let element = &path[index];
        // get the relationship table
        let relationship = match env.lookup_relationship(&element.relationship) {
            Ok(r) => r,
            Err(e) => return Err(e),
        };
        // I don't expect the engine to let us down, but just in case :)
        if current_table.name != relationship.source_table_or_type {
            return Err(Error::CollectionNotFound(relationship.source_table_or_type.clone()));
        }
        let collection_info = match env.lookup_collection(&relationship.target_table) {
            Ok(info) => info,
            Err(e) => return Err(e),
        };
        // unpack table info for now.
        let table_info = match collection_info {
            super::helpers::CollectionInfo::Table { info, .. } => info,
            super::helpers::CollectionInfo::NativeQuery { .. } => {
                proof { reveal_strlit("Native Queries"); }
                return Err(Error::NotSupported(String::from_str("Native Queries")));
            },
        };
        // relationship target db table name
        let db_table_name = TableName::DBTable {
            schema: table_info.schema_name.clone(),
            table: table_info.table_name.clone(),
        };
        let ghost m = *next_free_name as nat;
        // new alias for the target table
        let target_table_alias = crate::sql::helpers::make_boolean_expression_table_alias(
            next_free_name,
            &relationship.target_table,
        );
        let target_table_alias_name = TableName::AliasedTable(target_table_alias.clone());
        // build a SELECT querying this table with the relevant predicate.
        let mut select = crate::sql::helpers::simple_select(Vec::new());
        select.from = Some(
            From::Table { name: db_table_name, alias: target_table_alias.clone() },
        );
        select.select_list = SelectList::SelectStar;
        let new_root_and_current_tables = RootAndCurrentTables {
            root_table: root_and_current_tables.root_table.clone(),
            current_table: TableNameAndReference {
                reference: target_table_alias_name.clone(),
                name: relationship.target_table.clone(),
            },
        };
        // relationship-specfic filter
        let (rel_cond, rel_joins) = match translate_expression(
            env,
            next_free_name,
            &new_root_and_current_tables,
            &element.predicate,
        ) {
            Ok(r) => r,
            Err(e) => return Err(e),
        };
        let ghost inner = rel_cond;
        // relationship where clause
        let cond = match super::relationships::translate_column_mapping(
            env,
            &current_table,
            &target_table_alias_name,
            rel_cond,
            relationship,
        ) {
            Ok(c) => c,
            Err(e) => return Err(e),
        };
        proof {
            super::relationships::lemma_peel_mapping(
                env,
                current_table,
                target_table_alias_name,
                relationship.target_table@,
                inner,
                relationship.column_mapping@,
            );
        }
        select.where_ = crate::sql::ast::Where(cond);
        select.joins = rel_joins;
        let ghost before_joins = joins@;
        joins.push(
            Join::InnerJoinLateral(
                crate::sql::ast::InnerJoinLateral {
                    select: Box::new(select),
                    alias: target_table_alias,
                },
            ),
        );
        proof {
            let prefix = p.subrange(0, index + 1);
            assert(prefix.subrange(0, index as int) =~= p.subrange(0, index as int));
            assert(prefix[index as int] == p[index as int]);
            assert(joins@.subrange(0, index as int) =~= before_joins);
            assert(path_table(env, *root_and_current_tables, prefix, joins@, index as int)
                == path_table(env, *root_and_current_tables, p, before_joins, index as int));
            assert(path_table(env, *root_and_current_tables, p, joins@, index as int)
                == path_table(env, *root_and_current_tables, p, before_joins, index as int));
        }
        current_table = new_root_and_current_tables.current_table;
        index = index + 1;
    }
    proof {
        assert(p.subrange(0, index as int) =~= p);
        assert(p.skip(index as int) =~= Seq::<input::PathElementWithPredicate>::empty());
    }
    Ok((current_table, joins))
}

/// Translate a comparison target: a column of the current table, or of a table reached by
/// a path of relationships, or of the root table.
fn translate_comparison_target(
    env: &Env,
    next_free_name: &mut u32,
    root_and_current_tables: &RootAndCurrentTables,
    column: &input::ComparisonTarget,
) -> (res: Result<(Expression, Vec<Join>), Error>)
    requires
        env.mappings_sorted(),
        target_failure(
            env,
            root_and_current_tables.root_table.name@,
            root_and_current_tables.current_table.name@,
            *old(next_free_name) as nat,
            *column,
        ) != Some(Failure::Panic),
    ensures
        match res {
            Ok((out, joins)) => target_failure(
                env,
                root_and_current_tables.root_table.name@,
                root_and_current_tables.current_table.name@,
                *old(next_free_name) as nat,
                *column,
            ) is None && target_translated(
                env,
                *root_and_current_tables,
                *old(next_free_name) as nat,
                *column,
                out,
                joins@,
            ) && *final(next_free_name) == *old(next_free_name) + target_aliases(*column)
                && joins@.len() == target_joins(*column),
            Err(e) => target_failure(
                env,
                root_and_current_tables.root_table.name@,
                root_and_current_tables.current_table.name@,
                *old(next_free_name) as nat,
                *column,
            ) == Some(Failure::Error(e@)) && !(e is NoFields),
        },
    decreases column, 0nat,
{
    match column {
        input::ComparisonTarget::Column { name, path } => {
            let (table_ref, joins) = match translate_comparison_pathelements(
                env,
                next_free_name,
                root_and_current_tables,
                path,
            ) {
                Ok(r) => r,
                Err(e) => return Err(e),
            };
            // get the unrelated table information from the metadata.
            let collection_info = match env.lookup_collection(&table_ref.name) {
                Ok(info) => info,
                Err(e) => return Err(e),
            };
            assert(collection_info.spec_columns() == env.columns_of(table_ref.name@));
            let column_info = match collection_info.lookup_column(name) {
                Ok(info) => info,
                Err(e) => return Err(e),
            };
            Ok(
                (
                    Expression::ColumnName(
                        ColumnName::TableColumn {
                            table: table_ref.reference.clone(),
                            name: column_info.name.clone(),
                        },
                    ),
                    joins,
                ),
            )
        },
        // Compare a column from the root table.
        input::ComparisonTarget::RootTableColumn { name } => {
            let root_table = &root_and_current_tables.root_table;
            // get the unrelated table information from the metadata.
            let collection_info = match env.lookup_collection(&root_table.name) {
                Ok(info) => info,
                Err(e) => return Err(e),
            };
            assert(collection_info.spec_columns() == env.columns_of(root_table.name@));
            // find the requested column in the tables columns.
            let column_info = match collection_info.lookup_column(name) {
                Ok(info) => info,
                Err(e) => return Err(e),
            };
            Ok(
                (
                    Expression::ColumnName(
                        ColumnName::TableColumn {
                            table: root_table.reference.clone(),
                            name: column_info.name.clone(),
                        },
                    ),
                    Vec::new(),
                ),
            )
        },
    }
}

/// Translate a comparison value.
fn translate_comparison_value(
    env: &Env,
    next_free_name: &mut u32,
    root_and_current_tables: &RootAndCurrentTables,
    value: &input::ComparisonValue,
) -> (res: Result<(Expression, Vec<Join>), Error>)
    requires
        env.mappings_sorted(),
        value_failure(
            env,
            root_and_current_tables.root_table.name@,
            root_and_current_tables.current_table.name@,
            *old(next_free_name) as nat,
            *value,
        ) != Some(Failure::Panic),
    ensures
        match res {
            Ok((out, joins)) => value_failure(
                env,
                root_and_current_tables.root_table.name@,
                root_and_current_tables.current_table.name@,
                *old(next_free_name) as nat,
                *value,
            ) is None && value_translated(
                env,
                *root_and_current_tables,
                *old(next_free_name) as nat,
                *value,
                out,
                joins@,
            ) && *final(next_free_name) == *old(next_free_name) + value_aliases(*value)
                && joins@.len() == value_joins(*value),
            Err(e) => value_failure(
                env,
                root_and_current_tables.root_table.name@,
                root_and_current_tables.current_table.name@,
                *old(next_free_name) as nat,
                *value,
            ) == Some(Failure::Error(e@)) && !(e is NoFields),
        },
    decreases value, 0nat,
{
    match value {
        input::ComparisonValue::Column { column } => {
            translate_comparison_target(env, next_free_name, root_and_current_tables, column)
        },
        input::ComparisonValue::Scalar { value: json_value } => {
            match super::values::translate_json_value(json_value) {
                Ok(v) => Ok((Expression::Value(v), Vec::new())),
                Err(e) => Err(e),
            }
        },
        input::ComparisonValue::Variable { name } => {
            Ok((Expression::Value(Value::Variable(name.clone())), Vec::new()))
        },
    }
}

/// Translate an EXISTS clause into a SQL subquery of the following form:
///
/// > EXISTS (SELECT FROM <table> AS <alias> WHERE <predicate>)
pub fn translate_exists_in_collection(
    env: &Env,
    next_free_name: &mut u32,
    root_and_current_tables: &RootAndCurrentTables,
    in_table: &input::ExistsInTable,
    predicate: &input::Expression,
) -> (res: Result<Expression, Error>)
    requires
        env.mappings_sorted(),
        expr_failure(
            env,
            root_and_current_tables.root_table.name@,
            root_and_current_tables.current_table.name@,
            *old(next_free_name) as nat,
            input::Expression::Exists {
                in_table: Box::new(*in_table),
                predicate: Box::new(*predicate),
            },
        ) != Some(Failure::Panic),
    ensures
        match res {
            Ok(out) => expr_failure(
                env,
                root_and_current_tables.root_table.name@,
                root_and_current_tables.current_table.name@,
                *old(next_free_name) as nat,
                input::Expression::Exists {
                    in_table: Box::new(*in_table),
                    predicate: Box::new(*predicate),
                },
            ) is None && expr_translated(
                env,
                *root_and_current_tables,
                *old(next_free_name) as nat,
                input::Expression::Exists {
                    in_table: Box::new(*in_table),
                    predicate: Box::new(*predicate),
                },
                out,
                Seq::empty(),
            ) && *final(next_free_name) == *old(next_free_name) + expr_aliases(*predicate),
            Err(e) => expr_failure(
                env,
                root_and_current_tables.root_table.name@,
                root_and_current_tables.current_table.name@,
                *old(next_free_name) as nat,
                input::Expression::Exists {
                    in_table: Box::new(*in_table),
                    predicate: Box::new(*predicate),
                },
            ) == Some(Failure::Error(e@)) && !(e is NoFields),
        },
    decreases predicate, 1nat,
{
    match in_table {
        // ignore arguments for now
        input::ExistsInTable::Unrelated { table, .. } => {
            // get the unrelated table information from the metadata.
            let collection_info = match env.lookup_collection(table) {
                Ok(info) => info,
                Err(e) => return Err(e),
            };
            // unpack table info for now.
            let table_info = match collection_info {
                super::helpers::CollectionInfo::Table { info, .. } => info,
                super::helpers::CollectionInfo::NativeQuery { .. } => {
                    proof { reveal_strlit("Native Queries"); }
                    return Err(Error::NotSupported(String::from_str("Native Queries")));
                },
            };
            // db table name
            let db_table_name = TableName::DBTable {
                schema: table_info.schema_name.clone(),
                table: table_info.table_name.clone(),
            };
            // new alias for the table
            let table_alias = crate::sql::helpers::make_table_alias(table.clone());
            let table_alias_name = TableName::AliasedTable(table_alias.clone());
            // build a SELECT querying this table with the relevant predicate.
            let mut select = crate::sql::helpers::simple_select(Vec::new());
            select.from = Some(From::Table { name: db_table_name, alias: table_alias });
            let new_root_and_current_tables = RootAndCurrentTables {
                root_table: root_and_current_tables.root_table.clone(),
                current_table: TableNameAndReference {
                    reference: table_alias_name,
                    name: table.clone(),
                },
            };
            let (expr, expr_joins) = match translate_expression(
                env,
                next_free_name,
                &new_root_and_current_tables,
                predicate,
            ) {
                Ok(r) => r,
                Err(e) => return Err(e),
            };
            select.where_ = crate::sql::ast::Where(expr);
            select.joins = expr_joins;
            // > EXISTS (SELECT FROM <table> AS <alias> WHERE <predicate>)
            Ok(Expression::Exists { select: Box::new(select) })
        },
        // We get a relationship name in exists, query the target table directly,
        // and build a WHERE clause that contains the join conditions and the specified
        // EXISTS condition.
        input::ExistsInTable::Related { relationship, .. } => {
            // get the relationship table
            let relationship = match env.lookup_relationship(relationship) {
                Ok(r) => r,
                Err(e) => return Err(e),
            };
            // I don't expect the engine to let us down, but just in case :)
            if root_and_current_tables.current_table.name != relationship.source_table_or_type {
                return Err(Error::CollectionNotFound(relationship.source_table_or_type.clone()));
            }
            // get the unrelated table information from the metadata.
            let collection_info = match env.lookup_collection(&relationship.target_table) {
                Ok(info) => info,
                Err(e) => return Err(e),
            };
            // unpack table info for now.
            let table_info = match collection_info {
                super::helpers::CollectionInfo::Table { info, .. } => info,
                super::helpers::CollectionInfo::NativeQuery { .. } => {
                    proof { reveal_strlit("Native Queries"); }
                    return Err(Error::NotSupported(String::from_str("Native Queries")));
                },
            };
            // relationship target db table name
            let db_table_name = TableName::DBTable {
                schema: table_info.schema_name.clone(),
                table: table_info.table_name.clone(),
            };
            // new alias for the target table
            let table_alias = crate::sql::helpers::make_table_alias(
                relationship.target_table.clone(),
            );
            let table_alias_name = TableName::AliasedTable(table_alias.clone());
            // build a SELECT querying this table with the relevant predicate.
            let mut select = crate::sql::helpers::simple_select(Vec::new());
            select.from = Some(From::Table { name: db_table_name, alias: table_alias });
            let new_root_and_current_tables = RootAndCurrentTables {
                root_table: root_and_current_tables.root_table.clone(),
                current_table: TableNameAndReference {
                    reference: table_alias_name.clone(),
                    name: relationship.target_table.clone(),
                },
            };
            // exists condition
            let (exists_cond, exists_joins) = match translate_expression(
                env,
                next_free_name,
                &new_root_and_current_tables,
                predicate,
            ) {
                Ok(r) => r,
                Err(e) => return Err(e),
            };
            let ghost inner = exists_cond;
            // relationship where clause
            let cond = match super::relationships::translate_column_mapping(
                env,
                &root_and_current_tables.current_table,
                &table_alias_name,
                exists_cond,
                relationship,
            ) {
                Ok(c) => c,
                Err(e) => return Err(e),
            };
            proof {
                super::relationships::lemma_peel_mapping(
                    env,
                    root_and_current_tables.current_table,
                    table_alias_name,
                    relationship.target_table@,
                    inner,
                    relationship.column_mapping@,
                );
            }
            select.where_ = crate::sql::ast::Where(cond);
            select.joins = exists_joins;
            // > EXISTS (SELECT FROM <table> AS <alias> WHERE <predicate>)
            Ok(Expression::Exists { select: Box::new(select) })
        },
    }
}

} // verus!
