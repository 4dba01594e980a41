//! Which requests the translation can read the numbers of.
//!
//! The translation reads each number that a predicate compares with as a 32-bit integer,
//! and panics on any other number that it reaches. These functions decide, before a
//! translation, whether every such number of a request fits.
use vstd::prelude::*;

use super::error::{ErrorView, Failure};
use super::filtering::{
    expr_aliases, expr_failure, exprs_aliases, exprs_failure, path_aliases, path_failure,
    target_aliases, target_failure, value_aliases, value_failure, values_aliases, values_failure,
};
use super::helpers::Env;
use super::root::{
    aggregates_failure, aggregates_next, joins_failure, joins_next, predicate_aliases,
    query_failure, query_next, query_part_failure, query_part_next, rows_failure, rows_next,
};
use super::{request_env, request_failure};
use super::values::{json_failure, json_items_failure};
use crate::metadata::Metadata;
use crate::types::input::{
    ComparisonTarget, ComparisonValue, Expression, Field, JsonValue, PathElementWithPredicate, Query,
    QueryRequest,
};

verus! {

/// Reading the JSON value does not panic: it holds no number that is no 32-bit integer before
/// the first value that is refused.
pub open spec fn json_fits(value: JsonValue) -> bool {
    json_failure(value) != Some(Failure::Panic)
}

/// Every number that the translation of `e` reads fits.
pub open spec fn expr_numbers_fit(e: Expression) -> bool
    decreases e,
{
    match e {
        Expression::And { expressions } => exprs_numbers_fit(expressions@),
        Expression::Or { expressions } => exprs_numbers_fit(expressions@),
        Expression::Not { expression } => expr_numbers_fit(*expression),
        Expression::UnaryComparisonOperator { column, .. } => target_numbers_fit(*column),
        Expression::BinaryComparisonOperator { column, value, .. } => target_numbers_fit(*column)
            && value_numbers_fit(*value),
        Expression::BinaryArrayComparisonOperator { column, values, .. } => target_numbers_fit(
            *column,
        ) && values_numbers_fit(values@),
        Expression::Exists { predicate, .. } => expr_numbers_fit(*predicate),
    }
}

pub open spec fn exprs_numbers_fit(es: Seq<Expression>) -> bool
    decreases es,
{
    es.len() == 0 || (expr_numbers_fit(es[0]) && exprs_numbers_fit(es.subrange(1, es.len() as int)))
}

pub open spec fn target_numbers_fit(t: ComparisonTarget) -> bool
    decreases t,
{
    match t {
        ComparisonTarget::Column { path, .. } => path_numbers_fit(path@),
        ComparisonTarget::RootTableColumn { .. } => true,
    }
}

pub open spec fn path_numbers_fit(path: Seq<PathElementWithPredicate>) -> bool
    decreases path,
{
    path.len() == 0 || (expr_numbers_fit(*path[0].predicate) && path_numbers_fit(
        path.subrange(1, path.len() as int),
    ))
}

pub open spec fn value_numbers_fit(v: ComparisonValue) -> bool
    decreases v,
{
    match v {
        ComparisonValue::Column { column } => target_numbers_fit(*column),
        ComparisonValue::Scalar { value } => json_fits(value),
        ComparisonValue::Variable { .. } => true,
    }
}

pub open spec fn values_numbers_fit(vs: Seq<ComparisonValue>) -> bool
    decreases vs,
{
    vs.len() == 0 || (value_numbers_fit(vs[0]) && values_numbers_fit(vs.subrange(1, vs.len() as int)))
}

/// Every number that the predicates of `q`, and of the queries of its relationship fields,
/// compare with fits.
pub open spec fn query_numbers_fit(q: Query) -> bool
    decreases q,
{
    &&& match q.predicate {
        Some(p) => expr_numbers_fit(p),
        None => true,
    }
    &&& match q.fields {
        Some(fields) => fields_numbers_fit(fields@),
        None => true,
    }
}

pub open spec fn fields_numbers_fit(fields: Seq<(String, Field)>) -> bool
    decreases fields,
{
    fields.len() == 0 || (fields_numbers_fit(fields.subrange(0, fields.len() - 1)) && match fields[
        fields.len() - 1].1 {
        Field::Relationship { query, .. } => query_numbers_fit(*query),
        Field::Column { .. } => true,
    })
}

// The counts of aliases, taken from the front.

proof fn lemma_exprs_aliases_front(es: Seq<Expression>)
    requires
        es.len() > 0,
    ensures
        exprs_aliases(es) == expr_aliases(es[0]) + exprs_aliases(es.subrange(1, es.len() as int)),
    decreases es.len(),
{
    if es.len() > 1 {
        let init = es.subrange(0, es.len() - 1);
        lemma_exprs_aliases_front(init);
        assert(init.subrange(1, init.len() as int) =~= es.subrange(1, es.len() as int).subrange(
            0,
            es.len() - 2,
        ));
        assert(es.subrange(1, es.len() as int)[es.len() - 2] == es[es.len() - 1]);
    } else {
        assert(es.subrange(0, 0) =~= Seq::<Expression>::empty());
        assert(es.subrange(1, 1) =~= Seq::<Expression>::empty());
    }
}

proof fn lemma_values_aliases_front(vs: Seq<ComparisonValue>)
    requires
        vs.len() > 0,
    ensures
        values_aliases(vs) == value_aliases(vs[0]) + values_aliases(vs.subrange(1, vs.len() as int)),
    decreases vs.len(),
{
    if vs.len() > 1 {
        let init = vs.subrange(0, vs.len() - 1);
        lemma_values_aliases_front(init);
        assert(init.subrange(1, init.len() as int) =~= vs.subrange(1, vs.len() as int).subrange(
            0,
            vs.len() - 2,
        ));
        assert(vs.subrange(1, vs.len() as int)[vs.len() - 2] == vs[vs.len() - 1]);
    } else {
        assert(vs.subrange(0, 0) =~= Seq::<ComparisonValue>::empty());
        assert(vs.subrange(1, 1) =~= Seq::<ComparisonValue>::empty());
    }
}

proof fn lemma_path_aliases_front(path: Seq<PathElementWithPredicate>)
    requires
        path.len() > 0,
    ensures
        path_aliases(path) == 1 + expr_aliases(*path[0].predicate) + path_aliases(
            path.subrange(1, path.len() as int),
        ),
    decreases path.len(),
{
    if path.len() > 1 {
        let init = path.subrange(0, path.len() - 1);
        lemma_path_aliases_front(init);
        assert(init.subrange(1, init.len() as int) =~= path.subrange(1, path.len() as int).subrange(
            0,
            path.len() - 2,
        ));
        assert(path.subrange(1, path.len() as int)[path.len() - 2] == path[path.len() - 1]);
    } else {
        assert(path.subrange(0, 0) =~= Seq::<PathElementWithPredicate>::empty());
        assert(path.subrange(1, 1) =~= Seq::<PathElementWithPredicate>::empty());
    }
}

/// A predicate whose numbers fit, translated with room on the counter for all its aliases,
/// does not panic: it ends in success or in an error.
pub proof fn fitting_numbers_do_not_panic(
    env: &Env,
    root: Seq<char>,
    current: Seq<char>,
    n: nat,
    e: Expression,
)
    requires
        expr_numbers_fit(e),
        n + expr_aliases(e) <= u32::MAX,
    ensures
        expr_failure(env, root, current, n, e) != Some(Failure::Panic),
    decreases e,
{
    match e {
        Expression::And { expressions } => lemma_exprs(env, root, current, n, expressions@),
        Expression::Or { expressions } => lemma_exprs(env, root, current, n, expressions@),
        Expression::Not { expression } => fitting_numbers_do_not_panic(
            env,
            root,
            current,
            n,
            *expression,
        ),
        Expression::UnaryComparisonOperator { column, .. } => lemma_target(
            env,
            root,
            current,
            n,
            *column,
        ),
        Expression::BinaryComparisonOperator { column, value, .. } => {
            lemma_target(env, root, current, n, *column);
            lemma_value(env, root, current, n + target_aliases(*column), *value);
        },
        Expression::BinaryArrayComparisonOperator { column, values, .. } => {
            lemma_target(env, root, current, n, *column);
            lemma_values(env, root, current, n + target_aliases(*column), values@);
        },
        Expression::Exists { in_table, predicate } => {
            match *in_table {
                crate::types::input::ExistsInTable::Unrelated { table, .. } => {
                    fitting_numbers_do_not_panic(env, root, table@, n, *predicate);
                },
                crate::types::input::ExistsInTable::Related { relationship, .. } => {
                    match env.relationship_of(relationship@) {
                        Some(rel) => fitting_numbers_do_not_panic(
                            env,
                            root,
                            rel.target_table@,
                            n,
                            *predicate,
                        ),
                        None => {},
                    }
                },
            }
        },
    }
}

proof fn lemma_exprs(env: &Env, root: Seq<char>, current: Seq<char>, n: nat, es: Seq<Expression>)
    requires
        exprs_numbers_fit(es),
        n + exprs_aliases(es) <= u32::MAX,
    ensures
        exprs_failure(env, root, current, n, es) != Some(Failure::Panic),
    decreases es,
{
    if es.len() > 0 {
        lemma_exprs_aliases_front(es);
        fitting_numbers_do_not_panic(env, root, current, n, es[0]);
        lemma_exprs(env, root, current, n + expr_aliases(es[0]), es.subrange(1, es.len() as int));
    }
}

proof fn lemma_target(env: &Env, root: Seq<char>, current: Seq<char>, n: nat, t: ComparisonTarget)
    requires
        target_numbers_fit(t),
        n + target_aliases(t) <= u32::MAX,
    ensures
        target_failure(env, root, current, n, t) != Some(Failure::Panic),
    decreases t,
{
    match t {
        ComparisonTarget::Column { path, .. } => lemma_path(env, root, current, n, path@),
        ComparisonTarget::RootTableColumn { .. } => {},
    }
}

proof fn lemma_path(
    env: &Env,
    root: Seq<char>,
    current: Seq<char>,
    n: nat,
    path: Seq<PathElementWithPredicate>,
)
    requires
        path_numbers_fit(path),
        n + path_aliases(path) <= u32::MAX,
    ensures
        path_failure(env, root, current, n, path) != Some(Failure::Panic),
    decreases path,
{
    if path.len() > 0 {
        lemma_path_aliases_front(path);
        let predicate = *path[0].predicate;
        match env.relationship_of(path[0].relationship@) {
            Some(rel) => {
                fitting_numbers_do_not_panic(env, root, rel.target_table@, n + 1, predicate);
                lemma_path(
                    env,
                    root,
                    rel.target_table@,
                    n + 1 + expr_aliases(predicate),
                    path.subrange(1, path.len() as int),
                );
            },
            None => {},
        }
    }
}

proof fn lemma_value(env: &Env, root: Seq<char>, current: Seq<char>, n: nat, v: ComparisonValue)
    requires
        value_numbers_fit(v),
        n + value_aliases(v) <= u32::MAX,
    ensures
        value_failure(env, root, current, n, v) != Some(Failure::Panic),
    decreases v,
{
    match v {
        ComparisonValue::Column { column } => lemma_target(env, root, current, n, *column),
        _ => {},
    }
}

proof fn lemma_values(
    env: &Env,
    root: Seq<char>,
    current: Seq<char>,
    n: nat,
    vs: Seq<ComparisonValue>,
)
    requires
        values_numbers_fit(vs),
        n + values_aliases(vs) <= u32::MAX,
    ensures
        values_failure(env, root, current, n, vs) != Some(Failure::Panic),
    decreases vs,
{
    if vs.len() > 0 {
        lemma_values_aliases_front(vs);
        lemma_value(env, root, current, n, vs[0]);
        lemma_values(env, root, current, n + value_aliases(vs[0]), vs.subrange(1, vs.len() as int));
    }
}

// The counter only grows.

proof fn lemma_query_next_grows(env: &Env, n: nat, table: String, q: Query)
    ensures
        n <= rows_next(env, n, table, q),
        rows_next(env, n, table, q) <= query_next(env, n, table, q),
    decreases q, 3nat,
{
    lemma_query_part_next_grows(env, n, table, q, true);
    lemma_query_part_next_grows(env, rows_next(env, n, table, q), table, q, false);
}

proof fn lemma_query_part_next_grows(env: &Env, n: nat, table: String, q: Query, with_joins: bool)
    ensures
        n <= query_part_next(env, n, table, q, with_joins),
    decreases q, 2nat,
{
    match q.fields {
        Some(fields) => if with_joins {
            lemma_joins_next_grows(env, n, table, fields@);
        },
        None => {},
    }
}

proof fn lemma_joins_next_grows(env: &Env, n: nat, current: String, fields: Seq<(String, Field)>)
    ensures
        n <= joins_next(env, n, current, fields),
        fields.len() > 0 ==> joins_next(env, n, current, fields.subrange(0, fields.len() - 1))
            <= joins_next(env, n, current, fields),
    decreases fields, 1nat,
{
    if fields.len() > 0 {
        let init = fields.subrange(0, fields.len() - 1);
        lemma_joins_next_grows(env, n, current, init);
        if joins_failure(env, n, current, init) is None {
            match fields[fields.len() - 1].1 {
                Field::Relationship { query, relationship, .. } => match env.relationship_of(
                    relationship@,
                ) {
                    Some(rel) => {
                        assert(decreases_to!(fields => fields[fields.len() - 1]));
                        lemma_query_next_grows(
                            env,
                            joins_next(env, n, current, init),
                            rel.target_table,
                            *query,
                        );
                    },
                    None => {},
                },
                _ => {},
            }
        }
    }
}

/// A query whose compared numbers fit, translated with room on the counter for all the
/// aliases it draws, does not panic.
pub proof fn fitting_queries_do_not_panic(env: &Env, n: nat, table: String, q: Query)
    requires
        query_numbers_fit(q),
        query_next(env, n, table, q) <= u32::MAX,
    ensures
        query_failure(env, n, table, q) != Some(Failure::Panic),
    decreases q, 3nat,
{
    lemma_query_next_grows(env, n, table, q);
    let m = rows_next(env, n, table, q);
    if env.table_of(table@) is Some && super::root::rows_present(q)
        && super::root::fields_column_error(env, table, q.fields->Some_0@) is None {
        lemma_part(env, n, table, q, true);
    }
    if super::root::aggregates_present(q) {
        lemma_part(env, m, table, q, false);
    }
    assert(rows_failure(env, n, table, q) != Some(Failure::Panic));
    assert(aggregates_failure(env, m, table, q) != Some(Failure::Panic));
}

proof fn lemma_part(env: &Env, n: nat, table: String, q: Query, with_joins: bool)
    requires
        query_numbers_fit(q),
        query_part_next(env, n, table, q, with_joins) <= u32::MAX,
    ensures
        query_part_failure(env, n, table, q, with_joins) != Some(Failure::Panic),
    decreases q, 2nat,
{
    if env.table_of(table@) is Some {
        let m = match q.fields {
            Some(fields) => if with_joins {
                joins_next(env, n, table, fields@)
            } else {
                n
            },
            None => n,
        };
        match q.fields {
            Some(fields) => if with_joins {
                lemma_joins(env, n, table, fields@);
            },
            None => {},
        }
        match q.predicate {
            Some(p) => {
                let joins_fail = match q.fields {
                    Some(fields) => with_joins && joins_failure(env, n, table, fields@) is Some,
                    None => false,
                };
                if !joins_fail {
                    assert(m + expr_aliases(p) <= u32::MAX);
                    fitting_numbers_do_not_panic(env, table@, table@, m, p);
                }
            },
            None => {},
        }
    }
}

proof fn lemma_joins(env: &Env, n: nat, current: String, fields: Seq<(String, Field)>)
    requires
        fields_numbers_fit(fields),
        joins_next(env, n, current, fields) <= u32::MAX,
    ensures
        joins_failure(env, n, current, fields) != Some(Failure::Panic),
    decreases fields, 1nat,
{
    if fields.len() > 0 {
        let init = fields.subrange(0, fields.len() - 1);
        lemma_joins_next_grows(env, n, current, fields);
        lemma_joins(env, n, current, init);
        if joins_failure(env, n, current, init) is None {
            match fields[fields.len() - 1].1 {
                Field::Relationship { query, relationship, .. } => match env.relationship_of(
                    relationship@,
                ) {
                    Some(rel) => {
                        assert(decreases_to!(fields => fields[fields.len() - 1]));
                        fitting_queries_do_not_panic(
                            env,
                            joins_next(env, n, current, init),
                            rel.target_table,
                            *query,
                        );
                    },
                    None => {},
                },
                _ => {},
            }
        }
    }
}

/// A request whose compared numbers fit, and whose translation draws fewer aliases than
/// the counter holds, is translated without a panic: to a plan or to an error.
pub proof fn fitting_requests_do_not_panic(metadata: &Metadata, request: QueryRequest)
    requires
        query_numbers_fit(request.query),
        query_next(
            &request_env(metadata, request.table_relationships),
            0,
            request.table,
            request.query,
        ) <= u32::MAX,
    ensures
        request_failure(metadata, request) != Some(Failure::Panic),
{
    fitting_queries_do_not_panic(
        &request_env(metadata, request.table_relationships),
        0,
        request.table,
        request.query,
    );
}

// A bound on the aliases that a translation draws, read from the request alone.

/// The aliases that translating `q` may draw: those of the queries of its relationship
/// fields, and those of its predicate twice, once for the rows and once for the aggregates.
pub open spec fn query_alias_bound(q: Query) -> nat
    decreases q,
{
    let fields = match q.fields {
        Some(fields) => fields_alias_bound(fields@),
        None => 0,
    };
    fields + 2 * predicate_aliases(q)
}

pub open spec fn fields_alias_bound(fields: Seq<(String, Field)>) -> nat
    decreases fields,
{
    if fields.len() == 0 {
        0
    } else {
        fields_alias_bound(fields.subrange(0, fields.len() - 1)) + match fields[fields.len()
            - 1].1 {
            Field::Relationship { query, .. } => query_alias_bound(*query),
            Field::Column { .. } => 0,
        }
    }
}

proof fn lemma_query_next_bounded(env: &Env, n: nat, table: String, q: Query)
    ensures
        query_next(env, n, table, q) <= n + query_alias_bound(q),
    decreases q, 3nat,
{
    match q.fields {
        Some(fields) => lemma_joins_next_bounded(env, n, table, fields@),
        None => {},
    }
}

proof fn lemma_joins_next_bounded(env: &Env, n: nat, current: String, fields: Seq<(String, Field)>)
    ensures
        joins_next(env, n, current, fields) <= n + fields_alias_bound(fields),
    decreases fields, 1nat,
{
    if fields.len() > 0 {
        let init = fields.subrange(0, fields.len() - 1);
        lemma_joins_next_bounded(env, n, current, init);
        if joins_failure(env, n, current, init) is None {
            match fields[fields.len() - 1].1 {
                Field::Relationship { query, relationship, .. } => match env.relationship_of(
                    relationship@,
                ) {
                    Some(rel) => {
                        assert(decreases_to!(fields => fields[fields.len() - 1]));
                        lemma_query_next_bounded(
                            env,
                            joins_next(env, n, current, init),
                            rel.target_table,
                            *query,
                        );
                    },
                    None => {},
                },
                _ => {},
            }
        }
    }
}

// Deciding it.

/// One more than the largest value of the counter: counts are kept up to it.
pub open spec fn count_cap() -> nat {
    u32::MAX as nat + 1
}

pub open spec fn capped(count: nat) -> nat {
    if count < count_cap() {
        count
    } else {
        count_cap()
    }
}

fn capped_add(a: u64, b: u64) -> (c: u64)
    requires
        a <= count_cap(),
        b <= count_cap(),
    ensures
        c == capped((a + b) as nat),
{
    let cap: u64 = 4294967296;
    if a + b < cap {
        a + b
    } else {
        cap
    }
}

/// Reading the JSON value does not panic.
fn json_value_fits(value: &JsonValue) -> (fits: bool)
    ensures
        fits == json_fits(*value),
        fits && json_failure(*value) is Some ==> json_failure(*value) matches Some(Failure::Error(_)),
    decreases value,
{
    match value {
        JsonValue::Number(n) => match n {
            Some(i) => -2147483648 <= *i && *i <= 2147483647,
            None => false,
        },
        JsonValue::Array(items) => {
            proof {
                assert(decreases_to!(value => value->Array_0));
                assert(forall|i: int|
                    0 <= i < items@.len() ==> decreases_to!(value->Array_0 => #[trigger] items@[i]));
                assert(items@.skip(0) =~= items@);
            }
            let mut index: usize = 0;
            while index < items.len()
                invariant
                    forall|i: int|
                        0 <= i < items@.len() ==> decreases_to!(value => #[trigger] items@[i]),
                    *value == JsonValue::Array(*items),
                    0 <= index <= items@.len(),
                    json_items_failure(items@) == json_items_failure(items@.skip(index as int)),
                decreases items.len() - index,
            {
                let ghost rest = items@.skip(index as int);
                assert(rest.subrange(1, rest.len() as int) =~= items@.skip(index + 1));
                assert(rest[0] == items@[index as int]);
                if !json_value_fits(&items[index]) {
                    return false;
                }
                if json_is_object_inside(&items[index]) {
                    return true;
                }
                index = index + 1;
            }
            assert(items@.skip(index as int) =~= Seq::<JsonValue>::empty());
            true
        },
        _ => true,
    }
}

/// Reading the JSON value ends in an error.
fn json_is_object_inside(value: &JsonValue) -> (refused: bool)
    requires
        json_fits(*value),
    ensures
        refused == (json_failure(*value) is Some),
    decreases value,
{
    match value {
        JsonValue::Object(_) => true,
        JsonValue::Array(items) => {
            proof {
                assert(decreases_to!(value => value->Array_0));
                assert(forall|i: int|
                    0 <= i < items@.len() ==> decreases_to!(value->Array_0 => #[trigger] items@[i]));
                assert(items@.skip(0) =~= items@);
            }
            let mut index: usize = 0;
            while index < items.len()
                invariant
                    forall|i: int|
                        0 <= i < items@.len() ==> decreases_to!(value => #[trigger] items@[i]),
                    *value == JsonValue::Array(*items),
                    0 <= index <= items@.len(),
                    json_items_failure(items@) == json_items_failure(items@.skip(index as int)),
                    json_items_failure(items@) != Some(Failure::Panic),
                decreases items.len() - index,
            {
                let ghost rest = items@.skip(index as int);
                assert(rest.subrange(1, rest.len() as int) =~= items@.skip(index + 1));
                assert(rest[0] == items@[index as int]);
                if json_is_object_inside(&items[index]) {
                    return true;
                }
                index = index + 1;
            }
            assert(items@.skip(index as int) =~= Seq::<JsonValue>::empty());
            false
        },
        _ => false,
    }
}

/// Every number that the translation of `e` reads fits.
fn expression_fits(e: &Expression) -> (fits: bool)
    ensures
        fits == expr_numbers_fit(*e),
    decreases e,
{
    match e {
        Expression::And { expressions } | Expression::Or { expressions } => {
            proof {
                assert(forall|i: int|
                    0 <= i < expressions@.len() ==> decreases_to!(e => #[trigger] expressions@[i]))
                    by {
                    assert forall|i: int| 0 <= i < expressions@.len() implies decreases_to!(
                        e => #[trigger] expressions@[i]
                    ) by {
                        assert(decreases_to!(e => *expressions));
                        assert(decreases_to!(*expressions => expressions@[i]));
                    }
                }
                assert(expressions@.skip(0) =~= expressions@);
            }
            let mut index: usize = 0;
            while index < expressions.len()
                invariant
                    forall|i: int|
                        0 <= i < expressions@.len() ==> decreases_to!(e => #[trigger] expressions@[i]),
                    0 <= index <= expressions@.len(),
                    expr_numbers_fit(*e) == exprs_numbers_fit(expressions@.skip(index as int)),
                decreases expressions.len() - index,
            {
                let ghost rest = expressions@.skip(index as int);
                assert(rest.subrange(1, rest.len() as int) =~= expressions@.skip(index + 1));
                assert(rest[0] == expressions@[index as int]);
                if !expression_fits(&expressions[index]) {
                    return false;
                }
                index = index + 1;
            }
            true
        },
        Expression::Not { expression } => expression_fits(expression),
        Expression::UnaryComparisonOperator { column, .. } => target_fits(column),
        Expression::BinaryComparisonOperator { column, value, .. } => target_fits(column)
            && value_fits(value),
        Expression::BinaryArrayComparisonOperator { column, values, .. } => {
            if !target_fits(column) {
                return false;
            }
            proof {
                assert forall|i: int| 0 <= i < values@.len() implies decreases_to!(
                    e => #[trigger] values@[i]
                ) by {
                    assert(decreases_to!(e => *values));
                    assert(decreases_to!(*values => values@[i]));
                }
                assert(values@.skip(0) =~= values@);
            }
            let mut index: usize = 0;
            while index < values.len()
                invariant
                    forall|i: int| 0 <= i < values@.len() ==> decreases_to!(e => #[trigger] values@[i]),
                    0 <= index <= values@.len(),
                    expr_numbers_fit(*e) == values_numbers_fit(values@.skip(index as int)),
                decreases values.len() - index,
            {
                let ghost rest = values@.skip(index as int);
                assert(rest.subrange(1, rest.len() as int) =~= values@.skip(index + 1));
                assert(rest[0] == values@[index as int]);
                if !value_fits(&values[index]) {
                    return false;
                }
                index = index + 1;
            }
            true
        },
        Expression::Exists { predicate, .. } => expression_fits(predicate),
    }
}

fn target_fits(t: &ComparisonTarget) -> (fits: bool)
    ensures
        fits == target_numbers_fit(*t),
    decreases t,
{
    match t {
        ComparisonTarget::Column { path, .. } => {
            proof {
                assert forall|i: int| 0 <= i < path@.len() implies decreases_to!(
                    t => *(#[trigger] path@[i]).predicate
                ) by {
                    assert(decreases_to!(t => *path));
                    assert(decreases_to!(*path => path@[i]));
                    assert(decreases_to!(path@[i] => path@[i].predicate));
                }
                assert(path@.skip(0) =~= path@);
            }
            let mut index: usize = 0;
            while index < path.len()
                invariant
                    forall|i: int|
                        0 <= i < path@.len() ==> decreases_to!(t => *(#[trigger] path@[i]).predicate),
                    0 <= index <= path@.len(),
                    target_numbers_fit(*t) == path_numbers_fit(path@.skip(index as int)),
                decreases path.len() - index,
            {
                let ghost rest = path@.skip(index as int);
                assert(rest.subrange(1, rest.len() as int) =~= path@.skip(index + 1));
                assert(rest[0] == path@[index as int]);
                if !expression_fits(&path[index].predicate) {
                    return false;
                }
                index = index + 1;
            }
            true
        },
        ComparisonTarget::RootTableColumn { .. } => true,
    }
}

fn value_fits(v: &ComparisonValue) -> (fits: bool)
    ensures
        fits == value_numbers_fit(*v),
    decreases v,
{
    match v {
        ComparisonValue::Column { column } => target_fits(column),
        ComparisonValue::Scalar { value } => json_value_fits(value),
        ComparisonValue::Variable { .. } => true,
    }
}

/// The aliases that translating `e` draws, counted up to `count_cap()`.
fn expression_aliases(e: &Expression) -> (count: u64)
    ensures
        count == capped(expr_aliases(*e)),
    decreases e,
{
    match e {
        Expression::And { expressions } => {
            proof {
                assert forall|i: int| 0 <= i < expressions@.len() implies decreases_to!(
                    e => #[trigger] expressions@[i]
                ) by {
                    assert(decreases_to!(e => *expressions));
                    assert(decreases_to!(*expressions => expressions@[i]));
                }
                assert(expressions@.take(0) =~= Seq::<Expression>::empty());
            }
            let mut count: u64 = 0;
            let mut index: usize = 0;
            while index < expressions.len()
                invariant
                    forall|i: int|
                        0 <= i < expressions@.len() ==> decreases_to!(e => #[trigger] expressions@[i]),
                    0 <= index <= expressions@.len(),
                    expr_aliases(*e) == exprs_aliases(expressions@),
                    count == capped(exprs_aliases(expressions@.take(index as int))),
                decreases expressions.len() - index,
            {
                let ghost next = expressions@.take(index + 1);
                assert(next.subrange(0, next.len() - 1) =~= expressions@.take(index as int));
                assert(next[next.len() - 1] == expressions@[index as int]);
                let more = expression_aliases(&expressions[index]);
                count = capped_add(count, more);
                index = index + 1;
            }
            assert(expressions@.take(index as int) =~= expressions@);
            assert(count == capped(exprs_aliases(expressions@)));
            assert(count == capped(expr_aliases(*e)));
            count
        },
        Expression::Or { expressions } => {
            proof {
                assert forall|i: int| 0 <= i < expressions@.len() implies decreases_to!(
                    e => #[trigger] expressions@[i]
                ) by {
                    assert(decreases_to!(e => *expressions));
                    assert(decreases_to!(*expressions => expressions@[i]));
                }
                assert(expressions@.take(0) =~= Seq::<Expression>::empty());
            }
            let mut count: u64 = 0;
            let mut index: usize = 0;
            while index < expressions.len()
                invariant
                    forall|i: int|
                        0 <= i < expressions@.len() ==> decreases_to!(e => #[trigger] expressions@[i]),
                    0 <= index <= expressions@.len(),
                    expr_aliases(*e) == exprs_aliases(expressions@),
                    count == capped(exprs_aliases(expressions@.take(index as int))),
                decreases expressions.len() - index,
            {
                let ghost next = expressions@.take(index + 1);
                assert(next.subrange(0, next.len() - 1) =~= expressions@.take(index as int));
                assert(next[next.len() - 1] == expressions@[index as int]);
                let more = expression_aliases(&expressions[index]);
                count = capped_add(count, more);
                index = index + 1;
            }
            assert(expressions@.take(index as int) =~= expressions@);
            assert(count == capped(exprs_aliases(expressions@)));
            assert(count == capped(expr_aliases(*e)));
            count
        },
        Expression::Not { expression } => expression_aliases(expression),
        Expression::UnaryComparisonOperator { column, .. } => target_alias_count(column),
        Expression::BinaryComparisonOperator { column, value, .. } => {
            let a = target_alias_count(column);
            let b = match &**value {
                ComparisonValue::Column { column } => target_alias_count(column),
                _ => 0,
            };
            assert(b == capped(value_aliases(**value)));
            assert(expr_aliases(*e) == target_aliases(**column) + value_aliases(**value));
            let r = capped_add(a, b);
            assert(r == capped(expr_aliases(*e)));
            r
        },
        Expression::BinaryArrayComparisonOperator { column, values, .. } => {
            proof {
                assert forall|i: int| 0 <= i < values@.len() implies decreases_to!(
                    e => #[trigger] values@[i]
                ) by {
                    assert(decreases_to!(e => *values));
                    assert(decreases_to!(*values => values@[i]));
                }
                assert(values@.take(0) =~= Seq::<ComparisonValue>::empty());
            }
            let mut count: u64 = 0;
            let mut index: usize = 0;
            while index < values.len()
                invariant
                    forall|i: int| 0 <= i < values@.len() ==> decreases_to!(e => #[trigger] values@[i]),
                    0 <= index <= values@.len(),
                    count == capped(values_aliases(values@.take(index as int))),
                decreases values.len() - index,
            {
                let ghost next = values@.take(index + 1);
                assert(next.subrange(0, next.len() - 1) =~= values@.take(index as int));
                assert(next[next.len() - 1] == values@[index as int]);
                let more = match &values[index] {
                    ComparisonValue::Column { column } => target_alias_count(column),
                    _ => 0,
                };
                assert(more == capped(value_aliases(values@[index as int])));
                count = capped_add(count, more);
                index = index + 1;
            }
            assert(values@.take(index as int) =~= values@);
            let a = target_alias_count(column);
            let r = capped_add(a, count);
            assert(r == capped(expr_aliases(*e)));
            r
        },
        Expression::Exists { predicate, .. } => expression_aliases(predicate),
    }
}

fn target_alias_count(t: &ComparisonTarget) -> (count: u64)
    ensures
        count == capped(target_aliases(*t)),
    decreases t,
{
    match t {
        ComparisonTarget::Column { path, .. } => {
            proof {
                assert forall|i: int| 0 <= i < path@.len() implies decreases_to!(
                    t => *(#[trigger] path@[i]).predicate
                ) by {
                    assert(decreases_to!(t => *path));
                    assert(decreases_to!(*path => path@[i]));
                    assert(decreases_to!(path@[i] => path@[i].predicate));
                }
                assert(path@.take(0) =~= Seq::<PathElementWithPredicate>::empty());
            }
            let mut count: u64 = 0;
            let mut index: usize = 0;
            while index < path.len()
                invariant
                    forall|i: int|
                        0 <= i < path@.len() ==> decreases_to!(t => *(#[trigger] path@[i]).predicate),
                    0 <= index <= path@.len(),
                    count == capped(path_aliases(path@.take(index as int))),
                decreases path.len() - index,
            {
                let ghost next = path@.take(index + 1);
                assert(next.subrange(0, next.len() - 1) =~= path@.take(index as int));
                assert(next[next.len() - 1] == path@[index as int]);
                let more = expression_aliases(&path[index].predicate);
                count = capped_add(count, 1);
                count = capped_add(count, more);
                index = index + 1;
            }
            assert(path@.take(index as int) =~= path@);
            count
        },
        ComparisonTarget::RootTableColumn { .. } => 0,
    }
}

/// Every number that the predicates of `q` and of the queries of its relationship fields
/// compare with fits, and their aliases, counted up to `count_cap()`.
fn query_fits_and_aliases(q: &Query) -> (res: (bool, u64))
    ensures
        res.0 == query_numbers_fit(*q),
        res.1 == capped(query_alias_bound(*q)),
    decreases q,
{
    let (predicate_fits, predicate_count) = match &q.predicate {
        Some(p) => (expression_fits(p), expression_aliases(p)),
        None => (true, 0),
    };
    assert(predicate_count == capped(predicate_aliases(*q)));
    let (fields_fit, fields_count) = match &q.fields {
        None => (true, 0),
        Some(fields) => {
            proof {
                assert forall|i: int| 0 <= i < fields@.len() implies decreases_to!(
                    q => (#[trigger] fields@[i]).1
                ) by {
                    assert(decreases_to!(q => q.fields));
                    assert(decreases_to!(q.fields => *fields));
                    assert(decreases_to!(*fields => fields@[i]));
                    assert(decreases_to!(fields@[i] => fields@[i].1));
                }
                assert(fields@.take(0) =~= Seq::<(String, Field)>::empty());
            }
            let mut fit = true;
            let mut count: u64 = 0;
            let mut index: usize = 0;
            while index < fields.len()
                invariant
                    forall|i: int|
                        0 <= i < fields@.len() ==> decreases_to!(q => (#[trigger] fields@[i]).1),
                    0 <= index <= fields@.len(),
                    fit == fields_numbers_fit(fields@.take(index as int)),
                    count == capped(fields_alias_bound(fields@.take(index as int))),
                decreases fields.len() - index,
            {
                let ghost next = fields@.take(index + 1);
                assert(next.subrange(0, next.len() - 1) =~= fields@.take(index as int));
                assert(next[next.len() - 1] == fields@[index as int]);
                match &fields[index].1 {
                    Field::Relationship { query, .. } => {
                        let (nested_fit, nested_count) = query_fits_and_aliases(query);
                        fit = fit && nested_fit;
                        count = capped_add(count, nested_count);
                    },
                    Field::Column { .. } => {},
                }
                index = index + 1;
            }
            assert(fields@.take(index as int) =~= fields@);
            (fit, count)
        },
    };
    let doubled = capped_add(predicate_count, predicate_count);
    (predicate_fits && fields_fit, capped_add(fields_count, doubled))
}

/// Whether the translation of `request` can read every number it compares with and has
/// room on its alias counter for every alias it may draw. When it can, translating the
/// request does not panic: it gives a plan or an error.
pub fn translation_does_not_panic(metadata: &Metadata, request: &QueryRequest) -> (fits: bool)
    ensures
        fits == (query_numbers_fit(request.query) && query_alias_bound(request.query)
            <= u32::MAX),
        fits ==> request_failure(metadata, *request) != Some(Failure::Panic),
{
    let (numbers_fit, aliases) = query_fits_and_aliases(&request.query);
    let fits = numbers_fit && aliases <= 4294967295;
    proof {
        if fits {
            let env = request_env(metadata, request.table_relationships);
            lemma_query_next_bounded(&env, 0, request.table, request.query);
            fitting_requests_do_not_panic(metadata, *request);
        }
    }
    fits
}

} // verus!
