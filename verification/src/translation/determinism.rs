//! A translation is determined by what it translates: any two syntax trees that the
//! translation relations allow for the same request render to the same SQL text with the
//! same parameters.
use vstd::prelude::*;

use super::aggregates::aggregate_column_ok;
use super::error::{ErrorView, Failure};
use super::filtering::{
    exists_condition, exists_table, exists_tables, expr_aliases, expr_failure, expr_translated,
    exprs_aliases, exprs_failure, exprs_joins, fold_translated, join_alias, path_aliases,
    path_failure, path_table, path_translated, target_aliases, target_failure, target_joins,
    target_translated, value_aliases, value_failure, value_translated, values_aliases,
    values_failure, values_joins, values_translated,
};
use super::helpers::{Env, RootAndCurrentTables, TableNameAndReference};
use super::relationships::{
    mapping_condition, mapping_error, mapping_expression, mapping_fold, pairs_error, peel_ands,
};
use super::root::{
    aggregates_failure, aggregates_present, aggregates_translated, conditioned, field_column_ok,
    join_translated, joins_next, joins_translated, order_by_joins, query_part_translated,
    query_tables, query_translated, relationship_count, rows_next, rows_translated,
    rowset_aliases, rowset_of, unconditioned,
};
use super::sorting::{
    aliased_columns, order_by_translated, order_column_error, order_column_translated,
    order_element_translated, order_elements_error, order_elements_joins,
    order_elements_translated, order_part_ok, order_source_name, order_target_translated,
    required_columns,
};
use super::values::{json_failure, json_items_failure, json_translated};
use super::{request_env, universe_of};
use crate::metadata::Metadata;
use crate::sql::ast::{
    ColumnAlias, ColumnName, Expression, From, Function, Join, OrderBy, OrderByElement, Select,
    SelectList, TableAlias, TableName, Value,
};
use crate::sql::convert::values_text;
use crate::sql::execution_plan::ExecutionPlan;
use crate::sql::helpers::{
    alias_named, is_call, is_json_agg_or_empty, is_row_as_json_with_default, is_rows_as_json,
    is_rowset_body, row_to_json, true_literal, SelectSet,
};
use crate::sql::sameness::{
    element_same, elements_same, expr_same, exprs_same, from_same, item_same, items_same,
    join_same,
    joins_same, lemma_expr_same, lemma_from_select_same, lemma_join_same, lemma_list_same,
    lemma_select_same, lemma_values_same, list_same, select_same, value_same,
};
use crate::types::input;
use crate::types::input::{Query, QueryRequest};

verus! {

/// `a` and `b` are the same table of the metadata, referred to by names with the same text.
pub open spec fn table_same(a: TableNameAndReference, b: TableNameAndReference) -> bool {
    a.name == b.name && a.reference.sql_text() == b.reference.sql_text()
}

/// The root tables of `a` and `b` are the same, and so are their current tables.
pub open spec fn tables_same(a: RootAndCurrentTables, b: RootAndCurrentTables) -> bool {
    table_same(a.root_table, b.root_table) && table_same(a.current_table, b.current_table)
}

/// Lists of joins that are alike on a prefix and on the rest are alike.
proof fn lemma_joins_split(a: Seq<Join>, b: Seq<Join>, k: int)
    requires
        0 <= k <= a.len(),
        a.len() == b.len(),
        joins_same(a.subrange(0, k), b.subrange(0, k)),
        joins_same(a.subrange(k, a.len() as int), b.subrange(k, b.len() as int)),
    ensures
        joins_same(a, b),
{
    assert forall|i: int| 0 <= i < a.len() implies #[trigger] join_same(a[i], b[i]) by {
        if i < k {
            assert(a.subrange(0, k)[i] == a[i]);
            assert(b.subrange(0, k)[i] == b[i]);
            assert(join_same(a.subrange(0, k)[i], b.subrange(0, k)[i]));
        } else {
            assert(a.subrange(k, a.len() as int)[i - k] == a[i]);
            assert(b.subrange(k, b.len() as int)[i - k] == b[i]);
            assert(join_same(
                a.subrange(k, a.len() as int)[i - k],
                b.subrange(k, b.len() as int)[i - k],
            ));
        }
    }
}

/// A select clause that is the same on both sides renders alike.
proof fn lemma_from_equal(a: Option<From>)
    ensures
        from_same(a, a),
{
}

/// The conditions of a column mapping render alike from alike tables, around alike
/// expressions.
pub proof fn lemma_mapping_same(
    env: &Env,
    c1: TableNameAndReference,
    c2: TableNameAndReference,
    t1: TableName,
    t2: TableName,
    target_name: Seq<char>,
    e1: Expression,
    e2: Expression,
    pairs: Seq<(String, String)>,
)
    requires
        table_same(c1, c2),
        t1.sql_text() == t2.sql_text(),
        expr_same(e1, e2),
    ensures
        expr_same(
            mapping_fold(env, c1, t1, target_name, e1, pairs),
            mapping_fold(env, c2, t2, target_name, e2, pairs),
        ),
    decreases pairs.len(),
{
    if pairs.len() > 0 {
        let init = pairs.subrange(0, pairs.len() - 1);
        lemma_mapping_same(env, c1, c2, t1, t2, target_name, e1, e2, init);
        let pair = pairs[pairs.len() - 1];
        let m1 = mapping_condition(env, c1, t1, target_name, pair);
        let m2 = mapping_condition(env, c2, t2, target_name, pair);
        lemma_expr_same(*m1->BinaryOperator_left, *m2->BinaryOperator_left);
        lemma_expr_same(*m1->BinaryOperator_right, *m2->BinaryOperator_right);
        lemma_expr_same(m1, m2);
        lemma_expr_same(
            mapping_fold(env, c1, t1, target_name, e1, pairs),
            mapping_fold(env, c2, t2, target_name, e2, pairs),
        );
    }
}

/// The SQL values of a JSON value render alike.
pub proof fn lemma_json_same(v: input::JsonValue, o1: Value, o2: Value)
    requires
        json_translated(v, o1),
        json_translated(v, o2),
    ensures
        value_same(o1, o2),
    decreases v,
{
    match v {
        input::JsonValue::Array(items) => {
            let (a, b) = (o1->Array_0@, o2->Array_0@);
            assert forall|i: int| 0 <= i < a.len() implies #[trigger] value_same(a[i], b[i]) by {
                lemma_json_same(items@[i], a[i], b[i]);
            }
            lemma_values_same(a, b);
            assert forall|n: nat| #[trigger] o1.sql_text(n) == o2.sql_text(n) by {
                assert(values_text(a, n) == values_text(b, n));
            }
        },
        _ => {},
    }
}

/// Translations of one expression from alike tables are alike, and so are their joins.
pub proof fn lemma_expr_translated_same(
    env: &Env,
    t1: RootAndCurrentTables,
    t2: RootAndCurrentTables,
    n: nat,
    e: input::Expression,
    o1: Expression,
    o2: Expression,
    j1: Seq<Join>,
    j2: Seq<Join>,
)
    requires
        tables_same(t1, t2),
        expr_translated(env, t1, n, e, o1, j1),
        expr_translated(env, t2, n, e, o2, j2),
    ensures
        expr_same(o1, o2),
        joins_same(j1, j2),
    decreases e,
{
    match e {
        input::Expression::And { expressions } => {
            lemma_fold_translated_same(env, t1, t2, n, expressions@, true, o1, o2, j1, j2);
        },
        input::Expression::Or { expressions } => {
            lemma_fold_translated_same(env, t1, t2, n, expressions@, false, o1, o2, j1, j2);
        },
        input::Expression::Not { expression } => {
            lemma_expr_translated_same(env, t1, t2, n, *expression, *o1->Not_0, *o2->Not_0, j1, j2);
            lemma_expr_same(o1, o2);
        },
        input::Expression::UnaryComparisonOperator { column, .. } => {
            lemma_target_translated_same(
                env,
                t1,
                t2,
                n,
                *column,
                *o1->UnaryOperator_column,
                *o2->UnaryOperator_column,
                j1,
                j2,
            );
            lemma_expr_same(o1, o2);
        },
        input::Expression::BinaryComparisonOperator { column, value, .. } => {
            let k = target_joins(*column) as int;
            lemma_target_translated_same(
                env,
                t1,
                t2,
                n,
                *column,
                *o1->BinaryOperator_left,
                *o2->BinaryOperator_left,
                j1.subrange(0, k),
                j2.subrange(0, k),
            );
            lemma_value_translated_same(
                env,
                t1,
                t2,
                n + super::filtering::target_aliases(*column),
                *value,
                *o1->BinaryOperator_right,
                *o2->BinaryOperator_right,
                j1.subrange(k, j1.len() as int),
                j2.subrange(k, j2.len() as int),
            );
            lemma_joins_split(j1, j2, k);
            lemma_expr_same(o1, o2);
        },
        input::Expression::BinaryArrayComparisonOperator { column, values, .. } => {
            let k = target_joins(*column) as int;
            lemma_target_translated_same(
                env,
                t1,
                t2,
                n,
                *column,
                *o1->BinaryArrayOperator_left,
                *o2->BinaryArrayOperator_left,
                j1.subrange(0, k),
                j2.subrange(0, k),
            );
            lemma_values_translated_same(
                env,
                t1,
                t2,
                n + super::filtering::target_aliases(*column),
                values@,
                o1->BinaryArrayOperator_right@,
                o2->BinaryArrayOperator_right@,
                j1.subrange(k, j1.len() as int),
                j2.subrange(k, j2.len() as int),
            );
            lemma_joins_split(j1, j2, k);
            lemma_expr_same(o1, o2);
        },
        input::Expression::Exists { in_table, predicate } => {
            let s1 = *o1->Exists_select;
            let s2 = *o2->Exists_select;
            let x1 = exists_tables(env, t1, *in_table);
            let x2 = exists_tables(env, t2, *in_table);
            let c1 = exists_condition(env, *in_table, s1);
            let c2 = exists_condition(env, *in_table, s2);
            lemma_expr_translated_same(env, x1, x2, n, *predicate, c1, c2, s1.joins@, s2.joins@);
            match *in_table {
                input::ExistsInTable::Unrelated { .. } => {},
                input::ExistsInTable::Related { relationship, .. } => {
                    let rel = env.relationship_of(relationship@).unwrap();
                    let target = TableName::AliasedTable(
                        TableAlias { unique_index: 0, name: exists_table(env, *in_table) },
                    );
                    lemma_mapping_same(
                        env,
                        t1.current_table,
                        t2.current_table,
                        target,
                        target,
                        rel.target_table@,
                        c1,
                        c2,
                        rel.column_mapping@,
                    );
                },
            }
            assert(s1.select_list->SelectList_0@.len() == 0);
            lemma_list_same(s1.select_list, s2.select_list);
            lemma_from_equal(s1.from);
            assert(s1.from == s2.from);
            assert(s1.limit == s2.limit);
            lemma_select_same(s1, s2);
            lemma_expr_same(o1, o2);
        },
    }
}

/// Translations of a fold of expressions from alike tables are alike, and so are their
/// joins.
pub proof fn lemma_fold_translated_same(
    env: &Env,
    t1: RootAndCurrentTables,
    t2: RootAndCurrentTables,
    n: nat,
    es: Seq<input::Expression>,
    is_and: bool,
    o1: Expression,
    o2: Expression,
    j1: Seq<Join>,
    j2: Seq<Join>,
)
    requires
        tables_same(t1, t2),
        fold_translated(env, t1, n, es, is_and, o1, j1),
        fold_translated(env, t2, n, es, is_and, o2, j2),
    ensures
        expr_same(o1, o2),
        joins_same(j1, j2),
    decreases es,
{
    if es.len() > 0 {
        let init = es.subrange(0, es.len() - 1);
        let k = exprs_joins(init) as int;
        let m = n + exprs_aliases(init);
        if is_and {
            lemma_fold_translated_same(
                env,
                t1,
                t2,
                n,
                init,
                is_and,
                *o1->And_left,
                *o2->And_left,
                j1.subrange(0, k),
                j2.subrange(0, k),
            );
            lemma_expr_translated_same(
                env,
                t1,
                t2,
                m,
                es[es.len() - 1],
                *o1->And_right,
                *o2->And_right,
                j1.subrange(k, j1.len() as int),
                j2.subrange(k, j2.len() as int),
            );
        } else {
            lemma_fold_translated_same(
                env,
                t1,
                t2,
                n,
                init,
                is_and,
                *o1->Or_left,
                *o2->Or_left,
                j1.subrange(0, k),
                j2.subrange(0, k),
            );
            lemma_expr_translated_same(
                env,
                t1,
                t2,
                m,
                es[es.len() - 1],
                *o1->Or_right,
                *o2->Or_right,
                j1.subrange(k, j1.len() as int),
                j2.subrange(k, j2.len() as int),
            );
        }
        lemma_joins_split(j1, j2, k);
        lemma_expr_same(o1, o2);
    }
}

/// Translations of a comparison target from alike tables are alike, and so are their joins.
pub proof fn lemma_target_translated_same(
    env: &Env,
    t1: RootAndCurrentTables,
    t2: RootAndCurrentTables,
    n: nat,
    t: input::ComparisonTarget,
    o1: Expression,
    o2: Expression,
    j1: Seq<Join>,
    j2: Seq<Join>,
)
    requires
        tables_same(t1, t2),
        target_translated(env, t1, n, t, o1, j1),
        target_translated(env, t2, n, t, o2, j2),
    ensures
        expr_same(o1, o2),
        joins_same(j1, j2),
    decreases t,
{
    match t {
        input::ComparisonTarget::Column { path, .. } => {
            lemma_path_translated_same(env, t1, t2, n, path@, j1, j2);
            let len = path@.len() as int;
            let p1 = path_table(env, t1, path@, j1, len);
            let p2 = path_table(env, t2, path@, j2, len);
            assert(table_same(p1, p2));
            lemma_expr_same(o1, o2);
        },
        input::ComparisonTarget::RootTableColumn { .. } => {
            lemma_expr_same(o1, o2);
        },
    }
}

/// Translations of a path from alike tables have alike joins, with aliases of the same text.
pub proof fn lemma_path_translated_same(
    env: &Env,
    t1: RootAndCurrentTables,
    t2: RootAndCurrentTables,
    n: nat,
    path: Seq<input::PathElementWithPredicate>,
    j1: Seq<Join>,
    j2: Seq<Join>,
)
    requires
        tables_same(t1, t2),
        path_translated(env, t1, n, path, j1),
        path_translated(env, t2, n, path, j2),
    ensures
        joins_same(j1, j2),
        forall|k: int|
            0 < k <= path.len() ==> table_same(
                #[trigger] path_table(env, t1, path, j1, k),
                path_table(env, t2, path, j2, k),
            ),
    decreases path,
{
    if path.len() > 0 {
        let last = path.len() - 1;
        let init = path.subrange(0, last);
        let (i1, i2) = (j1.subrange(0, last), j2.subrange(0, last));
        lemma_path_translated_same(env, t1, t2, n, init, i1, i2);
        let m = n + path_aliases(init);
        let rel = env.relationship_of(path[last].relationship@).unwrap();
        let x1 = j1[last]->InnerJoinLateral_0;
        let x2 = j2[last]->InnerJoinLateral_0;
        let prev1 = path_table(env, t1, path, j1, last);
        let prev2 = path_table(env, t2, path, j2, last);
        assert(table_same(prev1, prev2)) by {
            if last > 0 {
                assert(path_table(env, t1, init, i1, last) == prev1);
                assert(path_table(env, t2, init, i2, last) == prev2);
            }
        }
        let c1 = RootAndCurrentTables {
            root_table: t1.root_table,
            current_table: TableNameAndReference {
                name: rel.target_table,
                reference: TableName::AliasedTable(x1.alias),
            },
        };
        let c2 = RootAndCurrentTables {
            root_table: t2.root_table,
            current_table: TableNameAndReference {
                name: rel.target_table,
                reference: TableName::AliasedTable(x2.alias),
            },
        };
        let k = rel.column_mapping@.len();
        let (w1, w2) = (x1.select.where_.0, x2.select.where_.0);
        lemma_expr_translated_same(
            env,
            c1,
            c2,
            m + 1,
            *path[last].predicate,
            peel_ands(w1, k),
            peel_ands(w2, k),
            x1.select.joins@,
            x2.select.joins@,
        );
        lemma_mapping_same(
            env,
            prev1,
            prev2,
            TableName::AliasedTable(x1.alias),
            TableName::AliasedTable(x2.alias),
            rel.target_table@,
            peel_ands(w1, k),
            peel_ands(w2, k),
            rel.column_mapping@,
        );
        assert(list_same(x1.select.select_list, x2.select.select_list));
        assert forall|q: nat| #[trigger] x1.select.from->Some_0.sql_text(q)
            == x2.select.from->Some_0.sql_text(q) by {}
        assert(from_same(x1.select.from, x2.select.from));
        assert(elements_same(x1.select.order_by.elements@, x2.select.order_by.elements@));
        assert(x1.select.limit == x2.select.limit);
        lemma_select_same(*x1.select, *x2.select);
        lemma_join_same(j1[last], j2[last]);
        assert(joins_same(j1.subrange(last, j1.len() as int), j2.subrange(last, j2.len() as int)))
            by {
            assert(j1.subrange(last, j1.len() as int)[0] == j1[last]);
            assert(j2.subrange(last, j2.len() as int)[0] == j2[last]);
        }
        lemma_joins_split(j1, j2, last);
        assert forall|k: int| 0 < k <= path.len() implies table_same(
            #[trigger] path_table(env, t1, path, j1, k),
            path_table(env, t2, path, j2, k),
        ) by {
            if k < path.len() {
                assert(path_table(env, t1, init, i1, k) == path_table(env, t1, path, j1, k));
                assert(path_table(env, t2, init, i2, k) == path_table(env, t2, path, j2, k));
            }
        }
    }
}

/// Translations of a comparison value from alike tables are alike, and so are their joins.
pub proof fn lemma_value_translated_same(
    env: &Env,
    t1: RootAndCurrentTables,
    t2: RootAndCurrentTables,
    n: nat,
    v: input::ComparisonValue,
    o1: Expression,
    o2: Expression,
    j1: Seq<Join>,
    j2: Seq<Join>,
)
    requires
        tables_same(t1, t2),
        value_translated(env, t1, n, v, o1, j1),
        value_translated(env, t2, n, v, o2, j2),
    ensures
        expr_same(o1, o2),
        joins_same(j1, j2),
    decreases v,
{
    match v {
        input::ComparisonValue::Column { column } => {
            lemma_target_translated_same(env, t1, t2, n, *column, o1, o2, j1, j2);
        },
        input::ComparisonValue::Scalar { value } => {
            lemma_json_same(value, o1->Value_0, o2->Value_0);
            lemma_expr_same(o1, o2);
        },
        input::ComparisonValue::Variable { .. } => {},
    }
}

/// Translations of comparison values from alike tables are alike, and so are their joins.
pub proof fn lemma_values_translated_same(
    env: &Env,
    t1: RootAndCurrentTables,
    t2: RootAndCurrentTables,
    n: nat,
    vs: Seq<input::ComparisonValue>,
    o1: Seq<Expression>,
    o2: Seq<Expression>,
    j1: Seq<Join>,
    j2: Seq<Join>,
)
    requires
        tables_same(t1, t2),
        values_translated(env, t1, n, vs, o1, j1),
        values_translated(env, t2, n, vs, o2, j2),
    ensures
        exprs_same(o1, o2),
        joins_same(j1, j2),
    decreases vs,
{
    if vs.len() > 0 {
        let init = vs.subrange(0, vs.len() - 1);
        let k = values_joins(init) as int;
        let last = o1.len() - 1;
        lemma_values_translated_same(
            env,
            t1,
            t2,
            n,
            init,
            o1.subrange(0, last),
            o2.subrange(0, last),
            j1.subrange(0, k),
            j2.subrange(0, k),
        );
        lemma_value_translated_same(
            env,
            t1,
            t2,
            n + values_aliases(init),
            vs[vs.len() - 1],
            o1[last],
            o2[last],
            j1.subrange(k, j1.len() as int),
            j2.subrange(k, j2.len() as int),
        );
        lemma_joins_split(j1, j2, k);
        assert forall|i: int| 0 <= i < o1.len() implies #[trigger] expr_same(o1[i], o2[i]) by {
            if i < last {
                assert(o1.subrange(0, last)[i] == o1[i]);
                assert(o2.subrange(0, last)[i] == o2[i]);
                assert(expr_same(o1.subrange(0, last)[i], o2.subrange(0, last)[i]));
            }
        }
    }
}

// Ordering.

/// Selects over the same step of an order by path, under aliases of the same name, render
/// alike, and so do their aliases.
pub proof fn lemma_order_part_same(
    env: &Env,
    path: Seq<input::PathElement>,
    i: int,
    required: Seq<ColumnAlias>,
    a1: TableAlias,
    a2: TableAlias,
    s1: Select,
    s2: Select,
)
    requires
        order_part_ok(env, path, i, required, a1, s1),
        order_part_ok(env, path, i, required, a2, s2),
    ensures
        select_same(s1, s2),
        a1.sql_text() == a2.sql_text(),
{
    let rel = env.relationship_of(path[i].relationship@).unwrap();
    let source_name = order_source_name(rel, i);
    let (l1, l2) = (s1.select_list->SelectList_0@, s2.select_list->SelectList_0@);
    assert(items_same(l1, l2)) by {
        assert forall|k: int| 0 <= k < l1.len() implies #[trigger] item_same(l1[k], l2[k]) by {
            assert(l1[k] == aliased_columns(a1, required)[k]);
            assert(l2[k] == aliased_columns(a2, required)[k]);
            lemma_expr_same(l1[k].1, l2[k].1);
        }
    }
    lemma_list_same(s1.select_list, s2.select_list);
    assert forall|q: nat| #[trigger] s1.from->Some_0.sql_text(q) == s2.from->Some_0.sql_text(q)
        by {}
    let src1 = choose|source: TableAlias|
        #[trigger] alias_named(source, source_name) && s1.where_.0 == mapping_expression(
            env,
            TableNameAndReference {
                name: rel.source_table_or_type,
                reference: TableName::AliasedTable(source),
            },
            TableName::AliasedTable(a1),
            true_literal(),
            rel,
        );
    let src2 = choose|source: TableAlias|
        #[trigger] alias_named(source, source_name) && s2.where_.0 == mapping_expression(
            env,
            TableNameAndReference {
                name: rel.source_table_or_type,
                reference: TableName::AliasedTable(source),
            },
            TableName::AliasedTable(a2),
            true_literal(),
            rel,
        );
    lemma_mapping_same(
        env,
        TableNameAndReference {
            name: rel.source_table_or_type,
            reference: TableName::AliasedTable(src1),
        },
        TableNameAndReference {
            name: rel.source_table_or_type,
            reference: TableName::AliasedTable(src2),
        },
        TableName::AliasedTable(a1),
        TableName::AliasedTable(a2),
        rel.target_table@,
        true_literal(),
        true_literal(),
        rel.column_mapping@,
    );
    assert(s1.limit == s2.limit);
    lemma_select_same(s1, s2);
}

/// Translations of ordering by a column at the end of the same non-empty path render alike.
pub proof fn lemma_order_column_same(
    env: &Env,
    column_name: String,
    path: Seq<input::PathElement>,
    function: Option<String>,
    alias: ColumnAlias,
    s1: Select,
    s2: Select,
)
    requires
        path.len() > 0,
        order_column_translated(env, column_name, path, function, alias, Some(s1)),
        order_column_translated(env, column_name, path, function, alias, Some(s2)),
    ensures
        select_same(s1, s2),
{
    let selected = ColumnAlias { unique_index: 0, name: column_name };
    let (f1, f2) = (s1.from->Some_0, s2.from->Some_0);
    lemma_order_part_same(
        env,
        path,
        0,
        required_columns(env, path, 0, selected),
        f1->Select_alias,
        f2->Select_alias,
        *f1->Select_select,
        *f2->Select_select,
    );
    lemma_from_select_same(f1, f2);
    let (js1, js2) = (s1.joins@, s2.joins@);
    assert forall|k: int| 0 <= k < js1.len() implies #[trigger] join_same(js1[k], js2[k]) && join_alias(
        js1[k],
    ).sql_text() == join_alias(js2[k]).sql_text() by {
        let (x1, x2) = (js1[k]->LeftOuterJoinLateral_0, js2[k]->LeftOuterJoinLateral_0);
        lemma_order_part_same(
            env,
            path,
            k + 1,
            required_columns(env, path, k + 1, selected),
            x1.alias,
            x2.alias,
            *x1.select,
            *x2.select,
        );
        lemma_join_same(js1[k], js2[k]);
    }
    let last1 = if path.len() == 1 {
        f1->Select_alias
    } else {
        join_alias(js1[path.len() - 2])
    };
    let last2 = if path.len() == 1 {
        f2->Select_alias
    } else {
        join_alias(js2[path.len() - 2])
    };
    assert(last1.sql_text() == last2.sql_text());
    let c1 = Expression::ColumnName(
        ColumnName::AliasedColumn { table: TableName::AliasedTable(last1), name: selected },
    );
    let c2 = Expression::ColumnName(
        ColumnName::AliasedColumn { table: TableName::AliasedTable(last2), name: selected },
    );
    lemma_expr_same(c1, c2);
    let (l1, l2) = (s1.select_list->SelectList_0@, s2.select_list->SelectList_0@);
    match function {
        None => {},
        Some(f) => {
            assert(exprs_same(l1[0].1->FunctionCall_args@, l2[0].1->FunctionCall_args@)) by {
                assert(l1[0].1->FunctionCall_args@[0] == c1);
                assert(l2[0].1->FunctionCall_args@[0] == c2);
            }
            lemma_expr_same(l1[0].1, l2[0].1);
        },
    }
    assert(item_same(l1[0], l2[0]));
    lemma_list_same(s1.select_list, s2.select_list);
    assert(s1.limit == s2.limit);
    lemma_select_same(s1, s2);
}

/// Translations of ordering by the same column render alike, and so do their joins.
pub proof fn lemma_order_target_same(
    env: &Env,
    tables: RootAndCurrentTables,
    index: int,
    column: String,
    path: Seq<input::PathElement>,
    function: Option<String>,
    o1: Expression,
    o2: Expression,
    j1: Seq<Join>,
    j2: Seq<Join>,
)
    requires
        order_target_translated(env, tables, index, column, path, function, o1, j1),
        order_target_translated(env, tables, index, column, path, function, o2, j2),
    ensures
        expr_same(o1, o2),
        joins_same(j1, j2),
{
    if path.len() > 0 {
        let (x1, x2) = (j1[0]->LeftOuterJoinLateral_0, j2[0]->LeftOuterJoinLateral_0);
        let selected = ColumnAlias { unique_index: 0, name: column };
        lemma_order_column_same(env, column, path, function, selected, *x1.select, *x2.select);
        lemma_join_same(j1[0], j2[0]);
        lemma_expr_same(o1, o2);
    }
}

/// Translations of the same order by element render alike, and so do their joins.
pub proof fn lemma_order_element_same(
    env: &Env,
    tables: RootAndCurrentTables,
    index: int,
    element: input::OrderByElement,
    o1: OrderByElement,
    o2: OrderByElement,
    j1: Seq<Join>,
    j2: Seq<Join>,
)
    requires
        order_element_translated(env, tables, index, element, o1, j1),
        order_element_translated(env, tables, index, element, o2, j2),
    ensures
        element_same(o1, o2),
        joins_same(j1, j2),
{
    match element.target {
        input::OrderByTarget::Column { name, path } => {
            lemma_order_target_same(env, tables, index, name, path@, None, o1.target, o2.target, j1, j2);
        },
        input::OrderByTarget::SingleColumnAggregate { column, function, path } => {
            lemma_order_target_same(
                env,
                tables,
                index,
                column,
                path@,
                Some(function),
                o1.target,
                o2.target,
                j1,
                j2,
            );
        },
        input::OrderByTarget::StarCountAggregate { path } => {
            let (x1, x2) = (j1[0]->LeftOuterJoinLateral_0, j2[0]->LeftOuterJoinLateral_0);
            let (s1, s2) = (*x1.select, *x2.select);
            let (l1, l2) = (s1.select_list->SelectList_0@, s2.select_list->SelectList_0@);
            assert(item_same(l1[0], l2[0])) by {
                lemma_expr_same(l1[0].1, l2[0].1);
            }
            lemma_list_same(s1.select_list, s2.select_list);
            assert(s1.from == s2.from);
            assert(s1.limit == s2.limit);
            lemma_select_same(s1, s2);
            lemma_join_same(j1[0], j2[0]);
            lemma_expr_same(o1.target, o2.target);
        },
    }
}

/// Translations of the same order by elements render alike, and so do their joins.
pub proof fn lemma_order_elements_same(
    env: &Env,
    tables: RootAndCurrentTables,
    elements: Seq<input::OrderByElement>,
    o1: Seq<OrderByElement>,
    o2: Seq<OrderByElement>,
    j1: Seq<Join>,
    j2: Seq<Join>,
)
    requires
        order_elements_translated(env, tables, elements, o1, j1),
        order_elements_translated(env, tables, elements, o2, j2),
    ensures
        elements_same(o1, o2),
        joins_same(j1, j2),
    decreases elements.len(),
{
    if elements.len() > 0 {
        let last = elements.len() - 1;
        let init = elements.subrange(0, last);
        let k = order_elements_joins(init) as int;
        lemma_order_elements_same(
            env,
            tables,
            init,
            o1.subrange(0, last),
            o2.subrange(0, last),
            j1.subrange(0, k),
            j2.subrange(0, k),
        );
        lemma_order_element_same(
            env,
            tables,
            last,
            elements[last],
            o1[last],
            o2[last],
            j1.subrange(k, j1.len() as int),
            j2.subrange(k, j2.len() as int),
        );
        lemma_joins_split(j1, j2, k);
        assert forall|i: int| 0 <= i < o1.len() implies #[trigger] element_same(o1[i], o2[i]) by {
            if i < last {
                assert(o1.subrange(0, last)[i] == o1[i]);
                assert(o2.subrange(0, last)[i] == o2[i]);
                assert(element_same(o1.subrange(0, last)[i], o2.subrange(0, last)[i]));
            }
        }
    }
}

/// Translations of the same order by clause render alike, and so do their joins.
pub proof fn lemma_order_by_same(
    env: &Env,
    tables: RootAndCurrentTables,
    order_by: Option<input::OrderBy>,
    o1: OrderBy,
    o2: OrderBy,
    j1: Seq<Join>,
    j2: Seq<Join>,
)
    requires
        order_by_translated(env, tables, order_by, o1, j1),
        order_by_translated(env, tables, order_by, o2, j2),
    ensures
        elements_same(o1.elements@, o2.elements@),
        joins_same(j1, j2),
{
    match order_by {
        None => {},
        Some(order_by) => {
            lemma_order_elements_same(env, tables, order_by.elements@, o1.elements@, o2.elements@, j1, j2);
        },
    }
}

// The failures of a part of a query, other than a missing part, are never `NoFields`.

/// A failure of mapping the columns of a relationship is never `NoFields`.
proof fn lemma_pairs_error(env: &Env, source: Seq<char>, target: Seq<char>, pairs: Seq<(String, String)>)
    ensures
        pairs_error(env, source, target, pairs) != Some(ErrorView::NoFields),
    decreases pairs.len(),
{
    if pairs.len() > 0 {
        lemma_pairs_error(env, source, target, pairs.subrange(1, pairs.len() as int));
    }
}

/// A failure of joining a table with the target of a relationship is never `NoFields`.
proof fn lemma_mapping_error(env: &Env, current: Seq<char>, rel: input::Relationship)
    ensures
        mapping_error(env, current, rel) != Some(ErrorView::NoFields),
{
    lemma_pairs_error(env, current, rel.target_table@, rel.column_mapping@);
}

/// A failure of translating a JSON value is never `NoFields`.
proof fn lemma_json_failure(value: input::JsonValue)
    ensures
        json_failure(value) != Some(Failure::Error(ErrorView::NoFields)),
    decreases value,
{
    match value {
        input::JsonValue::Array(items) => lemma_json_items_failure(items@),
        _ => {},
    }
}

/// A failure of translating JSON values is never `NoFields`.
proof fn lemma_json_items_failure(items: Seq<input::JsonValue>)
    ensures
        json_items_failure(items) != Some(Failure::Error(ErrorView::NoFields)),
    decreases items,
{
    if items.len() > 0 {
        lemma_json_failure(items[0]);
        lemma_json_items_failure(items.subrange(1, items.len() as int));
    }
}

/// A failure of translating an expression is never `NoFields`.
proof fn lemma_expr_failure(env: &Env, root: Seq<char>, current: Seq<char>, n: nat, e: input::Expression)
    ensures
        expr_failure(env, root, current, n, e) != Some(Failure::Error(ErrorView::NoFields)),
    decreases e,
{
    match e {
        input::Expression::And { expressions } => lemma_exprs_failure(env, root, current, n, expressions@),
        input::Expression::Or { expressions } => lemma_exprs_failure(env, root, current, n, expressions@),
        input::Expression::Not { expression } => lemma_expr_failure(env, root, current, n, *expression),
        input::Expression::UnaryComparisonOperator { column, .. } => {
            lemma_target_failure(env, root, current, n, *column);
        },
        input::Expression::BinaryComparisonOperator { column, value, .. } => {
            lemma_target_failure(env, root, current, n, *column);
            lemma_value_failure(env, root, current, n + target_aliases(*column), *value);
        },
        input::Expression::BinaryArrayComparisonOperator { column, values, .. } => {
            lemma_target_failure(env, root, current, n, *column);
            lemma_values_failure(env, root, current, n + target_aliases(*column), values@);
        },
        input::Expression::Exists { in_table, predicate } => match *in_table {
            input::ExistsInTable::Unrelated { table, .. } => {
                lemma_expr_failure(env, root, table@, n, *predicate);
            },
            input::ExistsInTable::Related { relationship, .. } => match env.relationship_of(
                relationship@,
            ) {
                None => {},
                Some(rel) => {
                    lemma_expr_failure(env, root, rel.target_table@, n, *predicate);
                    lemma_mapping_error(env, current, rel);
                },
            },
        },
    }
}

/// A failure of translating expressions is never `NoFields`.
proof fn lemma_exprs_failure(env: &Env, root: Seq<char>, current: Seq<char>, n: nat, es: Seq<input::Expression>)
    ensures
        exprs_failure(env, root, current, n, es) != Some(Failure::Error(ErrorView::NoFields)),
    decreases es,
{
    if es.len() > 0 {
        lemma_expr_failure(env, root, current, n, es[0]);
        lemma_exprs_failure(env, root, current, n + expr_aliases(es[0]), es.subrange(1, es.len() as int));
    }
}

/// A failure of translating a comparison target is never `NoFields`.
proof fn lemma_target_failure(env: &Env, root: Seq<char>, current: Seq<char>, n: nat, t: input::ComparisonTarget)
    ensures
        target_failure(env, root, current, n, t) != Some(Failure::Error(ErrorView::NoFields)),
    decreases t,
{
    match t {
        input::ComparisonTarget::Column { path, .. } => lemma_path_failure(env, root, current, n, path@),
        _ => {},
    }
}

/// A failure of translating a path is never `NoFields`.
proof fn lemma_path_failure(
    env: &Env,
    root: Seq<char>,
    current: Seq<char>,
    n: nat,
    path: Seq<input::PathElementWithPredicate>,
)
    ensures
        path_failure(env, root, current, n, path) != Some(Failure::Error(ErrorView::NoFields)),
    decreases path,
{
    if path.len() > 0 {
        match env.relationship_of(path[0].relationship@) {
            None => {},
            Some(rel) => {
                lemma_expr_failure(env, root, rel.target_table@, n + 1, *path[0].predicate);
                lemma_mapping_error(env, current, rel);
                lemma_path_failure(
                    env,
                    root,
                    rel.target_table@,
                    n + 1 + expr_aliases(*path[0].predicate),
                    path.subrange(1, path.len() as int),
                );
            },
        }
    }
}

/// A failure of translating a comparison value is never `NoFields`.
proof fn lemma_value_failure(env: &Env, root: Seq<char>, current: Seq<char>, n: nat, v: input::ComparisonValue)
    ensures
        value_failure(env, root, current, n, v) != Some(Failure::Error(ErrorView::NoFields)),
    decreases v,
{
    match v {
        input::ComparisonValue::Column { column } => lemma_target_failure(env, root, current, n, *column),
        input::ComparisonValue::Scalar { value } => lemma_json_failure(value),
        _ => {},
    }
}

/// A failure of translating comparison values is never `NoFields`.
proof fn lemma_values_failure(
    env: &Env,
    root: Seq<char>,
    current: Seq<char>,
    n: nat,
    vs: Seq<input::ComparisonValue>,
)
    ensures
        values_failure(env, root, current, n, vs) != Some(Failure::Error(ErrorView::NoFields)),
    decreases vs,
{
    if vs.len() > 0 {
        lemma_value_failure(env, root, current, n, vs[0]);
        lemma_values_failure(env, root, current, n + value_aliases(vs[0]), vs.subrange(1, vs.len() as int));
    }
}

/// A failure of translating an order by path is never `NoFields`.
proof fn lemma_order_column_error(env: &Env, path: Seq<input::PathElement>, has_function: bool)
    ensures
        order_column_error(env, path, has_function) != Some(ErrorView::NoFields),
    decreases path.len(),
{
    if path.len() > 0 {
        match env.relationship_of(path[path.len() - 1].relationship@) {
            None => {},
            Some(rel) => lemma_mapping_error(env, rel.source_table_or_type@, rel),
        }
        lemma_order_column_error(env, path.subrange(0, path.len() - 1), has_function);
    }
}

/// A failure of translating order by elements is never `NoFields`.
proof fn lemma_order_elements_error(
    env: &Env,
    tables: RootAndCurrentTables,
    elements: Seq<input::OrderByElement>,
)
    ensures
        order_elements_error(env, tables, elements) != Some(ErrorView::NoFields),
    decreases elements.len(),
{
    if elements.len() > 0 {
        match elements[0].target {
            input::OrderByTarget::Column { path, .. } => lemma_order_column_error(env, path@, false),
            input::OrderByTarget::SingleColumnAggregate { path, .. } => lemma_order_column_error(
                env,
                path@,
                true,
            ),
            input::OrderByTarget::StarCountAggregate { path } => {
                if path@.len() == 1 {
                    match env.relationship_of(path@[0].relationship@) {
                        None => {},
                        Some(rel) => lemma_mapping_error(env, tables.current_table.name@, rel),
                    }
                }
            },
        }
        lemma_order_elements_error(env, tables, elements.subrange(1, elements.len() as int));
    }
}

/// The aggregates part of a query that has aggregates fails, if it does, for another reason
/// than a missing part.
proof fn lemma_aggregates_failure(env: &Env, n: nat, table: String, q: Query)
    requires
        aggregates_present(q),
    ensures
        aggregates_failure(env, n, table, q) != Some(Failure::Error(ErrorView::NoFields)),
{
    match q.order_by {
        Some(order_by) => lemma_order_elements_error(env, query_tables(table), order_by.elements@),
        None => {},
    }
    match q.predicate {
        Some(p) => lemma_expr_failure(env, table@, table@, n, p),
        None => {},
    }
}

// Queries.

/// The clauses of `a` and `b` are alike, one by one.
pub open spec fn select_parts_same(a: Select, b: Select) -> bool {
    &&& list_same(a.select_list, b.select_list)
    &&& from_same(a.from, b.from)
    &&& joins_same(a.joins@, b.joins@)
    &&& expr_same(a.where_.0, b.where_.0)
    &&& elements_same(a.order_by.elements@, b.order_by.elements@)
    &&& a.limit == b.limit
}

/// `a` and `b` have the same parts, and the selects of each part have alike clauses.
pub open spec fn set_same(a: SelectSet, b: SelectSet) -> bool {
    match a {
        SelectSet::Rows(x) => b matches SelectSet::Rows(y) && select_parts_same(x, y),
        SelectSet::Aggregates(x) => b matches SelectSet::Aggregates(y) && select_parts_same(x, y),
        SelectSet::RowsAndAggregates(x, z) => b matches SelectSet::RowsAndAggregates(y, w)
            && select_parts_same(x, y) && select_parts_same(z, w),
    }
}

/// A select list whose items are the same on both sides renders alike.
proof fn lemma_list_equal(a: SelectList, b: SelectList)
    requires
        a matches SelectList::SelectList(x) && b matches SelectList::SelectList(y) && x@ == y@,
    ensures
        list_same(a, b),
{
    let x = a->SelectList_0@;
    assert forall|i: int| 0 <= i < x.len() implies #[trigger] item_same(x[i], x[i]) by {}
    lemma_list_same(a, b);
}

/// `coalesce(json_agg(row_to_json(<alias>)), '[]')` over aliases with the same text renders
/// alike.
proof fn lemma_json_agg_same(e1: Expression, e2: Expression, t1: TableAlias, t2: TableAlias)
    requires
        is_json_agg_or_empty(e1, row_to_json(t1)),
        is_json_agg_or_empty(e2, row_to_json(t2)),
        t1.sql_text() == t2.sql_text(),
    ensures
        expr_same(e1, e2),
{
    let (a1, a2) = (e1->FunctionCall_args@, e2->FunctionCall_args@);
    lemma_expr_same(row_to_json(t1), row_to_json(t2));
    assert(exprs_same(a1[0]->FunctionCall_args@, a2[0]->FunctionCall_args@));
    lemma_expr_same(a1[0], a2[0]);
    assert(exprs_same(a1, a2)) by {
        assert forall|i: int| 0 <= i < a1.len() implies #[trigger] expr_same(a1[i], a2[i]) by {
            if i == 1 {
                assert(a1[1] == a2[1]);
            }
        }
    }
    lemma_expr_same(e1, e2);
}

/// `coalesce(row_to_json(<alias>), '[]')` over aliases with the same text renders alike.
proof fn lemma_row_json_same(e1: Expression, e2: Expression, t1: TableAlias, t2: TableAlias)
    requires
        is_call(
            e1,
            Function::Coalesce,
            seq![row_to_json(t1), Expression::Value(Value::EmptyJsonArray)],
        ),
        is_call(
            e2,
            Function::Coalesce,
            seq![row_to_json(t2), Expression::Value(Value::EmptyJsonArray)],
        ),
        t1.sql_text() == t2.sql_text(),
    ensures
        expr_same(e1, e2),
{
    let (a1, a2) = (e1->FunctionCall_args@, e2->FunctionCall_args@);
    lemma_expr_same(row_to_json(t1), row_to_json(t2));
    assert(exprs_same(a1, a2)) by {
        assert forall|i: int| 0 <= i < a1.len() implies #[trigger] expr_same(a1[i], a2[i]) by {
            if i == 1 {
                assert(a1[1] == a2[1]);
            }
        }
    }
    lemma_expr_same(e1, e2);
}

/// Bare selects of the json rows of alike selects render alike.
proof fn lemma_rows_as_json_same(
    s1: Select,
    s2: Select,
    r1: Select,
    r2: Select,
    c1: ColumnAlias,
    c2: ColumnAlias,
    t1: TableAlias,
    t2: TableAlias,
)
    requires
        is_rows_as_json(s1, r1, c1, t1),
        is_rows_as_json(s2, r2, c2, t2),
        select_parts_same(r1, r2),
        c1.sql_text() == c2.sql_text(),
        t1.sql_text() == t2.sql_text(),
    ensures
        select_same(s1, s2),
{
    let (l1, l2) = (s1.select_list->SelectList_0@, s2.select_list->SelectList_0@);
    lemma_json_agg_same(l1[0].1, l2[0].1, t1, t2);
    assert(item_same(l1[0], l2[0]));
    lemma_list_same(s1.select_list, s2.select_list);
    lemma_select_same(r1, r2);
    lemma_from_select_same(s1.from->Some_0, s2.from->Some_0);
    assert(s1.limit == s2.limit);
    lemma_select_same(s1, s2);
}

/// Bare selects of the json row of alike selects, or `'[]'`, render alike.
proof fn lemma_row_as_json_same(
    s1: Select,
    s2: Select,
    r1: Select,
    r2: Select,
    c1: ColumnAlias,
    c2: ColumnAlias,
    t1: TableAlias,
    t2: TableAlias,
)
    requires
        is_row_as_json_with_default(s1, r1, c1, t1),
        is_row_as_json_with_default(s2, r2, c2, t2),
        select_parts_same(r1, r2),
        c1.sql_text() == c2.sql_text(),
        t1.sql_text() == t2.sql_text(),
    ensures
        select_same(s1, s2),
{
    let (l1, l2) = (s1.select_list->SelectList_0@, s2.select_list->SelectList_0@);
    lemma_row_json_same(l1[0].1, l2[0].1, t1, t2);
    assert(item_same(l1[0], l2[0]));
    lemma_list_same(s1.select_list, s2.select_list);
    lemma_select_same(r1, r2);
    lemma_from_select_same(s1.from->Some_0, s2.from->Some_0);
    assert(s1.limit == s2.limit);
    lemma_select_same(s1, s2);
}

/// Rowsets of alike select sets, under the aliases `rows` and `aggregates`, render alike.
pub proof fn lemma_rowset_body_same(
    b1: Select,
    b2: Select,
    s1: SelectSet,
    s2: SelectSet,
    row1: (TableAlias, ColumnAlias),
    row2: (TableAlias, ColumnAlias),
    agg1: (TableAlias, ColumnAlias),
    agg2: (TableAlias, ColumnAlias),
)
    requires
        is_rowset_body(b1, s1, row1, agg1),
        is_rowset_body(b2, s2, row2, agg2),
        rowset_aliases(row1, agg1),
        rowset_aliases(row2, agg2),
        set_same(s1, s2),
    ensures
        select_parts_same(b1, b2),
{
    assert(row1.0.sql_text() == row2.0.sql_text());
    assert(row1.1.sql_text() == row2.1.sql_text());
    assert(agg1.0.sql_text() == agg2.0.sql_text());
    assert(agg1.1.sql_text() == agg2.1.sql_text());
    let (f1, f2) = (b1.from->Some_0, b2.from->Some_0);
    match s1 {
        SelectSet::Rows(r1) => {
            let r2 = s2->Rows_0;
            lemma_rows_as_json_same(
                *f1->Select_select,
                *f2->Select_select,
                r1,
                r2,
                row1.1,
                row2.1,
                row1.0,
                row2.0,
            );
            lemma_from_select_same(f1, f2);
        },
        SelectSet::Aggregates(a1) => {
            let a2 = s2->Aggregates_0;
            lemma_row_as_json_same(
                *f1->Select_select,
                *f2->Select_select,
                a1,
                a2,
                agg1.1,
                agg2.1,
                agg1.0,
                agg2.0,
            );
            lemma_from_select_same(f1, f2);
        },
        SelectSet::RowsAndAggregates(r1, a1) => {
            let (r2, a2) = (s2->RowsAndAggregates_0, s2->RowsAndAggregates_1);
            lemma_rows_as_json_same(
                *f1->Select_select,
                *f2->Select_select,
                r1,
                r2,
                row1.1,
                row2.1,
                row1.0,
                row2.0,
            );
            lemma_from_select_same(f1, f2);
            let (x1, x2) = (b1.joins@[0]->CrossJoin_0, b2.joins@[0]->CrossJoin_0);
            lemma_row_as_json_same(
                *x1.select,
                *x2.select,
                a1,
                a2,
                agg1.1,
                agg2.1,
                agg1.0,
                agg2.0,
            );
            lemma_join_same(b1.joins@[0], b2.joins@[0]);
        },
    }
    assert(b1.limit == b2.limit);
}

/// Select sets that are alike without the conditions of a relationship are alike with them.
proof fn lemma_conditioned_same(
    env: &Env,
    current: TableNameAndReference,
    target: TableName,
    rel: input::Relationship,
    s1: SelectSet,
    s2: SelectSet,
)
    requires
        conditioned(env, current, target, rel, s1),
        conditioned(env, current, target, rel, s2),
        set_same(unconditioned(s1, rel.column_mapping@.len()), unconditioned(s2, rel.column_mapping@.len())),
    ensures
        set_same(s1, s2),
{
    let k = rel.column_mapping@.len();
    match s1 {
        SelectSet::Rows(x1) => {
            let x2 = s2->Rows_0;
            lemma_mapping_same(env, current, current, target, target, rel.target_table@,
                peel_ands(x1.where_.0, k), peel_ands(x2.where_.0, k), rel.column_mapping@);
        },
        SelectSet::Aggregates(x1) => {
            let x2 = s2->Aggregates_0;
            lemma_mapping_same(env, current, current, target, target, rel.target_table@,
                peel_ands(x1.where_.0, k), peel_ands(x2.where_.0, k), rel.column_mapping@);
        },
        SelectSet::RowsAndAggregates(x1, z1) => {
            let (x2, z2) = (s2->RowsAndAggregates_0, s2->RowsAndAggregates_1);
            lemma_mapping_same(env, current, current, target, target, rel.target_table@,
                peel_ands(x1.where_.0, k), peel_ands(x2.where_.0, k), rel.column_mapping@);
            lemma_mapping_same(env, current, current, target, target, rel.target_table@,
                peel_ands(z1.where_.0, k), peel_ands(z2.where_.0, k), rel.column_mapping@);
        },
    }
}

/// Translations of the same query render alike, part by part.
pub proof fn lemma_query_same(env: &Env, n: nat, table: String, q: Query, s1: SelectSet, s2: SelectSet)
    requires
        query_translated(env, n, table, q, s1),
        query_translated(env, n, table, q, s2),
    ensures
        set_same(s1, s2),
    decreases q, 3nat,
{
    let m = rows_next(env, n, table, q);
    match s1 {
        SelectSet::Rows(x1) => {
            if s2 is RowsAndAggregates {
                lemma_aggregates_failure(env, m, table, q);
            }
            let x2 = s2->Rows_0;
            lemma_rows_same(env, n, table, q, x1, x2);
        },
        SelectSet::Aggregates(x1) => {
            let x2 = s2->Aggregates_0;
            lemma_aggregates_same(env, m, table, q, x1, x2);
        },
        SelectSet::RowsAndAggregates(x1, z1) => {
            if s2 is Rows {
                lemma_aggregates_failure(env, m, table, q);
            }
            let (x2, z2) = (s2->RowsAndAggregates_0, s2->RowsAndAggregates_1);
            lemma_rows_same(env, n, table, q, x1, x2);
            lemma_aggregates_same(env, m, table, q, z1, z2);
        },
    }
}

/// Translations of the rows part of the same query have alike clauses.
pub proof fn lemma_rows_same(env: &Env, n: nat, table: String, q: Query, a: Select, b: Select)
    requires
        q.fields is Some,
        rows_translated(env, n, table, q, a),
        rows_translated(env, n, table, q, b),
    ensures
        select_parts_same(a, b),
    decreases q, 2nat,
{
    let (x, y) = (a.select_list->SelectList_0@, b.select_list->SelectList_0@);
    let fields = q.fields->Some_0@;
    let alias = TableAlias { unique_index: 0, name: table };
    assert forall|i: int| 0 <= i < x.len() implies x[i] == y[i] by {
        assert(field_column_ok(env, table, alias, fields[i].0, fields[i].1, x[i].0, x[i].1));
        assert(field_column_ok(env, table, alias, fields[i].0, fields[i].1, y[i].0, y[i].1));
    }
    assert(x =~= y);
    lemma_list_equal(a.select_list, b.select_list);
    lemma_part_same(env, n, table, q, true, a, b);
}

/// Translations of the aggregates part of the same query have alike clauses.
pub proof fn lemma_aggregates_same(env: &Env, n: nat, table: String, q: Query, a: Select, b: Select)
    requires
        aggregates_translated(env, n, table, q, a),
        aggregates_translated(env, n, table, q, b),
    ensures
        select_parts_same(a, b),
    decreases q, 2nat,
{
    let (x, y) = (a.select_list->SelectList_0@, b.select_list->SelectList_0@);
    let aggregates = q.aggregates->Some_0@;
    let t = TableName::AliasedTable(TableAlias { unique_index: 0, name: table });
    assert forall|i: int| 0 <= i < x.len() implies #[trigger] item_same(x[i], y[i]) by {
        assert(aggregate_column_ok(t, aggregates[i].0, aggregates[i].1, x[i].0, x[i].1));
        assert(aggregate_column_ok(t, aggregates[i].0, aggregates[i].1, y[i].0, y[i].1));
        match aggregates[i].1 {
            input::Aggregate::SingleColumn { .. } => {
                assert(x[i].1->FunctionCall_args@ == y[i].1->FunctionCall_args@);
                let args = x[i].1->FunctionCall_args@;
                assert forall|j: int| 0 <= j < args.len() implies #[trigger] expr_same(
                    args[j],
                    args[j],
                ) by {}
                lemma_expr_same(x[i].1, y[i].1);
            },
            _ => {},
        }
    }
    lemma_list_same(a.select_list, b.select_list);
    lemma_part_same(env, n, table, q, false, a, b);
}

/// Translations of the common part of a select of the same query have alike clauses.
pub proof fn lemma_part_same(
    env: &Env,
    n: nat,
    table: String,
    q: Query,
    with_joins: bool,
    a: Select,
    b: Select,
)
    requires
        with_joins ==> q.fields is Some,
        query_part_translated(env, n, table, q, with_joins, a),
        query_part_translated(env, n, table, q, with_joins, b),
    ensures
        from_same(a.from, b.from),
        joins_same(a.joins@, b.joins@),
        expr_same(a.where_.0, b.where_.0),
        elements_same(a.order_by.elements@, b.order_by.elements@),
    decreases q, 1nat,
{
    let tables = query_tables(table);
    let k = if with_joins {
        relationship_count(q.fields->Some_0@)
    } else {
        0
    } as int;
    let ob = order_by_joins(q) as int;
    let (ja, jb) = (a.joins@, b.joins@);
    let m = match q.fields {
        Some(fields) => if with_joins {
            joins_next(env, n, table, fields@)
        } else {
            n
        },
        None => n,
    };
    lemma_from_equal(a.from);
    if with_joins {
        lemma_joins_translated_same(env, n, tables, q.fields->Some_0@, ja.subrange(0, k), jb.subrange(0, k));
    }
    lemma_order_by_same(
        env,
        tables,
        q.order_by,
        a.order_by,
        b.order_by,
        ja.subrange(k, k + ob),
        jb.subrange(k, k + ob),
    );
    let (ra, rb) = (ja.subrange(k + ob, ja.len() as int), jb.subrange(k + ob, jb.len() as int));
    match q.predicate {
        None => {},
        Some(p) => {
            lemma_expr_translated_same(env, tables, tables, m, p, a.where_.0, b.where_.0, ra, rb);
        },
    }
    let (pa, pb) = (ja.subrange(0, k + ob), jb.subrange(0, k + ob));
    assert(pa.subrange(0, k) == ja.subrange(0, k));
    assert(pb.subrange(0, k) == jb.subrange(0, k));
    assert(pa.subrange(k, k + ob) == ja.subrange(k, k + ob));
    assert(pb.subrange(k, k + ob) == jb.subrange(k, k + ob));
    lemma_joins_split(pa, pb, k);
    assert(ja.subrange(0, k + ob) == pa);
    lemma_joins_split(ja, jb, k + ob);
}

/// Translations of the relationship fields of the same fields have alike joins.
pub proof fn lemma_joins_translated_same(
    env: &Env,
    n: nat,
    tables: RootAndCurrentTables,
    fields: Seq<(String, input::Field)>,
    a: Seq<Join>,
    b: Seq<Join>,
)
    requires
        joins_translated(env, n, tables, fields, a),
        joins_translated(env, n, tables, fields, b),
    ensures
        joins_same(a, b),
    decreases fields, 0nat,
{
    if fields.len() > 0 {
        let last = fields.len() - 1;
        let init = fields.subrange(0, last);
        let k = relationship_count(init) as int;
        match fields[last].1 {
            input::Field::Column { .. } => {
                lemma_joins_translated_same(env, n, tables, init, a, b);
            },
            input::Field::Relationship { query, relationship, .. } => {
                lemma_joins_translated_same(env, n, tables, init, a.subrange(0, k), b.subrange(0, k));
                lemma_join_translated_same(
                    env,
                    joins_next(env, n, tables.current_table.name, init),
                    tables.current_table,
                    fields[last].0,
                    relationship,
                    *query,
                    a[k],
                    b[k],
                );
                assert(joins_same(a.subrange(k, a.len() as int), b.subrange(k, b.len() as int))) by {
                    assert(a.subrange(k, a.len() as int)[0] == a[k]);
                    assert(b.subrange(k, b.len() as int)[0] == b[k]);
                }
                lemma_joins_split(a, b, k);
            },
        }
    }
}

/// Translations of the same relationship field render alike.
pub proof fn lemma_join_translated_same(
    env: &Env,
    n: nat,
    current: TableNameAndReference,
    name: String,
    relationship: String,
    q: Query,
    a: Join,
    b: Join,
)
    requires
        join_translated(env, n, current, name, relationship, q, a),
        join_translated(env, n, current, name, relationship, q, b),
    ensures
        join_same(a, b),
    decreases q, 4nat,
{
    let rel = env.relationship_of(relationship@).unwrap();
    let target = TableName::AliasedTable(TableAlias { unique_index: 0, name: rel.target_table });
    let k = rel.column_mapping@.len();
    let (x1, x2) = (a->LeftOuterJoinLateral_0, b->LeftOuterJoinLateral_0);
    let (f1, f2) = (x1.select.from->Some_0, x2.select.from->Some_0);
    let (body1, body2) = (*f1->Select_select, *f2->Select_select);
    let (s1, row1, agg1) = choose|
        set: SelectSet,
        row: (TableAlias, ColumnAlias),
        aggregate: (TableAlias, ColumnAlias),
    |
        #[trigger] is_rowset_body(body1, set, row, aggregate) && rowset_aliases(row, aggregate)
            && conditioned(env, current, target, rel, set) && query_translated(
            env,
            n,
            rel.target_table,
            q,
            unconditioned(set, k),
        );
    let (s2, row2, agg2) = choose|
        set: SelectSet,
        row: (TableAlias, ColumnAlias),
        aggregate: (TableAlias, ColumnAlias),
    |
        #[trigger] is_rowset_body(body2, set, row, aggregate) && rowset_aliases(row, aggregate)
            && conditioned(env, current, target, rel, set) && query_translated(
            env,
            n,
            rel.target_table,
            q,
            unconditioned(set, k),
        );
    lemma_query_same(env, n, rel.target_table, q, unconditioned(s1, k), unconditioned(s2, k));
    lemma_conditioned_same(env, current, target, rel, s1, s2);
    lemma_rowset_body_same(body1, body2, s1, s2, row1, row2, agg1, agg2);
    lemma_select_same(body1, body2);
    lemma_from_select_same(f1, f2);
    lemma_list_equal(x1.select.select_list, x2.select.select_list);
    assert(x1.select.limit == x2.select.limit);
    lemma_select_same(*x1.select, *x2.select);
    lemma_join_same(a, b);
}

/// Translating a request is deterministic: any two execution plans that `translate` may
/// return for the same metadata and request hold queries that render to the same SQL text,
/// with the same parameters.
pub proof fn translation_is_deterministic(
    metadata: &Metadata,
    request: QueryRequest,
    plan1: ExecutionPlan,
    plan2: ExecutionPlan,
)
    requires
        exists|set: SelectSet|
            #[trigger] query_translated(
                &request_env(metadata, request.table_relationships),
                0,
                request.table,
                request.query,
                set,
            ) && universe_of(plan1.query, set),
        exists|set: SelectSet|
            #[trigger] query_translated(
                &request_env(metadata, request.table_relationships),
                0,
                request.table,
                request.query,
                set,
            ) && universe_of(plan2.query, set),
    ensures
        plan1.query.sql_text(0) == plan2.query.sql_text(0),
        plan1.query.sql_params() == plan2.query.sql_params(),
{
    let env = request_env(metadata, request.table_relationships);
    let (p1, p2) = (plan1.query, plan2.query);
    let s1 = choose|set: SelectSet|
        #[trigger] query_translated(&env, 0, request.table, request.query, set) && universe_of(
            p1,
            set,
        );
    let s2 = choose|set: SelectSet|
        #[trigger] query_translated(&env, 0, request.table, request.query, set) && universe_of(
            p2,
            set,
        );
    lemma_query_same(&env, 0, request.table, request.query, s1, s2);
    let (c1, t1) = choose|column: ColumnAlias, table: TableAlias|
        #[trigger] rowset_of(p1, column, table, s1) && column.unique_index == 0
            && column.name@ == "universe"@ && table.unique_index == 0 && table.name@
            == "universe"@;
    let (c2, t2) = choose|column: ColumnAlias, table: TableAlias|
        #[trigger] rowset_of(p2, column, table, s2) && column.unique_index == 0
            && column.name@ == "universe"@ && table.unique_index == 0 && table.name@
            == "universe"@;
    let (f1, f2) = (p1.from->Some_0, p2.from->Some_0);
    let (body1, body2) = (*f1->Select_select, *f2->Select_select);
    let (row1, agg1) = choose|row: (TableAlias, ColumnAlias), aggregate: (TableAlias, ColumnAlias)|
        #[trigger] is_rowset_body(body1, s1, row, aggregate) && rowset_aliases(row, aggregate);
    let (row2, agg2) = choose|row: (TableAlias, ColumnAlias), aggregate: (TableAlias, ColumnAlias)|
        #[trigger] is_rowset_body(body2, s2, row, aggregate) && rowset_aliases(row, aggregate);
    lemma_rowset_body_same(body1, body2, s1, s2, row1, row2, agg1, agg2);
    lemma_select_same(body1, body2);
    lemma_from_select_same(f1, f2);
    let (l1, l2) = (p1.select_list->SelectList_0@, p2.select_list->SelectList_0@);
    lemma_expr_same(l1[0].1, l2[0].1);
    assert(item_same(l1[0], l2[0]));
    lemma_list_same(p1.select_list, p2.select_list);
    assert(p1.limit == p2.limit);
    lemma_select_same(p1, p2);
}

} // verus!
