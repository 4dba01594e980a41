//! Handle 'rows' and 'aggregates' translation.
//!
//! A query becomes a select for its rows and a select for its aggregates. Each select has a
//! list of columns, the joins of the relationship fields (each a nested query), the joins
//! and the `ORDER BY` of the ordering, and the `WHERE` of the predicate.
use vstd::prelude::*;

use super::aggregates::aggregate_columns_ok;
use super::error::{Error, ErrorView, Failure};
use super::filtering::{expr_aliases, expr_failure, expr_joins, expr_translated};
use super::helpers::{Env, RootAndCurrentTables, TableNameAndReference};
use super::relationships::{mapping_error, mapping_expression, peel_ands};
use super::sorting::{order_by_error, order_by_translated, order_elements_joins};
use crate::sql::ast::{
    ColumnAlias, ColumnName, Expression, From, GroupBy, Join, Limit, Select, SelectList,
    TableAlias, TableName, Where,
};
use crate::sql::helpers::{
    is_bare_select, is_empty_limit, is_empty_with, is_rowset_body, row_to_json, true_literal,
    SelectSet,
};
use crate::types::input::{Field, Query};

verus! {

// Counting.

/// The query has fields, so it has a rows part.
pub open spec fn rows_present(q: Query) -> bool {
    q.fields matches Some(fields) && fields@.len() > 0
}

/// The query has aggregates, so it has an aggregates part.
pub open spec fn aggregates_present(q: Query) -> bool {
    q.aggregates matches Some(aggregates) && aggregates@.len() > 0
}

/// The number of fresh aliases that translating the predicate of `q` draws.
pub open spec fn predicate_aliases(q: Query) -> nat {
    match q.predicate {
        Some(p) => expr_aliases(p),
        None => 0,
    }
}

/// The number of joins that translating the predicate of `q` returns.
pub open spec fn predicate_joins(q: Query) -> nat {
    match q.predicate {
        Some(p) => expr_joins(p),
        None => 0,
    }
}

/// The number of joins that the ordering of `q` adds.
pub open spec fn order_by_joins(q: Query) -> nat {
    match q.order_by {
        Some(order_by) => order_elements_joins(order_by.elements@),
        None => 0,
    }
}

/// The number of the next fresh alias after translating `q` from `n`, when it succeeds or
/// leaves out a part without fields: the rows part comes first, then the aggregates part.
pub open spec fn query_next(env: &Env, n: nat, table: String, q: Query) -> nat
    decreases q, 3nat,
{
    aggregates_next(env, rows_next(env, n, table, q), table, q)
}

/// The number of the next fresh alias after translating the rows part of `q` from `n`.
pub open spec fn rows_next(env: &Env, n: nat, table: String, q: Query) -> nat
    decreases q, 2nat,
{
    if env.table_of(table@) is None || !rows_present(q) {
        n
    } else if fields_column_error(env, table, q.fields->Some_0@) is Some {
        n
    } else {
        query_part_next(env, n, table, q, true)
    }
}

/// The number of the next fresh alias after translating the aggregates part of `q` from
/// `n`.
pub open spec fn aggregates_next(env: &Env, n: nat, table: String, q: Query) -> nat
    decreases q, 2nat,
{
    if !aggregates_present(q) {
        n
    } else {
        query_part_next(env, n, table, q, false)
    }
}

/// The number of the next fresh alias after translating the common part of a select of
/// `q` from `n`: the joins of the relationship fields draw first (and a failure among them
/// stops there), then the predicate.
pub open spec fn query_part_next(env: &Env, n: nat, table: String, q: Query, with_joins: bool) -> nat
    decreases q, 1nat,
{
    if env.table_of(table@) is None {
        n
    } else {
        match q.fields {
            Some(fields) => if with_joins {
                if joins_failure(env, n, table, fields@) is Some {
                    joins_next(env, n, table, fields@)
                } else {
                    joins_next(env, n, table, fields@) + predicate_aliases(q)
                }
            } else {
                n + predicate_aliases(q)
            },
            None => n + predicate_aliases(q),
        }
    }
}

/// The number of the next fresh alias after translating the joins of the relationship
/// fields of `fields` from `n`, up to the first failure.
pub open spec fn joins_next(env: &Env, n: nat, current: String, fields: Seq<(String, Field)>) -> nat
    decreases fields, 0nat,
{
    if fields.len() == 0 {
        n
    } else {
        let init = fields.subrange(0, fields.len() - 1);
        let m = joins_next(env, n, current, init);
        if joins_failure(env, n, current, init) is Some {
            m
        } else {
            match fields[fields.len() - 1].1 {
                Field::Column { .. } => m,
                Field::Relationship { query, relationship, .. } => match env.relationship_of(
                    relationship@,
                ) {
                    None => m,
                    Some(rel) => query_next(env, m, rel.target_table, *query),
                },
            }
        }
    }
}

/// The number of relationship fields among `fields`.
pub open spec fn relationship_count(fields: Seq<(String, Field)>) -> nat
    decreases fields.len(),
{
    if fields.len() == 0 {
        0
    } else {
        relationship_count(fields.subrange(0, fields.len() - 1)) + match fields[fields.len()
            - 1].1 {
            Field::Relationship { .. } => 1nat,
            Field::Column { .. } => 0nat,
        }
    }
}

// How a translation fails.

/// The root and current tables of a query over the table `table`, aliased by its name.
pub open spec fn query_tables(table: String) -> RootAndCurrentTables {
    let t = TableNameAndReference {
        name: table,
        reference: TableName::AliasedTable(TableAlias { unique_index: 0, name: table }),
    };
    RootAndCurrentTables { root_table: t, current_table: t }
}

/// The first error of looking up the columns of the column fields of `fields` in the
/// table `table`.
pub open spec fn fields_column_error(env: &Env, table: String, fields: Seq<(String, Field)>) -> Option<
    ErrorView,
>
    decreases fields.len(),
{
    if fields.len() == 0 {
        None
    } else {
        match fields[0].1 {
            Field::Column { column, .. } => if env.column_of(table@, column@) is None {
                Some(ErrorView::ColumnNotFoundInCollection(column@, table@))
            } else {
                fields_column_error(env, table, fields.subrange(1, fields.len() as int))
            },
            Field::Relationship { .. } => fields_column_error(
                env,
                table,
                fields.subrange(1, fields.len() as int),
            ),
        }
    }
}

/// How translating `q` over the table `table` fails, if it does, where `n` is the number
/// of the next fresh alias. A part without fields is left out; a query with neither part
/// fails with `NoFields`.
pub open spec fn query_failure(env: &Env, n: nat, table: String, q: Query) -> Option<Failure>
    decreases q, 3nat,
{
    let rows = rows_failure(env, n, table, q);
    if rows is Some && rows != Some(Failure::Error(ErrorView::NoFields)) {
        rows
    } else {
        let aggregates = aggregates_failure(env, rows_next(env, n, table, q), table, q);
        if aggregates is Some && aggregates != Some(Failure::Error(ErrorView::NoFields)) {
            aggregates
        } else if rows is Some && aggregates is Some {
            Some(Failure::Error(ErrorView::NoFields))
        } else {
            None
        }
    }
}

/// How translating the rows part of `q` fails, if it does.
pub open spec fn rows_failure(env: &Env, n: nat, table: String, q: Query) -> Option<Failure>
    decreases q, 2nat,
{
    if env.table_of(table@) is None {
        Some(Failure::Error(ErrorView::CollectionNotFound(table@)))
    } else if !rows_present(q) {
        Some(Failure::Error(ErrorView::NoFields))
    } else {
        match fields_column_error(env, table, q.fields->Some_0@) {
            Some(e) => Some(Failure::Error(e)),
            None => query_part_failure(env, n, table, q, true),
        }
    }
}

/// How translating the aggregates part of `q` fails, if it does.
pub open spec fn aggregates_failure(env: &Env, n: nat, table: String, q: Query) -> Option<Failure>
    decreases q, 2nat,
{
    if !aggregates_present(q) {
        Some(Failure::Error(ErrorView::NoFields))
    } else {
        query_part_failure(env, n, table, q, false)
    }
}

/// How translating the common part of a select of `q` fails, if it does: the joins of the
/// relationship fields (for the rows part), the ordering, then the predicate.
pub open spec fn query_part_failure(
    env: &Env,
    n: nat,
    table: String,
    q: Query,
    with_joins: bool,
) -> Option<Failure>
    decreases q, 1nat,
{
    if env.table_of(table@) is None {
        Some(Failure::Error(ErrorView::CollectionNotFound(table@)))
    } else {
        let joins = match q.fields {
            Some(fields) => if with_joins {
                joins_failure(env, n, table, fields@)
            } else {
                None
            },
            None => None,
        };
        let m = match q.fields {
            Some(fields) => if with_joins {
                joins_next(env, n, table, fields@)
            } else {
                n
            },
            None => n,
        };
        match joins {
            Some(f) => Some(f),
            None => match order_by_error(env, query_tables(table), q.order_by) {
                Some(e) => Some(Failure::Error(e)),
                None => match q.predicate {
                    None => None,
                    Some(p) => expr_failure(env, table@, table@, m, p),
                },
            },
        }
    }
}

/// How translating the joins of the relationship fields of `fields` fails, if it does.
pub open spec fn joins_failure(env: &Env, n: nat, current: String, fields: Seq<(String, Field)>) -> Option<
    Failure,
>
    decreases fields, 0nat,
{
    if fields.len() == 0 {
        None
    } else {
        let init = fields.subrange(0, fields.len() - 1);
        match joins_failure(env, n, current, init) {
            Some(f) => Some(f),
            None => match fields[fields.len() - 1].1 {
                Field::Column { .. } => None,
                Field::Relationship { query, relationship, .. } => match env.relationship_of(
                    relationship@,
                ) {
                    None => Some(Failure::Error(ErrorView::RelationshipNotFound(relationship@))),
                    Some(rel) => match query_failure(
                        env,
                        joins_next(env, n, current, init),
                        rel.target_table,
                        *query,
                    ) {
                        Some(f) => Some(f),
                        None => match mapping_error(env, current@, rel) {
                            Some(e) => Some(Failure::Error(e)),
                            None => None,
                        },
                    },
                },
            },
        }
    }
}

/// A failure among the first `j` fields is the failure of all of them, and the counter
/// stops there.
pub proof fn lemma_joins_prefix(
    env: &Env,
    n: nat,
    current: String,
    fields: Seq<(String, Field)>,
    j: int,
)
    requires
        0 <= j <= fields.len(),
        joins_failure(env, n, current, fields.subrange(0, j)) is Some,
    ensures
        joins_failure(env, n, current, fields) == joins_failure(
            env,
            n,
            current,
            fields.subrange(0, j),
        ),
        joins_next(env, n, current, fields) == joins_next(env, n, current, fields.subrange(0, j)),
    decreases fields.len(),
{
    if j < fields.len() {
        let init = fields.subrange(0, fields.len() - 1);
        assert(init.subrange(0, j) =~= fields.subrange(0, j));
        lemma_joins_prefix(env, n, current, init, j);
    } else {
        assert(fields.subrange(0, j) =~= fields);
    }
}

// What a successful translation returns.

/// `(alias, expression)` is the select list item of the field `field` named `name`, over
/// the table `table` aliased `alias_of_table`: the column of the table, or the json of the
/// rows of the relationship, selected from its join.
pub open spec fn field_column_ok(
    env: &Env,
    table: String,
    alias_of_table: TableAlias,
    name: String,
    field: Field,
    alias: ColumnAlias,
    expression: Expression,
) -> bool {
    &&& alias == (ColumnAlias { unique_index: 0, name })
    &&& match field {
        Field::Column { column, .. } => expression == Expression::ColumnName(
            ColumnName::TableColumn {
                table: TableName::AliasedTable(alias_of_table),
                name: env.column_of(table@, column@).unwrap().name,
            },
        ),
        Field::Relationship { .. } => expression == Expression::ColumnName(
            ColumnName::AliasedColumn {
                table: TableName::AliasedTable(TableAlias { unique_index: 0, name }),
                name: ColumnAlias { unique_index: 0, name },
            },
        ),
    }
}

/// The select set obtained by taking the relationship conditions out of the `WHERE`
/// clauses of `set`.
pub open spec fn unconditioned(set: SelectSet, k: nat) -> SelectSet {
    match set {
        SelectSet::Rows(rows) => SelectSet::Rows(
            Select { where_: Where(peel_ands(rows.where_.0, k)), ..rows },
        ),
        SelectSet::Aggregates(aggregates) => SelectSet::Aggregates(
            Select { where_: Where(peel_ands(aggregates.where_.0, k)), ..aggregates },
        ),
        SelectSet::RowsAndAggregates(rows, aggregates) => SelectSet::RowsAndAggregates(
            Select { where_: Where(peel_ands(rows.where_.0, k)), ..rows },
            Select { where_: Where(peel_ands(aggregates.where_.0, k)), ..aggregates },
        ),
    }
}

/// Each select of `set` has the relationship conditions from `current` to `target` in its
/// `WHERE` clause.
pub open spec fn conditioned(
    env: &Env,
    current: TableNameAndReference,
    target: TableName,
    rel: crate::types::input::Relationship,
    set: SelectSet,
) -> bool {
    let k = rel.column_mapping@.len();
    match set {
        SelectSet::Rows(rows) => rows.where_.0 == mapping_expression(
            env,
            current,
            target,
            peel_ands(rows.where_.0, k),
            rel,
        ),
        SelectSet::Aggregates(aggregates) => aggregates.where_.0 == mapping_expression(
            env,
            current,
            target,
            peel_ands(aggregates.where_.0, k),
            rel,
        ),
        SelectSet::RowsAndAggregates(rows, aggregates) => rows.where_.0 == mapping_expression(
            env,
            current,
            target,
            peel_ands(rows.where_.0, k),
            rel,
        ) && aggregates.where_.0 == mapping_expression(
            env,
            current,
            target,
            peel_ands(aggregates.where_.0, k),
            rel,
        ),
    }
}

/// The aliases of the rows and aggregates parts of a rowset: `"rows"` and `"aggregates"`.
pub open spec fn rowset_aliases(row: (TableAlias, ColumnAlias), aggregate: (TableAlias, ColumnAlias)) -> bool {
    &&& row.0.unique_index == 0 && row.0.name@ == "rows"@
    &&& row.1.unique_index == 0 && row.1.name@ == "rows"@
    &&& aggregate.0.unique_index == 0 && aggregate.0.name@ == "aggregates"@
    &&& aggregate.1.unique_index == 0 && aggregate.1.name@ == "aggregates"@
}

/// `select` is the rowset of `set`: a single json object with the rows and aggregates of
/// `set`, selected as the column `column` from a subquery aliased `table`.
pub open spec fn rowset_of(select: Select, column: ColumnAlias, table: TableAlias, set: SelectSet) -> bool {
    &&& is_bare_select(select)
    &&& select.select_list matches SelectList::SelectList(list) && list@ == seq![
        (column, row_to_json(table)),
    ]
    &&& select.from matches Some(From::Select { select: body, alias }) && alias == table && exists|
        row: (TableAlias, ColumnAlias),
        aggregate: (TableAlias, ColumnAlias),
    | #[trigger] is_rowset_body(*body, set, row, aggregate) && rowset_aliases(row, aggregate)
}

/// `set` is the translation of `q` over the table `table`: a part that fails for want of
/// fields is left out.
pub open spec fn query_translated(env: &Env, n: nat, table: String, q: Query, set: SelectSet) -> bool
    decreases q, 3nat,
{
    let m = rows_next(env, n, table, q);
    match set {
        SelectSet::Rows(rows) => rows_failure(env, n, table, q) is None && aggregates_failure(
            env,
            m,
            table,
            q,
        ) == Some(Failure::Error(ErrorView::NoFields)) && rows_translated(env, n, table, q, rows),
        SelectSet::Aggregates(aggregates) => rows_failure(env, n, table, q) == Some(
            Failure::Error(ErrorView::NoFields),
        ) && aggregates_present(q) && aggregates_translated(env, m, table, q, aggregates),
        SelectSet::RowsAndAggregates(rows, aggregates) => rows_failure(env, n, table, q) is None
            && aggregates_present(q) && rows_translated(env, n, table, q, rows)
            && aggregates_translated(env, m, table, q, aggregates),
    }
}

/// `select` is the translation of the rows part of `q`:
///
/// ```sql
/// SELECT <table>.<column> AS <field>, <field>.<field> AS <field>, ...
/// FROM <db table> AS <table>
/// <joins of the relationship fields> <joins of the ordering> <joins of the predicate>
/// WHERE <predicate> ORDER BY <ordering> LIMIT <limit> OFFSET <offset>
/// ```
pub open spec fn rows_translated(env: &Env, n: nat, table: String, q: Query, select: Select) -> bool
    decreases q, 2nat,
{
    let fields = q.fields->Some_0@;
    let alias = TableAlias { unique_index: 0, name: table };
    &&& select.limit == (Limit { limit: q.limit, offset: q.offset })
    &&& select.select_list matches SelectList::SelectList(list) && list@.len() == fields.len()
        && forall|i: int|
        0 <= i < fields.len() ==> field_column_ok(
            env,
            table,
            alias,
            fields[i].0,
            fields[i].1,
            #[trigger] list@[i].0,
            list@[i].1,
        )
    &&& query_part_translated(env, n, table, q, true, select)
}

/// `select` is the translation of the aggregates part of `q`.
pub open spec fn aggregates_translated(
    env: &Env,
    n: nat,
    table: String,
    q: Query,
    select: Select,
) -> bool
    decreases q, 2nat,
{
    &&& is_empty_limit(select.limit)
    &&& select.select_list matches SelectList::SelectList(list) && aggregate_columns_ok(
        TableName::AliasedTable(TableAlias { unique_index: 0, name: table }),
        q.aggregates->Some_0@,
        list@,
    )
    &&& query_part_translated(env, n, table, q, false, select)
}

/// `select` has the `FROM`, joins, `WHERE` and `ORDER BY` clauses of a part of `q`.
pub open spec fn query_part_translated(
    env: &Env,
    n: nat,
    table: String,
    q: Query,
    with_joins: bool,
    select: Select,
) -> bool
    decreases q, 1nat,
{
    let tables = query_tables(table);
    let info = env.table_of(table@).unwrap();
    let k = if with_joins {
        relationship_count(q.fields->Some_0@)
    } else {
        0
    };
    let ob = order_by_joins(q);
    let m = match q.fields {
        Some(fields) => if with_joins {
            joins_next(env, n, table, fields@)
        } else {
            n
        },
        None => n,
    };
    &&& is_empty_with(select.with)
    &&& select.from == Some(
        From::Table {
            name: TableName::DBTable { schema: info.schema_name, table: info.table_name },
            alias: TableAlias { unique_index: 0, name: table },
        },
    )
    &&& select.group_by == GroupBy {}
    &&& select.joins@.len() == k + ob + predicate_joins(q)
    &&& match q.fields {
        Some(fields) => with_joins ==> joins_translated(
            env,
            n,
            tables,
            fields@,
            select.joins@.subrange(0, k as int),
        ),
        None => true,
    }
    &&& order_by_translated(
        env,
        tables,
        q.order_by,
        select.order_by,
        select.joins@.subrange(k as int, (k + ob) as int),
    )
    &&& match q.predicate {
        None => select.where_ == Where(true_literal()),
        Some(p) => expr_translated(
            env,
            tables,
            m,
            p,
            select.where_.0,
            select.joins@.subrange((k + ob) as int, select.joins@.len() as int),
        ),
    }
}

/// `joins` are the translations of the relationship fields of `fields`, in order.
pub open spec fn joins_translated(
    env: &Env,
    n: nat,
    tables: RootAndCurrentTables,
    fields: Seq<(String, Field)>,
    joins: Seq<Join>,
) -> bool
    decreases fields, 0nat,
{
    if fields.len() == 0 {
        joins.len() == 0
    } else {
        let last = fields.len() - 1;
        let init = fields.subrange(0, last);
        let k = relationship_count(init);
        match fields[last].1 {
            Field::Column { .. } => joins.len() == k && joins_translated(env, n, tables, init, joins),
            Field::Relationship { query, relationship, .. } => joins.len() == k + 1
                && joins_translated(env, n, tables, init, joins.subrange(0, k as int))
                && join_translated(
                env,
                joins_next(env, n, tables.current_table.name, init),
                tables.current_table,
                fields[last].0,
                relationship,
                *query,
                joins[k as int],
            ),
        }
    }
}

/// `join` is the translation of the relationship field `name`, which follows the
/// relationship `relationship` from the table `current` and queries its target with `q`:
///
/// ```sql
/// LEFT OUTER JOIN LATERAL (
///   SELECT row_to_json(<name>) AS <name>
///   FROM (<the rowset of the query, joined with the current table>) AS <name>
/// ) AS <name> ON ('true')
/// ```
pub open spec fn join_translated(
    env: &Env,
    n: nat,
    current: TableNameAndReference,
    name: String,
    relationship: String,
    q: Query,
    join: Join,
) -> bool
    decreases q, 4nat,
{
    let rel = env.relationship_of(relationship@).unwrap();
    let target = TableName::AliasedTable(TableAlias { unique_index: 0, name: rel.target_table });
    &&& join matches Join::LeftOuterJoinLateral(j)
    &&& j.alias == (TableAlias { unique_index: 0, name })
    &&& is_bare_select(*j.select)
    &&& j.select.select_list matches SelectList::SelectList(list) && list@ == seq![
        (ColumnAlias { unique_index: 0, name }, row_to_json(TableAlias { unique_index: 0, name })),
    ]
    &&& j.select.from matches Some(From::Select { select: body, alias }) && alias == (TableAlias {
        unique_index: 0,
        name,
    }) && exists|
        set: SelectSet,
        row: (TableAlias, ColumnAlias),
        aggregate: (TableAlias, ColumnAlias),
    |
        #[trigger] is_rowset_body(*body, set, row, aggregate) && rowset_aliases(row, aggregate)
            && conditioned(env, current, target, rel, set) && query_translated(
            env,
            n,
            rel.target_table,
            q,
            unconditioned(set, rel.column_mapping@.len()),
        )
}

// Translation.

/// Translate aggregates query to sql ast.
pub fn translate_aggregate_query(
    env: &Env,
    next_free_name: &mut u32,
    current_table_name: &String,
    query: &Query,
) -> (res: Result<Select, Error>)
    requires
        env.mappings_sorted(),
        aggregates_failure(env, *old(next_free_name) as nat, *current_table_name, *query)
            != Some(Failure::Panic),
    ensures
        match res {
            Ok(select) => aggregates_failure(
                env,
                *old(next_free_name) as nat,
                *current_table_name,
                *query,
            ) is None && aggregates_translated(
                env,
                *old(next_free_name) as nat,
                *current_table_name,
                *query,
                select,
            ) && *final(next_free_name) == aggregates_next(
                env,
                *old(next_free_name) as nat,
                *current_table_name,
                *query,
            ),
            Err(e) => aggregates_failure(
                env,
                *old(next_free_name) as nat,
                *current_table_name,
                *query,
            ) == Some(Failure::Error(e@)) && (e is NoFields ==> *final(next_free_name)
                == aggregates_next(env, *old(next_free_name) as nat, *current_table_name, *query)),
        },
    decreases query, 2nat,
{
    let current_table_alias = crate::sql::helpers::make_table_alias(current_table_name.clone());
    let current_table = TableNameAndReference {
        name: current_table_name.clone(),
        reference: TableName::AliasedTable(current_table_alias.clone()),
    };
    // translate aggregates to select list
    let aggregate_fields = match &query.aggregates {
        Some(aggregates) => aggregates,
        None => return Err(Error::NoFields),
    };
    // fail if no aggregates defined at all
    if aggregate_fields.len() == 0 {
        return Err(Error::NoFields);
    }
    // create all aggregate columns
    let aggregate_columns = match super::aggregates::translate(
        TableName::AliasedTable(current_table.reference_alias(&current_table_alias)),
        aggregate_fields,
    ) {
        Ok(columns) => columns,
        Err(e) => return Err(e),
    };
    // create the select clause and the joins, order by, where clauses.
    // We don't add the limit afterwards.
    translate_query_part(
        env,
        next_free_name,
        &current_table,
        &current_table_alias,
        query,
        aggregate_columns,
        None,
    )
}

impl TableNameAndReference {
    /// A copy of the alias that the table is referred to by.
    fn reference_alias(&self, alias: &TableAlias) -> (res: TableAlias)
        requires
            self.reference == TableName::AliasedTable(*alias),
        ensures
            res == *alias,
    {
        alias.clone()
    }
}

/// Translate rows part of query to sql ast.
pub fn translate_rows_query(
    env: &Env,
    next_free_name: &mut u32,
    current_table_name: &String,
    query: &Query,
) -> (res: Result<Select, Error>)
    requires
        env.mappings_sorted(),
        rows_failure(env, *old(next_free_name) as nat, *current_table_name, *query) != Some(
            Failure::Panic,
        ),
    ensures
        match res {
            Ok(select) => rows_failure(
                env,
                *old(next_free_name) as nat,
                *current_table_name,
                *query,
            ) is None && rows_translated(
                env,
                *old(next_free_name) as nat,
                *current_table_name,
                *query,
                select,
            ) && *final(next_free_name) == rows_next(
                env,
                *old(next_free_name) as nat,
                *current_table_name,
                *query,
            ),
            Err(e) => rows_failure(
                env,
                *old(next_free_name) as nat,
                *current_table_name,
                *query,
            ) == Some(Failure::Error(e@)) && (e is NoFields ==> *final(next_free_name)
                == rows_next(env, *old(next_free_name) as nat, *current_table_name, *query)),
        },
    decreases query, 2nat,
{
    // find the table according to the metadata.
    let table_info = match crate::metadata::find_entry(&env.metadata.tables.0, current_table_name) {
        Some(info) => info,
        None => return Err(Error::CollectionNotFound(current_table_name.clone())),
    };
    let current_table_alias = crate::sql::helpers::make_table_alias(current_table_name.clone());
    let current_table = TableNameAndReference {
        name: current_table_name.clone(),
        reference: TableName::AliasedTable(current_table_alias.clone()),
    };
    // translate fields to select list
    let fields = match &query.fields {
        Some(fields) => fields,
        None => return Err(Error::NoFields),
    };
    // fail if no columns defined at all
    if fields.len() == 0 {
        return Err(Error::NoFields);
    }
    let ghost fs = fields@;
    let ghost table = *current_table_name;
    // translate fields to columns or relationships.
    let mut columns: Vec<(ColumnAlias, Expression)> = Vec::new();
    let mut index: usize = 0;
    assert(fs.skip(0) =~= fs);
    while index < fields.len()
        invariant
            fs == fields@,
            query.fields == Some(*fields),
            fs.len() > 0,
            table == *current_table_name,
            env.table_of(table@) == Some(*table_info),
            0 <= index <= fs.len(),
            columns@.len() == index,
            fields_column_error(env, table, fs) == fields_column_error(
                env,
                table,
                fs.skip(index as int),
            ),
            forall|i: int|
                0 <= i < index ==> field_column_ok(
                    env,
                    table,
                    current_table_alias,
                    fs[i].0,
                    fs[i].1,
                    #[trigger] columns@[i].0,
                    columns@[i].1,
                ),
        decreases fs.len() - index,
    {
        let ghost rest = fs.skip(index as int);
        assert(rest.subrange(1, rest.len() as int) =~= fs.skip(index + 1));
        assert(rest[0] == fs[index as int]);
        let (alias, field) = &fields[index];
        let column = match field {
            Field::Column { column, .. } => {
                let column_info = match crate::metadata::find_entry(&table_info.columns, column) {
                    Some(info) => info,
                    None => {
                        return Err(
                            Error::ColumnNotFoundInCollection(
                                column.clone(),
                                current_table_name.clone(),
                            ),
                        );
                    },
                };
                crate::sql::helpers::make_column(
                    TableName::AliasedTable(current_table_alias.clone()),
                    column_info.name.clone(),
                    crate::sql::helpers::make_column_alias(alias.clone()),
                )
            },
            Field::Relationship { .. } => {
                let table_alias = crate::sql::helpers::make_table_alias(alias.clone());
                let column_alias = crate::sql::helpers::make_column_alias(alias.clone());
                let column_name = ColumnName::AliasedColumn {
                    table: TableName::AliasedTable(table_alias),
                    name: column_alias.clone(),
                };
                (column_alias, Expression::ColumnName(column_name))
            },
        };
        let ghost before = columns@;
        columns.push(column);
        assert(forall|i: int| 0 <= i < index ==> columns@[i] == before[i]);
        index = index + 1;
    }
    assert(fs.skip(index as int) =~= Seq::<(String, Field)>::empty());
    let ghost list = columns@;
    // create the select clause and the joins, order by, where clauses.
    // We'll add the limit afterwards.
    let mut select = match translate_query_part(
        env,
        next_free_name,
        &current_table,
        &current_table_alias,
        query,
        columns,
        Some(fields),
    ) {
        Ok(select) => select,
        Err(e) => return Err(e),
    };
    // Add the limit.
    select.limit = Limit { limit: query.limit, offset: query.offset };
    assert(select.select_list == SelectList::SelectList(columns));
    Ok(select)
}

/// Translate the common part of 'rows' or 'aggregates' part of a query.
/// Specifically, from, joins, order bys, and where clauses.
///
/// This expects to get the relevant information about tables, relationships, the root table,
/// and the query, as well as the columns and join fields after processing.
///
/// One thing that this doesn't do that you want to do for 'rows' and not 'aggregates' is
/// set the limit and offset so you want to do that after calling this function.
fn translate_query_part(
    env: &Env,
    next_free_name: &mut u32,
    current_table: &TableNameAndReference,
    current_table_alias: &TableAlias,
    query: &Query,
    columns: Vec<(ColumnAlias, Expression)>,
    join_fields: Option<&Vec<(String, Field)>>,
) -> (res: Result<Select, Error>)
    requires
        env.mappings_sorted(),
        *current_table == query_tables(current_table.name).current_table,
        *current_table_alias == (TableAlias { unique_index: 0, name: current_table.name }),
        join_fields matches Some(fields) ==> query.fields == Some(*fields),
        query_part_failure(
            env,
            *old(next_free_name) as nat,
            current_table.name,
            *query,
            join_fields is Some,
        ) != Some(Failure::Panic),
    ensures
        match res {
            Ok(select) => query_part_failure(
                env,
                *old(next_free_name) as nat,
                current_table.name,
                *query,
                join_fields is Some,
            ) is None && query_part_translated(
                env,
                *old(next_free_name) as nat,
                current_table.name,
                *query,
                join_fields is Some,
                select,
            ) && select.select_list == SelectList::SelectList(columns) && is_empty_limit(
                select.limit,
            ) && *final(next_free_name) == query_part_next(
                env,
                *old(next_free_name) as nat,
                current_table.name,
                *query,
                join_fields is Some,
            ),
            Err(e) => query_part_failure(
                env,
                *old(next_free_name) as nat,
                current_table.name,
                *query,
                join_fields is Some,
            ) == Some(Failure::Error(e@)) && (e is NoFields ==> *final(next_free_name)
                == query_part_next(
                env,
                *old(next_free_name) as nat,
                current_table.name,
                *query,
                join_fields is Some,
            )),
        },
    decreases query, 1nat,
{
    let ghost n0 = *next_free_name as nat;
    let ghost table = current_table.name;
    // find the table according to the metadata.
    let table_info = match crate::metadata::find_entry(&env.metadata.tables.0, &current_table.name) {
        Some(info) => info,
        None => return Err(Error::CollectionNotFound(current_table.name.clone())),
    };
    let db_table = TableName::DBTable {
        schema: table_info.schema_name.clone(),
        table: table_info.table_name.clone(),
    };
    // the root table and the current table are the same at this point
    let root_and_current_tables = RootAndCurrentTables {
        root_table: current_table.clone(),
        current_table: current_table.clone(),
    };
    assert(root_and_current_tables == query_tables(table));
    // construct a simple select with the table name, alias, and selected columns.
    let mut select = crate::sql::helpers::simple_select(columns);
    select.from = Some(From::Table { name: db_table, alias: current_table_alias.clone() });
    // collect any joins for relationships
    let mut relationship_joins = match join_fields {
        Some(fields) => {
            proof {
                assert(decreases_to!(*query => query.fields));
            }
            match super::relationships::translate_joins(
                env,
                next_free_name,
                &root_and_current_tables,
                fields,
            ) {
                Ok(joins) => joins,
                Err(e) => return Err(e),
            }
        },
        None => Vec::new(),
    };
    let ghost k = relationship_joins@.len();
    let ghost m = *next_free_name as nat;
    // translate order_by
    let (order_by, mut ordering_joins) = match super::sorting::translate_order_by(
        env,
        &root_and_current_tables,
        &query.order_by,
    ) {
        Ok(r) => r,
        Err(e) => return Err(e),
    };
    let ghost relationship_part = relationship_joins@;
    let ghost order_by_part = ordering_joins@;
    relationship_joins.append(&mut ordering_joins);
    // translate where
    let (filter, mut filter_joins) = match &query.predicate {
        None => (crate::sql::helpers::true_expr(), Vec::new()),
        Some(predicate) => {
            match super::filtering::translate_expression(
                env,
                next_free_name,
                &root_and_current_tables,
                predicate,
            ) {
                Ok(r) => r,
                Err(e) => return Err(e),
            }
        },
    };
    let ghost filter_part = filter_joins@;
    relationship_joins.append(&mut filter_joins);
    proof {
        let all = relationship_joins@;
        let ob = order_by_part.len();
        assert(all.subrange(0, k as int) =~= relationship_part);
        assert(all.subrange(k as int, (k + ob) as int) =~= order_by_part);
        assert(all.subrange((k + ob) as int, all.len() as int) =~= filter_part);
    }
    select.joins = relationship_joins;
    select.order_by = order_by;
    select.where_ = Where(filter);
    Ok(select)
}

} // verus!
