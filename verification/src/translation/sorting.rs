//! Handle the translation of `ORDER BY` clauses.
//!
//! Ordering by a column of a related table selects that column in a `LEFT OUTER JOIN
//! LATERAL` that walks the relationships of the path; ordering by a count of related rows
//! counts them in such a join.
use vstd::prelude::*;

use super::error::{Error, ErrorView};
use super::filtering::join_alias;
use super::helpers::{Env, RootAndCurrentTables, TableNameAndReference};
use super::relationships::{mapping_error, mapping_expression};
use crate::sql::ast::{
    ColumnAlias, ColumnName, CountType, Expression, From, Function, GroupBy, Join,
    LeftOuterJoinLateral, OrderBy, OrderByDirection, OrderByElement, Select, SelectList,
    TableAlias, TableName, Where,
};
use crate::sql::helpers::{
    alias_named, indexed_name, is_bare_select, is_call, is_empty_limit, is_empty_order_by,
    is_empty_with, true_literal,
};
use crate::types::input;

verus! {

// How a translation fails.

/// How the step over one relationship of an order by path fails, if it does: ordering by
/// the values of an array relationship needs an aggregate function.
pub open spec fn order_step_error(env: &Env, element: input::PathElement, has_function: bool) -> Option<
    ErrorView,
> {
    match env.relationship_of(element.relationship@) {
        None => Some(ErrorView::RelationshipNotFound(element.relationship@)),
        Some(rel) => if rel.relationship_type == input::RelationshipType::Array && !has_function {
            Some(ErrorView::NotSupported("Cannot order by values in an array relationship"@))
        } else {
            match env.table_error(rel.target_table@) {
                Some(e) => Some(e),
                None => mapping_error(env, rel.source_table_or_type@, rel),
            }
        },
    }
}

/// How translating an order by path fails, if it does. The relationships are taken from
/// the last to the first.
pub open spec fn order_column_error(
    env: &Env,
    path: Seq<input::PathElement>,
    has_function: bool,
) -> Option<ErrorView>
    decreases path.len(),
{
    if path.len() == 0 {
        None
    } else {
        match order_step_error(env, path[path.len() - 1], has_function) {
            Some(e) => Some(e),
            None => order_column_error(env, path.subrange(0, path.len() - 1), has_function),
        }
    }
}

/// How translating an order by a count of related rows fails, if it does: only one
/// relationship is supported.
pub open spec fn star_count_error(env: &Env, source: Seq<char>, path: Seq<input::PathElement>) -> Option<
    ErrorView,
> {
    if path.len() > 1 {
        Some(ErrorView::NotSupported("star count for nested relationships"@))
    } else if path.len() == 0 {
        Some(ErrorView::NotSupported("order by star count aggregates"@))
    } else {
        match env.relationship_of(path[0].relationship@) {
            None => Some(ErrorView::RelationshipNotFound(path[0].relationship@)),
            Some(rel) => mapping_error(env, source, rel),
        }
    }
}

/// How translating one order by element fails, if it does.
pub open spec fn order_element_error(
    env: &Env,
    tables: RootAndCurrentTables,
    element: input::OrderByElement,
) -> Option<ErrorView> {
    match element.target {
        input::OrderByTarget::Column { path, .. } => order_column_error(env, path@, false),
        input::OrderByTarget::SingleColumnAggregate { path, .. } => order_column_error(
            env,
            path@,
            true,
        ),
        input::OrderByTarget::StarCountAggregate { path } => star_count_error(
            env,
            tables.current_table.name@,
            path@,
        ),
    }
}

/// The first error among the translations of the order by elements, in order.
pub open spec fn order_elements_error(
    env: &Env,
    tables: RootAndCurrentTables,
    elements: Seq<input::OrderByElement>,
) -> Option<ErrorView>
    decreases elements.len(),
{
    if elements.len() == 0 {
        None
    } else {
        match order_element_error(env, tables, elements[0]) {
            Some(e) => Some(e),
            None => order_elements_error(env, tables, elements.subrange(1, elements.len() as int)),
        }
    }
}

/// How translating an order by clause fails, if it does.
pub open spec fn order_by_error(
    env: &Env,
    tables: RootAndCurrentTables,
    order_by: Option<input::OrderBy>,
) -> Option<ErrorView> {
    match order_by {
        None => None,
        Some(order_by) => order_elements_error(env, tables, order_by.elements@),
    }
}

// What a successful translation returns.

/// The column aliases of the source columns of a column mapping.
pub open spec fn key_aliases(pairs: Seq<(String, String)>) -> Seq<ColumnAlias> {
    pairs.map_values(|pair: (String, String)| ColumnAlias { unique_index: 0, name: pair.0 })
}

/// The columns that the `i`-th table of a path must provide: the selected column for the
/// last table, else the columns that the next relationship joins on.
pub open spec fn required_columns(
    env: &Env,
    path: Seq<input::PathElement>,
    i: int,
    selected: ColumnAlias,
) -> Seq<ColumnAlias> {
    if i == path.len() - 1 {
        seq![selected]
    } else {
        key_aliases(env.relationship_of(path[i + 1].relationship@).unwrap().column_mapping@)
    }
}

/// `<table>.<column> AS <column>` for each of `columns`.
pub open spec fn aliased_columns(table: TableAlias, columns: Seq<ColumnAlias>) -> Seq<
    (ColumnAlias, Expression),
> {
    columns.map_values(
        |column: ColumnAlias|
            (
                column,
                Expression::ColumnName(
                    ColumnName::AliasedColumn { table: TableName::AliasedTable(table), name: column },
                ),
            ),
    )
}

/// The name of the alias of the source table of the `i`-th relationship of an order by
/// path: `ORDER_PART_<i - 1>_<source>`, or the name of the source table for the first
/// relationship.
pub open spec fn order_source_name(rel: input::Relationship, i: int) -> Seq<char> {
    if i > 0 {
        indexed_name("ORDER_PART_"@, (i - 1) as nat, rel.source_table_or_type@)
    } else {
        rel.source_table_or_type@
    }
}

/// The select over the target table of the `i`-th relationship of an order by path:
///
/// ```sql
/// SELECT <alias>.<required column> AS <required column>, ...
/// FROM <target table> AS <alias>
/// WHERE true AND <source alias>.<column> = <alias>.<column> ...
/// ```
///
/// where the alias is `ORDER_PART_<i>_<target>`, and the source alias is
/// `ORDER_PART_<i - 1>_<source>`, or the name of the source table for the first
/// relationship.
pub open spec fn order_part_ok(
    env: &Env,
    path: Seq<input::PathElement>,
    i: int,
    required: Seq<ColumnAlias>,
    alias: TableAlias,
    select: Select,
) -> bool {
    let rel = env.relationship_of(path[i].relationship@).unwrap();
    let info = env.table_of(rel.target_table@).unwrap();
    let source_name = order_source_name(rel, i);
    &&& alias_named(alias, indexed_name("ORDER_PART_"@, i as nat, rel.target_table@))
    &&& is_empty_with(select.with)
    &&& select.joins@.len() == 0
    &&& select.group_by == GroupBy {}
    &&& is_empty_order_by(select.order_by)
    &&& is_empty_limit(select.limit)
    &&& select.select_list matches SelectList::SelectList(list) && list@ == aliased_columns(
        alias,
        required,
    )
    &&& select.from == Some(
        From::Table {
            name: TableName::DBTable { schema: info.schema_name, table: info.table_name },
            alias,
        },
    )
    &&& exists|source: TableAlias|
        #[trigger] alias_named(source, source_name) && select.where_.0 == mapping_expression(
            env,
            TableNameAndReference {
                name: rel.source_table_or_type,
                reference: TableName::AliasedTable(source),
            },
            TableName::AliasedTable(alias),
            true_literal(),
            rel,
        )
}

/// `(alias, select)` is the translation of ordering by the column `column_name` of the
/// table at the end of `path`: no select for an empty path, else
///
/// ```sql
/// SELECT [<function>(]<last alias>.<column>[)] AS <column>
/// FROM (<select of the first relationship>) AS <its alias>
/// LEFT OUTER JOIN LATERAL (<select of the second relationship>) AS <its alias> ON ('true')
/// ...
/// ```
pub open spec fn order_column_translated(
    env: &Env,
    column_name: String,
    path: Seq<input::PathElement>,
    function: Option<String>,
    alias: ColumnAlias,
    select: Option<Select>,
) -> bool {
    let selected = ColumnAlias { unique_index: 0, name: column_name };
    &&& alias == selected
    &&& if path.len() == 0 {
        select is None
    } else {
        &&& select matches Some(s)
        &&& s.from matches Some(From::Select { select: first, alias: first_alias })
        &&& is_empty_with(s.with)
        &&& s.where_ == Where(true_literal())
        &&& s.group_by == GroupBy {}
        &&& is_empty_order_by(s.order_by)
        &&& is_empty_limit(s.limit)
        &&& s.joins@.len() == path.len() - 1
        &&& order_part_ok(env, path, 0, required_columns(env, path, 0, selected), first_alias, *first)
        &&& forall|k: int|
            0 <= k < s.joins@.len() ==> (#[trigger] s.joins@[k] matches Join::LeftOuterJoinLateral(j)
                && order_part_ok(
                env,
                path,
                k + 1,
                required_columns(env, path, k + 1, selected),
                j.alias,
                *j.select,
            ))
        &&& s.select_list matches SelectList::SelectList(list) && list@.len() == 1 && list@[0].0
            == selected && {
            let last_alias = if path.len() == 1 {
                first_alias
            } else {
                join_alias(s.joins@[path.len() - 2])
            };
            let column = Expression::ColumnName(
                ColumnName::AliasedColumn { table: TableName::AliasedTable(last_alias), name: selected },
            );
            match function {
                None => list@[0].1 == column,
                Some(f) => is_call(list@[0].1, Function::Unknown(f), seq![column]),
            }
        }
    }
}

/// `(alias, select)` counts the rows of the target table of the one relationship of `path`
/// that are related to the rows of `source`:
///
/// ```sql
/// SELECT COUNT(*) AS "count" FROM <target alias> AS <target alias>
/// WHERE true AND <source>.<column> = <target alias>.<column> ...
/// ```
pub open spec fn star_count_translated(
    env: &Env,
    source: TableNameAndReference,
    path: Seq<input::PathElement>,
    alias: ColumnAlias,
    select: Select,
) -> bool {
    let rel = env.relationship_of(path[0].relationship@).unwrap();
    let target = TableAlias { unique_index: 0, name: rel.target_table };
    &&& alias.unique_index == 0
    &&& alias.name@ == "count"@
    &&& is_empty_with(select.with)
    &&& select.joins@.len() == 0
    &&& select.group_by == GroupBy {}
    &&& is_empty_order_by(select.order_by)
    &&& is_empty_limit(select.limit)
    &&& select.select_list matches SelectList::SelectList(list) && list@ == seq![
        (alias, Expression::Count(CountType::Star)),
    ]
    &&& select.from == Some(From::Table { name: TableName::AliasedTable(target), alias: target })
    &&& select.where_.0 == mapping_expression(
        env,
        source,
        TableName::AliasedTable(target),
        true_literal(),
        rel,
    )
}

/// The column alias of an expression that names an aliased column.
pub open spec fn aliased_column_name(e: Expression) -> ColumnAlias {
    match e {
        Expression::ColumnName(ColumnName::AliasedColumn { name, .. }) => name,
        _ => ColumnAlias { unique_index: 0, name: arbitrary() },
    }
}

/// The SQL direction of an order direction.
pub open spec fn direction_of(direction: input::OrderDirection) -> OrderByDirection {
    match direction {
        input::OrderDirection::Asc => OrderByDirection::Asc,
        input::OrderDirection::Desc => OrderByDirection::Desc,
    }
}

/// The number of joins that ordering by `target` adds.
pub open spec fn order_target_joins(target: input::OrderByTarget) -> nat {
    match target {
        input::OrderByTarget::Column { path, .. } => if path@.len() == 0 {
            0
        } else {
            1
        },
        input::OrderByTarget::SingleColumnAggregate { path, .. } => if path@.len() == 0 {
            0
        } else {
            1
        },
        input::OrderByTarget::StarCountAggregate { .. } => 1,
    }
}

/// The number of joins that ordering by each of `elements` adds.
pub open spec fn order_elements_joins(elements: Seq<input::OrderByElement>) -> nat
    decreases elements.len(),
{
    if elements.len() == 0 {
        0
    } else {
        order_elements_joins(elements.subrange(0, elements.len() - 1)) + order_target_joins(
            elements[elements.len() - 1].target,
        )
    }
}

/// `(out, joins)` is the translation of ordering by the column `column` at the end of
/// `path`, the `index`-th order by element of the current table.
pub open spec fn order_target_translated(
    env: &Env,
    tables: RootAndCurrentTables,
    index: int,
    column: String,
    path: Seq<input::PathElement>,
    function: Option<String>,
    out: Expression,
    joins: Seq<Join>,
) -> bool {
    let selected = ColumnAlias { unique_index: 0, name: column };
    if path.len() == 0 {
        joins.len() == 0 && out == Expression::ColumnName(
            ColumnName::AliasedColumn { table: tables.current_table.reference, name: selected },
        )
    } else {
        &&& joins.len() == 1
        &&& joins[0] matches Join::LeftOuterJoinLateral(j) && alias_named(
            j.alias,
            indexed_name("ORDER_FOR_"@, index as nat, tables.current_table.name@),
        ) && order_column_translated(env, column, path, function, selected, Some(*j.select))
            && out == Expression::ColumnName(
            ColumnName::AliasedColumn { table: TableName::AliasedTable(j.alias), name: selected },
        )
    }
}

/// `(out, joins)` is the translation of the `index`-th order by element.
pub open spec fn order_element_translated(
    env: &Env,
    tables: RootAndCurrentTables,
    index: int,
    element: input::OrderByElement,
    out: OrderByElement,
    joins: Seq<Join>,
) -> bool {
    &&& out.direction == direction_of(element.order_direction)
    &&& match element.target {
        input::OrderByTarget::Column { name, path } => order_target_translated(
            env,
            tables,
            index,
            name,
            path@,
            None,
            out.target,
            joins,
        ),
        input::OrderByTarget::SingleColumnAggregate { column, function, path } => order_target_translated(
            env,
            tables,
            index,
            column,
            path@,
            Some(function),
            out.target,
            joins,
        ),
        input::OrderByTarget::StarCountAggregate { path } => {
            &&& joins.len() == 1
            &&& joins[0] matches Join::LeftOuterJoinLateral(j) && alias_named(
                j.alias,
                indexed_name("ORDER_COUNT_FOR_"@, index as nat, tables.current_table.name@),
            ) && out.target == Expression::ColumnName(
                ColumnName::AliasedColumn {
                    table: TableName::AliasedTable(j.alias),
                    name: aliased_column_name(out.target),
                },
            ) && star_count_translated(
                env,
                tables.current_table,
                path@,
                aliased_column_name(out.target),
                *j.select,
            )
        },
    }
}

/// `(outs, joins)` are the translations of the order by elements, in order.
pub open spec fn order_elements_translated(
    env: &Env,
    tables: RootAndCurrentTables,
    elements: Seq<input::OrderByElement>,
    outs: Seq<OrderByElement>,
    joins: Seq<Join>,
) -> bool
    decreases elements.len(),
{
    if elements.len() == 0 {
        outs.len() == 0 && joins.len() == 0
    } else {
        let last = elements.len() - 1;
        let init = elements.subrange(0, last);
        let k = order_elements_joins(init);
        &&& outs.len() == elements.len()
        &&& joins.len() == order_elements_joins(elements)
        &&& k <= joins.len()
        &&& order_elements_translated(
            env,
            tables,
            init,
            outs.subrange(0, last),
            joins.subrange(0, k as int),
        )
        &&& order_element_translated(
            env,
            tables,
            last,
            elements[last],
            outs[last],
            joins.subrange(k as int, joins.len() as int),
        )
    }
}

/// `(out, joins)` is the translation of an order by clause.
pub open spec fn order_by_translated(
    env: &Env,
    tables: RootAndCurrentTables,
    order_by: Option<input::OrderBy>,
    out: OrderBy,
    joins: Seq<Join>,
) -> bool {
    match order_by {
        None => out.elements@.len() == 0 && joins.len() == 0,
        Some(order_by) => order_elements_translated(
            env,
            tables,
            order_by.elements@,
            out.elements@,
            joins,
        ),
    }
}

// Translation.

/// `<table>.<column> AS <column>` for each of `columns`.
fn select_aliased_columns(table: &TableName, columns: &Vec<ColumnAlias>) -> (list: Vec<
    (ColumnAlias, Expression),
>)
    requires
        table matches TableName::AliasedTable(_),
    ensures
        list@ == aliased_columns(table->AliasedTable_0, columns@),
{
    let mut list: Vec<(ColumnAlias, Expression)> = Vec::new();
    let mut index: usize = 0;
    while index < columns.len()
        invariant
            0 <= index <= columns@.len(),
            table matches TableName::AliasedTable(_),
            list@ == aliased_columns(table->AliasedTable_0, columns@.subrange(0, index as int)),
        decreases columns@.len() - index,
    {
        let column = &columns[index];
        list.push(
            (
                column.clone(),
                Expression::ColumnName(
                    ColumnName::AliasedColumn { table: table.clone(), name: column.clone() },
                ),
            ),
        );
        assert(columns@.subrange(0, index + 1) =~= columns@.subrange(0, index as int).push(
            columns@[index as int],
        ));
        index = index + 1;
    }
    assert(columns@.subrange(0, index as int) =~= columns@);
    list
}

/// The column aliases of the source columns of a column mapping.
fn source_column_aliases(pairs: &Vec<(String, String)>) -> (aliases: Vec<ColumnAlias>)
    ensures
        aliases@ == key_aliases(pairs@),
{
    let mut aliases: Vec<ColumnAlias> = Vec::new();
    let mut index: usize = 0;
    while index < pairs.len()
        invariant
            0 <= index <= pairs@.len(),
            aliases@ == key_aliases(pairs@.subrange(0, index as int)),
        decreases pairs@.len() - index,
    {
        aliases.push(crate::sql::helpers::make_column_alias(pairs[index].0.clone()));
        assert(pairs@.subrange(0, index + 1) =~= pairs@.subrange(0, index as int).push(
            pairs@[index as int],
        ));
        index = index + 1;
    }
    assert(pairs@.subrange(0, index as int) =~= pairs@);
    aliases
}

/// Generate a SELECT query representing querying the requested column from a table
/// (potentially a nested one using joins). Return that select query and the requested column alias.
/// If the column is the root table's column, a `None` will be returned.
fn translate_order_by_target_for_column(
    env: &Env,
    column_name: String,
    path: &Vec<input::PathElement>,
    function: Option<String>,
) -> (res: Result<(ColumnAlias, Option<Select>), Error>)
    requires
        env.mappings_sorted(),
    ensures
        match res {
            Ok((alias, select)) => order_column_error(env, path@, function is Some) is None
                && order_column_translated(env, column_name, path@, function, alias, select),
            Err(e) => order_column_error(env, path@, function is Some) == Some(e@)
                && !(e is NoFields)
                && !(e is NoFields),
        },
{
    // We want to build a select query where "Track" is the root table, and "Artist"."Name"
    // is the column we need for the order by. Our query will look like this:
    //
    // > ( SELECT "Artist"."Name" AS "Name" -- wanted column, might be wrapped with <function> if one is supplied
    // >   FROM
    // >     ( SELECT "Album"."ArtistId" ---- required for the next join condition
    // >       FROM "Album" AS "Album"
    // >       WHERE "Track"."AlbumId" = "Album"."AlbumId" --- requires 'AlbumId' from 'Track'
    // >     ) AS "Album"
    // >   LEFT OUTER JOIN LATERAL
    // >     ( SELECT "Artist"."Name" AS "Name" ---- the wanted column for the order by
    // >       FROM "Artist" AS "Artist" ---- the last relationship table
    // >       WHERE ("Album"."ArtistId" = "Artist"."ArtistId") ---- requires 'ArtistId' from 'Album'
    // >     ) AS "Artist" ON ('true')
    // > )
    //
    // Note that "Track" will be supplied by the caller of this function.
    let ghost p = path@;
    let ghost has_function = function is Some;
    let has_function_exec = function.is_some();
    // This will be the column we reference in the order by.
    let selected_column_alias = crate::sql::helpers::make_column_alias(column_name);
    let ghost selected = selected_column_alias;
    // The joins we build, one for each relationship, from the last to the first.
    let mut parts: Vec<LeftOuterJoinLateral> = Vec::new();
    let mut required_cols: Vec<ColumnAlias> = vec![selected_column_alias.clone()];
    let mut last_table: Option<TableAlias> = None;
    // Loop through relationships in reverse order,
    // building up new joins and replacing the selected column for the order by.
    // for each step in the loop we get the required columns (used as keys in the join),
    // from the next join, we need to select these.
    //
    // We give each table alias a unique name using an index to guard
    // against the case of recursive relationships in path.
    // For example a Reply referencing a preceding reply.
    let mut i: usize = path.len();
    assert(p.subrange(0, p.len() as int) =~= p);
    while i > 0
        invariant
            env.mappings_sorted(),
            p == path@,
            0 <= i <= p.len(),
            has_function == has_function_exec,
            has_function == (function is Some),
            selected == (ColumnAlias { unique_index: 0, name: column_name }),
            parts@.len() == p.len() - i,
            order_column_error(env, p, has_function) == order_column_error(
                env,
                p.subrange(0, i as int),
                has_function,
            ),
            i == p.len() ==> required_cols@ == seq![selected],
            i < p.len() ==> required_cols@ == key_aliases(
                env.relationship_of(p[i as int].relationship@).unwrap().column_mapping@,
            ),
            i == p.len() ==> last_table is None,
            i < p.len() ==> last_table == Some(parts@[0].alias),
            forall|q: int|
                0 <= q < parts@.len() ==> order_part_ok(
                    env,
                    p,
                    p.len() - 1 - q,
                    required_columns(env, p, p.len() - 1 - q, selected),
                    (#[trigger] parts@[q]).alias,
                    *parts@[q].select,
                ),
        decreases i,
    {
        let index = i - 1;
        let ghost prefix = p.subrange(0, i as int);
        assert(prefix.subrange(0, index as int) =~= p.subrange(0, index as int));
        assert(prefix[index as int] == p[index as int]);
        let path_element = &path[index];
        // examine the path elements' relationship.
        let relationship = match env.lookup_relationship(&path_element.relationship) {
            Ok(r) => r,
            Err(e) => return Err(e),
        };
        match relationship.relationship_type {
            input::RelationshipType::Array => {
                if !has_function_exec {
                    proof { reveal_strlit("Cannot order by values in an array relationship"); }
                    return Err(
                        Error::NotSupported(
                            String::from_str("Cannot order by values in an array relationship"),
                        ),
                    );
                }
            },
            input::RelationshipType::Object => {},
        }
        let target_collection_info = match env.lookup_collection(&relationship.target_table) {
            Ok(info) => info,
            Err(e) => return Err(e),
        };
        // unpack table info for now.
        let target_table_info = match target_collection_info {
            super::helpers::CollectionInfo::Table { info, .. } => info,
            super::helpers::CollectionInfo::NativeQuery { .. } => {
                proof { reveal_strlit("Native Queries"); }
                return Err(Error::NotSupported(String::from_str("Native Queries")));
            },
        };
        // relationship target db table name
        let target_db_table_name = TableName::DBTable {
            schema: target_table_info.schema_name.clone(),
            table: target_table_info.table_name.clone(),
        };
        let target_collection_alias = crate::sql::helpers::make_order_path_part_table_alias(
            index,
            &relationship.target_table,
        );
        // The source table is going to be defined using this index - 1 in the next iteration,
        // unless it is the root source table.
        let source_table_alias = if index > 0 {
            crate::sql::helpers::make_order_path_part_table_alias(
                index - 1,
                &relationship.source_table_or_type,
            )
        } else {
            // If this is the first table in the path, it is already defined
            // out side of this scope, so we don't index it.
            crate::sql::helpers::make_table_alias(relationship.source_table_or_type.clone())
        };
        let target_collection_alias_name = TableName::AliasedTable(target_collection_alias.clone());
        // If last_table is None, we are just starting the loop, let's
        // put a pin on what the last table is, so we can wrap the joins
        // in a select querying this table.
        if last_table.is_none() {
            last_table = Some(target_collection_alias.clone());
        }
        // we select the columns used for the next join or the requested column
        // for the order by.
        let select_cols = select_aliased_columns(&target_collection_alias_name, &required_cols);
        // We find the columns we need from the "previous" table so we can require them.
        let source_relationship_table_key_columns = source_column_aliases(
            &relationship.column_mapping,
        );
        let ghost source_alias = source_table_alias;
        let source_table = TableNameAndReference {
            name: relationship.source_table_or_type.clone(),
            reference: TableName::AliasedTable(source_table_alias),
        };
        // generate a condition for this join.
        let join_condition = match super::relationships::translate_column_mapping(
            env,
            &source_table,
            &target_collection_alias_name,
            crate::sql::helpers::empty_where(),
            relationship,
        ) {
            Ok(c) => c,
            Err(e) => return Err(e),
        };
        // build a select query from this table where join condition.
        let mut select = crate::sql::helpers::simple_select(select_cols);
        select.where_ = Where(join_condition);
        select.from = Some(
            From::Table { name: target_db_table_name, alias: target_collection_alias.clone() },
        );
        let ghost before = parts@;
        // build a join from it, and add it to our pile'o'joins
        parts.push(LeftOuterJoinLateral { select: Box::new(select), alias: target_collection_alias });
        proof {
            assert(alias_named(source_alias, order_source_name(*relationship, index as int)));
            assert(required_columns(env, p, index as int, selected) == required_cols@);
            let q0 = before.len() as int;
            assert(p.len() - 1 - q0 == index);
            assert(order_part_ok(
                env,
                p,
                index as int,
                required_columns(env, p, index as int, selected),
                parts@[q0].alias,
                *parts@[q0].select,
            ));
            assert forall|q: int| 0 <= q < parts@.len() implies order_part_ok(
                env,
                p,
                p.len() - 1 - q,
                required_columns(env, p, p.len() - 1 - q, selected),
                (#[trigger] parts@[q]).alias,
                *parts@[q].select,
            ) by {
                if q < q0 {
                    assert(parts@[q] == before[q]);
                }
            }
        }
        // return the required columns for this table's join and the last table we found.
        required_cols = source_relationship_table_key_columns;
        i = index;
    }
    match last_table {
        // if there were no relationship columns, we don't need to build a query, just return the table.
        None => {
            assert(p.len() == 0);
            Ok((selected_column_alias, None))
        },
        // If there was a relationship column, build a wrapping select query selecting the wanted column
        // for the order by, and build a select of all the joins to select from.
        Some(last_table) => {
            let ghost all_parts = parts@;
            let ghost len = p.len() as int;
            // order by columns
            let selected_column_name = Expression::ColumnName(
                ColumnName::AliasedColumn {
                    table: TableName::AliasedTable(last_table),
                    name: selected_column_alias.clone(),
                },
            );
            let ghost column = selected_column_name;
            // if we got a function, we wrap the required column with
            // a function call.
            let selected_column_expr = match function {
                None => selected_column_name,
                Some(func) => {
                    let args = vec![selected_column_name];
                    assert(args@ =~= seq![column]);
                    Expression::FunctionCall { function: Function::Unknown(func), args }
                },
            };
            assert(match function {
                None => selected_column_expr == column,
                Some(f) => is_call(selected_column_expr, Function::Unknown(f), seq![column]),
            });
            // wrapping select
            let mut select = crate::sql::helpers::simple_select(
                vec![(selected_column_alias.clone(), selected_column_expr)],
            );
            // build an inner select from the joins by selecting from the first table
            //
            // remember, we traversed the relationships in reverse order, so the joins
            // we built are also in reverse.
            assert(order_part_ok(
                env,
                p,
                0,
                required_columns(env, p, 0, selected),
                all_parts[len - 1].alias,
                *all_parts[len - 1].select,
            ));
            let inner_join = parts.pop().unwrap();
            // we start from the first table
            select.from = Some(From::Select { select: inner_join.select, alias: inner_join.alias });
            // and add the joins
            let mut joins: Vec<Join> = Vec::new();
            while parts.len() > 0
                invariant
                    env.mappings_sorted(),
                    parts@ == all_parts.subrange(0, len - 1 - joins@.len()),
                    joins@.len() <= len - 1,
                    all_parts.len() == len,
                    forall|q: int|
                        0 <= q < joins@.len() ==> #[trigger] joins@[q] == Join::LeftOuterJoinLateral(
                            all_parts[len - 2 - q],
                        ),
                decreases parts@.len(),
            {
                let join = parts.pop().unwrap();
                joins.push(Join::LeftOuterJoinLateral(join));
            }
            proof {
                assert forall|k: int| 0 <= k < joins@.len() implies (#[trigger] joins@[k] matches Join::LeftOuterJoinLateral(j)
                    && order_part_ok(
                    env,
                    p,
                    k + 1,
                    required_columns(env, p, k + 1, selected),
                    j.alias,
                    *j.select,
                )) by {
                    assert(joins@[k] == Join::LeftOuterJoinLateral(all_parts[len - 2 - k]));
                    assert(order_part_ok(
                        env,
                        p,
                        len - 1 - (len - 2 - k),
                        required_columns(env, p, len - 1 - (len - 2 - k), selected),
                        all_parts[len - 2 - k].alias,
                        *all_parts[len - 2 - k].select,
                    ));
                    assert(len - 1 - (len - 2 - k) == k + 1);
                }
                if len > 1 {
                    assert(joins@[len - 2] == Join::LeftOuterJoinLateral(all_parts[0]));
                }
            }
            select.joins = joins;
            // and return the requested column alias and the inner select.
            Ok((selected_column_alias, Some(select)))
        },
    }
}

/// Translate an order by target and add additional JOINs to the wrapping SELECT
/// and return the expression used for the sort by the wrapping SELECT.
fn translate_order_by_target(
    env: &Env,
    root_and_current_tables: &RootAndCurrentTables,
    index: usize,
    column: &String,
    path: &Vec<input::PathElement>,
    // we expect function to be derived derived from the schema we publish,
    // so no sql injection shenanigans should be possible.
    function: Option<String>,
    joins: &mut Vec<Join>,
) -> (res: Result<Expression, Error>)
    requires
        env.mappings_sorted(),
    ensures
        match res {
            Ok(out) => order_column_error(env, path@, function is Some) is None
                && final(joins)@.len() == old(joins)@.len() + if path@.len() == 0 {
                0int
            } else {
                1int
            } && final(joins)@.subrange(0, old(joins)@.len() as int) == old(joins)@
                && order_target_translated(
                env,
                *root_and_current_tables,
                index as int,
                *column,
                path@,
                function,
                out,
                final(joins)@.subrange(old(joins)@.len() as int, final(joins)@.len() as int),
            ),
            Err(e) => order_column_error(env, path@, function is Some) == Some(e@)
                && !(e is NoFields)
                && final(joins)@ == old(joins)@,
        },
{
    let (column_alias, optional_relationship_select) = match translate_order_by_target_for_column(
        env,
        column.clone(),
        path,
        function,
    ) {
        Ok(r) => r,
        Err(e) => return Err(e),
    };
    match optional_relationship_select {
        // The column is from the source table, we just need to query it directly
        // by refering to the table's alias.
        None => {
            assert(joins@.subrange(0, joins@.len() as int) =~= joins@);
            assert(joins@.subrange(joins@.len() as int, joins@.len() as int) =~= Seq::<
                Join,
            >::empty());
            Ok(
                Expression::ColumnName(
                    ColumnName::AliasedColumn {
                        table: root_and_current_tables.current_table.reference.clone(),
                        name: column_alias,
                    },
                ),
            )
        },
        // The column is from a relationship table, we need to join with this
        // select query.
        Some(select) => {
            // Give it a nice unique alias.
            let table_alias = crate::sql::helpers::make_order_by_table_alias(
                index,
                &root_and_current_tables.current_table.name,
            );
            let ghost before = joins@;
            // Build a join and push it to the accumulated joins.
            joins.push(
                Join::LeftOuterJoinLateral(
                    LeftOuterJoinLateral { select: Box::new(select), alias: table_alias.clone() },
                ),
            );
            assert(joins@.subrange(0, before.len() as int) =~= before);
            assert(joins@.subrange(before.len() as int, joins@.len() as int) =~= seq![
                joins@[before.len() as int],
            ]);
            // Build an alias to query the column from this select.
            Ok(
                Expression::ColumnName(
                    ColumnName::AliasedColumn {
                        table: TableName::AliasedTable(table_alias),
                        name: column_alias,
                    },
                ),
            )
        },
    }
}

/// A StarCountAggregate allows us to express stuff like "order albums by number of tracks they have",
/// ie order by a COUNT(*) over the items of an array relationship
fn translate_order_by_star_count_aggregate(
    env: &Env,
    source_table: &TableNameAndReference,
    path: &Vec<input::PathElement>,
) -> (res: Result<(ColumnAlias, Select), Error>)
    requires
        env.mappings_sorted(),
    ensures
        match res {
            Ok((alias, select)) => star_count_error(env, source_table.name@, path@) is None
                && star_count_translated(env, *source_table, path@, alias, select),
            Err(e) => star_count_error(env, source_table.name@, path@) == Some(e@)
                && !(e is NoFields),
        },
{
    // we can only do one level of star count aggregate atm
    if path.len() > 1 {
        proof { reveal_strlit("star count for nested relationships"); }
        return Err(Error::NotSupported(String::from_str("star count for nested relationships")));
    }
    if path.len() == 0 {
        proof { reveal_strlit("order by star count aggregates"); }
        return Err(Error::NotSupported(String::from_str("order by star count aggregates")));
    }
    let path_element = &path[0];
    // examine the path elements' relationship.
    let relationship = match env.lookup_relationship(&path_element.relationship) {
        Ok(r) => r,
        Err(e) => return Err(e),
    };
    let target_collection_alias = crate::sql::helpers::make_table_alias(
        relationship.target_table.clone(),
    );
    let target_collection_alias_name = TableName::AliasedTable(target_collection_alias.clone());
    // make a very basic select COUNT(*) as "Count" FROM
    // <nested-table> WHERE <join-conditions>
    proof { reveal_strlit("count"); }
    let column_alias = crate::sql::helpers::make_column_alias(String::from_str("count"));
    let ghost count = column_alias;
    let select_cols = vec![(column_alias.clone(), Expression::Count(CountType::Star))];
    assert(select_cols@ =~= seq![(count, Expression::Count(CountType::Star))]);
    // build a select query from this table where join condition.
    let mut select = crate::sql::helpers::simple_select(select_cols);
    // generate a condition for this join.
    let join_condition = match super::relationships::translate_column_mapping(
        env,
        source_table,
        &target_collection_alias_name,
        crate::sql::helpers::empty_where(),
        relationship,
    ) {
        Ok(c) => c,
        Err(e) => return Err(e),
    };
    select.where_ = Where(join_condition);
    select.from = Some(
        From::Table { name: target_collection_alias_name, alias: target_collection_alias },
    );
    // return the column to order by (from our fancy join)
    Ok((column_alias, select))
}

/// Convert the order by fields from a QueryRequest to a SQL ORDER BY clause and potentially
/// JOINs when we order by relationship fields.
pub fn translate_order_by(
    env: &Env,
    root_and_current_tables: &RootAndCurrentTables,
    order_by: &Option<input::OrderBy>,
) -> (res: Result<(OrderBy, Vec<Join>), Error>)
    requires
        env.mappings_sorted(),
    ensures
        match res {
            Ok((out, joins)) => order_by_error(env, *root_and_current_tables, *order_by) is None
                && order_by_translated(env, *root_and_current_tables, *order_by, out, joins@),
            Err(e) => order_by_error(env, *root_and_current_tables, *order_by) == Some(e@)
                && !(e is NoFields),
        },
{
    // For each order_by field, extract the relevant field name, direction, and join table (if relevant).
    match order_by {
        None => Ok((OrderBy { elements: Vec::new() }, Vec::new())),
        Some(ob) => {
            let elements = &ob.elements;
            let ghost es = elements@;
            let ghost tables = *root_and_current_tables;
            let mut joins: Vec<Join> = Vec::new();
            let mut order_by_parts: Vec<OrderByElement> = Vec::new();
            let mut index: usize = 0;
            assert(es.skip(0) =~= es);
            assert(es.subrange(0, 0) =~= Seq::<input::OrderByElement>::empty());
            while index < elements.len()
                invariant
                    env.mappings_sorted(),
                    es == elements@,
                    tables == *root_and_current_tables,
                    order_by_error(env, tables, *order_by) == order_elements_error(env, tables, es),
                    *order_by == Some(*ob),
                    0 <= index <= es.len(),
                    order_elements_error(env, tables, es) == order_elements_error(
                        env,
                        tables,
                        es.skip(index as int),
                    ),
                    joins@.len() == order_elements_joins(es.subrange(0, index as int)),
                    order_elements_translated(
                        env,
                        tables,
                        es.subrange(0, index as int),
                        order_by_parts@,
                        joins@,
                    ),
                decreases es.len() - index,
            {
                let ghost rest = es.skip(index as int);
                assert(rest.subrange(1, rest.len() as int) =~= es.skip(index + 1));
                assert(rest[0] == es[index as int]);
                let ghost before_joins = joins@;
                let ghost before_parts = order_by_parts@;
                let element = &elements[index];
                let target = match &element.target {
                    input::OrderByTarget::Column { name, path } => {
                        match translate_order_by_target(
                            env,
                            root_and_current_tables,
                            index,
                            name,
                            path,
                            None,
                            &mut joins,
                        ) {
                            Ok(t) => t,
                            Err(e) => return Err(e),
                        }
                    },
                    input::OrderByTarget::SingleColumnAggregate { column, function, path } => {
                        match translate_order_by_target(
                            env,
                            root_and_current_tables,
                            index,
                            column,
                            path,
                            Some(function.clone()),
                            &mut joins,
                        ) {
                            Ok(t) => t,
                            Err(e) => return Err(e),
                        }
                    },
                    input::OrderByTarget::StarCountAggregate { path } => {
                        let (column_alias, select) = match translate_order_by_star_count_aggregate(
                            env,
                            &root_and_current_tables.current_table,
                            path,
                        ) {
                            Ok(r) => r,
                            Err(e) => return Err(e),
                        };
                        // Give it a nice unique alias.
                        let table_alias = crate::sql::helpers::make_order_by_count_table_alias(
                            index,
                            &root_and_current_tables.current_table.name,
                        );
                        // Build a join and push it to the accumulated joins.
                        joins.push(
                            Join::LeftOuterJoinLateral(
                                LeftOuterJoinLateral {
                                    select: Box::new(select),
                                    alias: table_alias.clone(),
                                },
                            ),
                        );
                        assert(joins@.subrange(0, before_joins.len() as int) =~= before_joins);
                        assert(joins@.subrange(before_joins.len() as int, joins@.len() as int)
                            =~= seq![joins@[before_joins.len() as int]]);
                        // Build an alias to query the column from this select.
                        // return the column to order by (from our fancy join)
                        Expression::ColumnName(
                            ColumnName::AliasedColumn {
                                table: TableName::AliasedTable(table_alias),
                                name: column_alias,
                            },
                        )
                    },
                };
                let direction = match element.order_direction {
                    input::OrderDirection::Asc => OrderByDirection::Asc,
                    input::OrderDirection::Desc => OrderByDirection::Desc,
                };
                order_by_parts.push(OrderByElement { target, direction });
                proof {
                    let prefix = es.subrange(0, index + 1);
                    assert(prefix.subrange(0, index as int) =~= es.subrange(0, index as int));
                    assert(prefix[index as int] == es[index as int]);
                    assert(order_by_parts@.subrange(0, index as int) =~= before_parts);
                }
                index = index + 1;
            }
            proof {
                assert(es.subrange(0, index as int) =~= es);
                assert(es.skip(index as int) =~= Seq::<input::OrderByElement>::empty());
            }
            Ok((OrderBy { elements: order_by_parts }, joins))
        },
    }
}

} // verus!
