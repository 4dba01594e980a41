//! Handle stuff related to relationships and joins.
use vstd::prelude::*;

use super::error::{Error, ErrorView, Failure};
use super::helpers::{Env, RootAndCurrentTables, TableNameAndReference};
use crate::metadata::{keys_distinct, keys_sorted, text_less};
use super::root::{
    conditioned, join_translated, joins_failure, joins_next, joins_translated, lemma_joins_prefix,
    query_failure, query_next, relationship_count, rowset_aliases, unconditioned,
};
use crate::sql::ast::{
    BinaryOperator, ColumnName, Expression, Join, LeftOuterJoinLateral, Select, TableName, Where,
};
use crate::sql::helpers::{is_rowset_body, SelectSet};
use crate::types::input::{Argument, ComparisonValue, Field, Relationship};

verus! {

/// `<current>.<source column> = <target>.<target column>`, for one pair of columns of a
/// relationship's mapping, with the columns' database names.
pub open spec fn mapping_condition(
    env: &Env,
    current: TableNameAndReference,
    target: TableName,
    target_name: Seq<char>,
    pair: (String, String),
) -> Expression {
    Expression::BinaryOperator {
        left: Box::new(
            Expression::ColumnName(
                ColumnName::TableColumn {
                    table: current.reference,
                    name: env.column_of(current.name@, pair.0@).unwrap().name,
                },
            ),
        ),
        operator: BinaryOperator::Equals,
        right: Box::new(
            Expression::ColumnName(
                ColumnName::TableColumn {
                    table: target,
                    name: env.column_of(target_name, pair.1@).unwrap().name,
                },
            ),
        ),
    }
}

/// `expr AND <condition of pair 0> AND ... AND <condition of the last pair>`, nested to the
/// left.
pub open spec fn mapping_fold(
    env: &Env,
    current: TableNameAndReference,
    target: TableName,
    target_name: Seq<char>,
    expr: Expression,
    pairs: Seq<(String, String)>,
) -> Expression
    decreases pairs.len(),
{
    if pairs.len() == 0 {
        expr
    } else {
        Expression::And {
            left: Box::new(
                mapping_fold(
                    env,
                    current,
                    target,
                    target_name,
                    expr,
                    pairs.subrange(0, pairs.len() - 1),
                ),
            ),
            right: Box::new(
                mapping_condition(env, current, target, target_name, pairs[pairs.len() - 1]),
            ),
        }
    }
}

/// `expr` joined with the conditions of a relationship's column mapping, from the table
/// `current` to the table `target`.
pub open spec fn mapping_expression(
    env: &Env,
    current: TableNameAndReference,
    target: TableName,
    expr: Expression,
    relationship: Relationship,
) -> Expression {
    mapping_fold(
        env,
        current,
        target,
        relationship.target_table@,
        expr,
        relationship.column_mapping@,
    )
}

/// The first error of looking up the columns of `pairs`, source column before target
/// column.
pub open spec fn pairs_error(
    env: &Env,
    source: Seq<char>,
    target: Seq<char>,
    pairs: Seq<(String, String)>,
) -> Option<ErrorView>
    decreases pairs.len(),
{
    if pairs.len() == 0 {
        None
    } else {
        match env.column_error(source, pairs[0].0@) {
            Some(e) => Some(e),
            None => match env.column_error(target, pairs[0].1@) {
                Some(e) => Some(e),
                None => pairs_error(env, source, target, pairs.subrange(1, pairs.len() as int)),
            },
        }
    }
}

/// The error of joining the table named `current` with the target of `relationship`.
pub open spec fn mapping_error(env: &Env, current: Seq<char>, relationship: Relationship) -> Option<
    ErrorView,
> {
    match env.collection_error(current) {
        Some(e) => Some(e),
        None => match env.collection_error(relationship.target_table@) {
            Some(e) => Some(e),
            None => pairs_error(
                env,
                current,
                relationship.target_table@,
                relationship.column_mapping@,
            ),
        },
    }
}

/// The expression reached by following the left operands of `k` nested `AND`s.
pub open spec fn peel_ands(e: Expression, k: nat) -> Expression
    decreases k,
{
    if k == 0 {
        e
    } else {
        match e {
            Expression::And { left, .. } => peel_ands(*left, (k - 1) as nat),
            _ => e,
        }
    }
}

/// The expression that a column mapping wraps is found again under its conditions.
pub proof fn lemma_peel_mapping(
    env: &Env,
    current: TableNameAndReference,
    target: TableName,
    target_name: Seq<char>,
    expr: Expression,
    pairs: Seq<(String, String)>,
)
    ensures
        peel_ands(mapping_fold(env, current, target, target_name, expr, pairs), pairs.len())
            == expr,
    decreases pairs.len(),
{
    if pairs.len() > 0 {
        lemma_peel_mapping(
            env,
            current,
            target,
            target_name,
            expr,
            pairs.subrange(0, pairs.len() - 1),
        );
    }
}

/// Given a relationship, turn it into a Where clause for a Join: one equality per pair of
/// its column mapping, conjoined in the order of the source columns, which the mapping, a map
/// keyed by source column, lists in increasing order.
pub fn translate_column_mapping(
    env: &Env,
    current_table: &TableNameAndReference,
    target_collection_alias_name: &TableName,
    expr: Expression,
    relationship: &Relationship,
) -> (res: Result<Expression, Error>)
    requires
        keys_sorted(relationship.column_mapping@),
    ensures
        match res {
            Ok(out) => mapping_error(env, current_table.name@, *relationship) is None && out
                == mapping_expression(
                env,
                *current_table,
                *target_collection_alias_name,
                expr,
                *relationship,
            ),
            Err(e) => mapping_error(env, current_table.name@, *relationship) == Some(e@)
                && !(e is NoFields),
        },
{
    let table_info = match env.lookup_collection(&current_table.name) {
        Ok(info) => info,
        Err(e) => return Err(e),
    };
    let target_collection_info = match env.lookup_collection(&relationship.target_table) {
        Ok(info) => info,
        Err(e) => return Err(e),
    };
    let ghost source = current_table.name@;
    let ghost target_name = relationship.target_table@;
    let ghost pairs = relationship.column_mapping@;
    assert(table_info.spec_columns() == env.columns_of(source));
    assert(target_collection_info.spec_columns() == env.columns_of(target_name));
    let mut acc = expr;
    let mut index: usize = 0;
    assert(pairs.skip(0) =~= pairs);
    assert(pairs.subrange(0, 0) =~= Seq::<(String, String)>::empty());
    while index < relationship.column_mapping.len()
        invariant
            0 <= index <= pairs.len(),
            pairs == relationship.column_mapping@,
            target_name == relationship.target_table@,
            source == current_table.name@,
            env.collection_error(source) is None,
            env.collection_error(target_name) is None,
            table_info.spec_columns() == env.columns_of(source),
            target_collection_info.spec_columns() == env.columns_of(target_name),
            table_info.spec_name() == current_table.name,
            target_collection_info.spec_name() == relationship.target_table,
            pairs_error(env, source, target_name, pairs) == pairs_error(
                env,
                source,
                target_name,
                pairs.skip(index as int),
            ),
            acc == mapping_fold(
                env,
                *current_table,
                *target_collection_alias_name,
                target_name,
                expr,
                pairs.subrange(0, index as int),
            ),
        decreases pairs.len() - index,
    {
        let ghost rest = pairs.skip(index as int);
        assert(rest.subrange(1, rest.len() as int) =~= pairs.skip(index + 1));
        assert(rest[0] == pairs[index as int]);
        let (source_col, target_col) = &relationship.column_mapping[index];
        let source_column_info = match table_info.lookup_column(source_col) {
            Ok(info) => info,
            Err(e) => return Err(e),
        };
        let target_column_info = match target_collection_info.lookup_column(target_col) {
            Ok(info) => info,
            Err(e) => return Err(e),
        };
        let condition = Expression::BinaryOperator {
            left: Box::new(
                Expression::ColumnName(
                    ColumnName::TableColumn {
                        table: current_table.reference.clone(),
                        name: source_column_info.name.clone(),
                    },
                ),
            ),
            operator: BinaryOperator::Equals,
            right: Box::new(
                Expression::ColumnName(
                    ColumnName::TableColumn {
                        table: target_collection_alias_name.clone(),
                        name: target_column_info.name.clone(),
                    },
                ),
            ),
        };
        assert(pairs.subrange(0, index + 1).subrange(0, index as int) =~= pairs.subrange(
            0,
            index as int,
        ));
        acc = Expression::And { left: Box::new(acc), right: Box::new(condition) };
        index = index + 1;
    }
    assert(pairs.skip(index as int) =~= Seq::<(String, String)>::empty());
    assert(pairs.subrange(0, index as int) =~= pairs);
    Ok(acc)
}

/// Take the relationship conditions into the `WHERE` clause of a select.
fn condition_select(
    env: &Env,
    current_table: &TableNameAndReference,
    target: &TableName,
    relationship: &Relationship,
    select: Select,
) -> (res: Result<Select, Error>)
    requires
        keys_sorted(relationship.column_mapping@),
    ensures
        match res {
            Ok(out) => mapping_error(env, current_table.name@, *relationship) is None
                && out.where_.0 == mapping_expression(
                env,
                *current_table,
                *target,
                peel_ands(out.where_.0, relationship.column_mapping@.len()),
                *relationship,
            ) && (Select {
                where_: Where(peel_ands(out.where_.0, relationship.column_mapping@.len())),
                ..out
            }) == select,
            Err(e) => mapping_error(env, current_table.name@, *relationship) == Some(e@)
                && !(e is NoFields),
        },
{
    let mut select = select;
    let ghost initial = select;
    let mut expr = Where(crate::sql::helpers::true_expr());
    std::mem::swap(&mut select.where_, &mut expr);
    let ghost inner = expr.0;
    let condition = match translate_column_mapping(env, current_table, target, expr.0, relationship) {
        Ok(c) => c,
        Err(e) => return Err(e),
    };
    proof {
        lemma_peel_mapping(
            env,
            *current_table,
            *target,
            relationship.target_table@,
            inner,
            relationship.column_mapping@,
        );
    }
    select.where_ = Where(condition);
    Ok(select)
}

/// translate any joins we should include in the query into our SQL AST
pub fn translate_joins(
    env: &Env,
    next_free_name: &mut u32,
    root_and_current_tables: &RootAndCurrentTables,
    // The fields of the query; its relationship fields become joins.
    fields: &Vec<(String, Field)>,
) -> (res: Result<Vec<Join>, Error>)
    requires
        env.mappings_sorted(),
        joins_failure(
            env,
            *old(next_free_name) as nat,
            root_and_current_tables.current_table.name,
            fields@,
        ) != Some(Failure::Panic),
    ensures
        match res {
            Ok(joins) => joins_failure(
                env,
                *old(next_free_name) as nat,
                root_and_current_tables.current_table.name,
                fields@,
            ) is None && joins_translated(
                env,
                *old(next_free_name) as nat,
                *root_and_current_tables,
                fields@,
                joins@,
            ) && joins@.len() == relationship_count(fields@) && *final(next_free_name)
                == joins_next(
                env,
                *old(next_free_name) as nat,
                root_and_current_tables.current_table.name,
                fields@,
            ),
            Err(e) => joins_failure(
                env,
                *old(next_free_name) as nat,
                root_and_current_tables.current_table.name,
                fields@,
            ) == Some(Failure::Error(e@)) && (e is NoFields ==> *final(next_free_name)
                == joins_next(
                env,
                *old(next_free_name) as nat,
                root_and_current_tables.current_table.name,
                fields@,
            )),
        },
    decreases fields, 0nat,
{
    let ghost n0 = *next_free_name as nat;
    let ghost fs = fields@;
    let ghost current = root_and_current_tables.current_table.name;
    let mut joins: Vec<Join> = Vec::new();
    let mut index: usize = 0;
    proof {
        assert(forall|i: int| 0 <= i < fs.len() ==> decreases_to!(*fields => #[trigger] fs[i]));
        assert(fs.subrange(0, 0) =~= Seq::<(String, Field)>::empty());
    }
    // traverse and build a join.
    while index < fields.len()
        invariant
            env.mappings_sorted(),
            forall|i: int| 0 <= i < fs.len() ==> decreases_to!(*fields => #[trigger] fs[i]),
            fs == fields@,
            n0 == *old(next_free_name) as nat,
            current == root_and_current_tables.current_table.name,
            0 <= index <= fs.len(),
            joins_failure(env, n0, current, fs.subrange(0, index as int)) is None,
            joins_failure(env, n0, current, fs) != Some(Failure::Panic),
            *next_free_name == joins_next(env, n0, current, fs.subrange(0, index as int)),
            joins@.len() == relationship_count(fs.subrange(0, index as int)),
            joins_translated(
                env,
                n0,
                *root_and_current_tables,
                fs.subrange(0, index as int),
                joins@,
            ),
        decreases fs.len() - index,
    {
        let ghost prefix = fs.subrange(0, index + 1);
        assert(prefix.subrange(0, index as int) =~= fs.subrange(0, index as int));
        assert(prefix[index as int] == fs[index as int]);
        let ghost before = joins@;
        let (alias, field) = &fields[index];
        match field {
            Field::Column { .. } => {},
            Field::Relationship { query, relationship, .. } => {
                let relationship = match env.lookup_relationship(relationship) {
                    Ok(r) => r,
                    Err(e) => {
                        proof {
                            lemma_joins_prefix(env, n0, current, fs, index + 1);
                        }
                        return Err(e);
                    },
                };
                let ghost n1 = *next_free_name as nat;
                proof {
                    assert(decreases_to!(fs[index as int] => fs[index as int].1));
                    if query_failure(env, n1, relationship.target_table, **query) == Some(
                        Failure::Panic,
                    ) {
                        lemma_joins_prefix(env, n0, current, fs, index + 1);
                    }
                }
                // process inner query and get the SELECTs for the 'rows' and 'aggregates' fields.
                let select_set = match super::translate_query(
                    env,
                    next_free_name,
                    &relationship.target_table,
                    query,
                ) {
                    Ok(set) => set,
                    Err(e) => {
                        proof {
                            lemma_joins_prefix(env, n0, current, fs, index + 1);
                        }
                        return Err(e);
                    },
                };
                let ghost initial = select_set;
                let target_reference = TableName::AliasedTable(
                    crate::sql::helpers::make_table_alias(relationship.target_table.clone()),
                );
                let current_table = &root_and_current_tables.current_table;
                // add join expressions to row / aggregate selects
                let final_select_set = match select_set {
                    // Only rows
                    SelectSet::Rows(row_select) => {
                        match condition_select(
                            env,
                            current_table,
                            &target_reference,
                            relationship,
                            row_select,
                        ) {
                            Ok(s) => SelectSet::Rows(s),
                            Err(e) => {
                                proof {
                                    lemma_joins_prefix(env, n0, current, fs, index + 1);
                                }
                                return Err(e);
                            },
                        }
                    },
                    // Only aggregates
                    SelectSet::Aggregates(aggregate_select) => {
                        match condition_select(
                            env,
                            current_table,
                            &target_reference,
                            relationship,
                            aggregate_select,
                        ) {
                            Ok(s) => SelectSet::Aggregates(s),
                            Err(e) => {
                                proof {
                                    lemma_joins_prefix(env, n0, current, fs, index + 1);
                                }
                                return Err(e);
                            },
                        }
                    },
                    // Both
                    SelectSet::RowsAndAggregates(row_select, aggregate_select) => {
                        let row_select = match condition_select(
                            env,
                            current_table,
                            &target_reference,
                            relationship,
                            row_select,
                        ) {
                            Ok(s) => s,
                            Err(e) => {
                                proof {
                                    lemma_joins_prefix(env, n0, current, fs, index + 1);
                                }
                                return Err(e);
                            },
                        };
                        let aggregate_select = match condition_select(
                            env,
                            current_table,
                            &target_reference,
                            relationship,
                            aggregate_select,
                        ) {
                            Ok(s) => s,
                            Err(e) => {
                                proof {
                                    lemma_joins_prefix(env, n0, current, fs, index + 1);
                                }
                                return Err(e);
                            },
                        };
                        // Build (what will be) a RowSet with both fields.
                        SelectSet::RowsAndAggregates(row_select, aggregate_select)
                    },
                };
                assert(unconditioned(final_select_set, relationship.column_mapping@.len())
                    == initial);
                proof {
                    reveal_strlit("rows");
                    reveal_strlit("aggregates");
                }
                let row_table_alias = crate::sql::helpers::make_table_alias(String::from_str("rows"));
                let row_column_alias = crate::sql::helpers::make_column_alias(String::from_str("rows"));
                let aggregate_table_alias = crate::sql::helpers::make_table_alias(
                    String::from_str("aggregates"),
                );
                let aggregate_column_alias = crate::sql::helpers::make_column_alias(
                    String::from_str("aggregates"),
                );
                let ghost row = (row_table_alias, row_column_alias);
                let ghost aggregate = (aggregate_table_alias, aggregate_column_alias);
                let ghost set = final_select_set;
                // form a single JSON item shaped `{ rows: [], aggregates: {} }`
                // that matches the RowSet type
                let json_select = crate::sql::helpers::select_rowset(
                    crate::sql::helpers::make_column_alias(alias.clone()),
                    crate::sql::helpers::make_table_alias(alias.clone()),
                    row_table_alias,
                    row_column_alias,
                    aggregate_table_alias,
                    aggregate_column_alias,
                    final_select_set,
                );
                proof {
                    let body = *json_select.from->Some_0->Select_select;
                    assert(is_rowset_body(body, set, row, aggregate));
                    assert(rowset_aliases(row, aggregate));
                }
                joins.push(
                    Join::LeftOuterJoinLateral(
                        LeftOuterJoinLateral {
                            select: Box::new(json_select),
                            alias: crate::sql::helpers::make_table_alias(alias.clone()),
                        },
                    ),
                );
                proof {
                    assert(joins@.subrange(0, before.len() as int) =~= before);
                    assert(join_translated(
                        env,
                        n1,
                        root_and_current_tables.current_table,
                        *alias,
                        fs[index as int].1->Relationship_relationship,
                        **query,
                        joins@[before.len() as int],
                    ));
                }
            },
        }
        index = index + 1;
    }
    proof {
        assert(fs.subrange(0, index as int) =~= fs);
    }
    Ok(joins)
}

/// The arguments of a relationship: those of its definition and those that the caller gives.
/// Each list is a map: it names its arguments in increasing order, each once.
pub struct MakeRelationshipArguments {
    pub relationship_arguments: Vec<(String, ComparisonValue)>,
    pub caller_arguments: Vec<(String, ComparisonValue)>,
}

/// A relationship argument as an argument: a literal stays a literal and a variable a
/// variable; a column argument has no such form.
pub open spec fn argument_of(argument: ComparisonValue) -> Option<Argument> {
    match argument {
        ComparisonValue::Scalar { value } => Some(Argument::Literal { value }),
        ComparisonValue::Variable { name } => Some(Argument::Variable { name }),
        ComparisonValue::Column { .. } => None,
    }
}

/// Some argument of `arguments` is a column argument.
pub open spec fn has_column_argument(arguments: Seq<(String, ComparisonValue)>) -> bool {
    exists|i: int| 0 <= i < arguments.len() && #[trigger] arguments[i].1 is Column
}

/// `arguments` names `key`.
pub open spec fn names(arguments: Seq<(String, ComparisonValue)>, key: Seq<char>) -> bool {
    exists|j: int| 0 <= j < arguments.len() && #[trigger] arguments[j].0@ == key
}

/// The first argument of the caller, in order, whose name the relationship's definition
/// names too, if any.
pub open spec fn first_overridden(
    relationship: Seq<(String, ComparisonValue)>,
    caller: Seq<(String, ComparisonValue)>,
) -> Option<Seq<char>>
    decreases caller.len(),
{
    if caller.len() == 0 {
        None
    } else if names(relationship, caller[0].0@) {
        Some(caller[0].0@)
    } else {
        first_overridden(relationship, caller.subrange(1, caller.len() as int))
    }
}

/// Both the relationship's definition and the caller name `key`.
pub open spec fn overridden(
    relationship: Seq<(String, ComparisonValue)>,
    caller: Seq<(String, ComparisonValue)>,
    key: Seq<char>,
) -> bool {
    names(relationship, key) && names(caller, key)
}

/// Keys listed in increasing order are listed once.
proof fn lemma_sorted_keys_distinct<V>(entries: Seq<(String, V)>)
    requires
        keys_sorted(entries),
    ensures
        keys_distinct(entries),
{
    assert forall|i: int, j: int| 0 <= i < j < entries.len() implies #[trigger] entries[i].0@
        != #[trigger] entries[j].0@ by {
        let (a, b) = (entries[i].0@, entries[j].0@);
        assert(text_less(a, b));
        if a == b {
            let k = choose|k: int|
                0 <= k <= a.len() && k <= b.len() && #[trigger] a.take(k) == b.take(k) && ((k
                    == a.len() && k < b.len()) || (k < a.len() && k < b.len() && (a[k] as u32)
                    < (b[k] as u32)));
            assert(false);
        }
    }
}

/// With the caller's arguments in increasing order of their names, the first one that the
/// relationship also names is the least name that both name.
proof fn lemma_first_overridden_least(
    relationship: Seq<(String, ComparisonValue)>,
    caller: Seq<(String, ComparisonValue)>,
)
    requires
        keys_sorted(caller),
    ensures
        match first_overridden(relationship, caller) {
            Some(k) => overridden(relationship, caller, k) && forall|key: Seq<char>|
                #[trigger] overridden(relationship, caller, key) && key != k ==> text_less(k, key),
            None => forall|key: Seq<char>| !#[trigger] overridden(relationship, caller, key),
        },
    decreases caller.len(),
{
    if caller.len() > 0 {
        let first = caller[0].0@;
        let rest = caller.subrange(1, caller.len() as int);
        assert forall|key: Seq<char>| names(caller, key) <==> (key == first || names(rest, key)) by {
            if names(caller, key) {
                let j = choose|j: int| 0 <= j < caller.len() && #[trigger] caller[j].0@ == key;
                if j > 0 {
                    assert(rest[j - 1] == caller[j]);
                }
            }
            if names(rest, key) {
                let j = choose|j: int| 0 <= j < rest.len() && #[trigger] rest[j].0@ == key;
                assert(rest[j] == caller[j + 1]);
            }
            if key == first {
                assert(caller[0].0@ == key);
            }
        }
        if names(relationship, first) {
            assert(overridden(relationship, caller, first));
            assert forall|key: Seq<char>|
                #[trigger] overridden(relationship, caller, key) && key != first implies text_less(
                first,
                key,
            ) by {
                let j = choose|j: int| 0 <= j < caller.len() && #[trigger] caller[j].0@ == key;
                assert(j != 0);
                assert(text_less(caller[0].0@, caller[j].0@));
            }
        } else {
            assert(keys_sorted(rest)) by {
                assert forall|i: int, j: int| 0 <= i < j < rest.len() implies text_less(
                    #[trigger] rest[i].0@,
                    #[trigger] rest[j].0@,
                ) by {
                    assert(rest[i] == caller[i + 1] && rest[j] == caller[j + 1]);
                }
            }
            lemma_first_overridden_least(relationship, rest);
            assert forall|key: Seq<char>|
                overridden(relationship, caller, key) <==> overridden(relationship, rest, key) by {}
        }
    }
}

/// `converted` holds the arguments of `arguments`, in order, each as an argument.
pub open spec fn arguments_converted(
    arguments: Seq<(String, ComparisonValue)>,
    converted: Seq<(String, Argument)>,
) -> bool {
    &&& converted.len() == arguments.len()
    &&& forall|i: int|
        0 <= i < arguments.len() ==> #[trigger] converted[i].0 == arguments[i].0 && argument_of(
            arguments[i].1,
        ) == Some(converted[i].1)
}

/// The first override, as found by a scan of the caller's arguments in order.
proof fn lemma_first_overridden(
    relationship: Seq<(String, ComparisonValue)>,
    caller: Seq<(String, ComparisonValue)>,
    i: int,
)
    requires
        0 <= i <= caller.len(),
        forall|k: int| 0 <= k < i ==> !names(relationship, #[trigger] caller[k].0@),
    ensures
        first_overridden(relationship, caller) == first_overridden(
            relationship,
            caller.subrange(i, caller.len() as int),
        ),
    decreases i,
{
    if i > 0 {
        let rest = caller.subrange(1, caller.len() as int);
        assert(!names(relationship, caller[0].0@));
        assert forall|k: int| 0 <= k < i - 1 implies !names(relationship, #[trigger] rest[k].0@) by {
            assert(rest[k] == caller[k + 1]);
        }
        lemma_first_overridden(relationship, rest, i - 1);
        assert(rest.subrange(i - 1, rest.len() as int) =~= caller.subrange(i, caller.len() as int));
        assert(first_overridden(relationship, caller) == first_overridden(relationship, rest));
    } else {
        assert(caller.subrange(0, caller.len() as int) =~= caller);
    }
}

/// Convert a relationship argument into an argument. Column arguments are not supported
/// yet.
pub fn relationship_argument_to_argument(argument: ComparisonValue) -> (res: Result<
    Argument,
    Error,
>)
    ensures
        match res {
            Ok(converted) => argument_of(argument) == Some(converted),
            Err(e) => argument is Column && e@ == ErrorView::NotImplementedYet(
                "relationship column arguments"@,
            ),
        },
{
    match argument {
        ComparisonValue::Scalar { value } => Ok(Argument::Literal { value }),
        ComparisonValue::Variable { name } => Ok(Argument::Variable { name }),
        ComparisonValue::Column { .. } => {
            proof { reveal_strlit("relationship column arguments"); }
            Err(Error::NotImplementedYet(String::from_str("relationship column arguments")))
        },
    }
}

/// Convert a list of relationship arguments into arguments, in order.
fn convert_arguments(arguments: Vec<(String, ComparisonValue)>) -> (res: Result<
    Vec<(String, Argument)>,
    Error,
>)
    ensures
        match res {
            Ok(converted) => !has_column_argument(arguments@) && arguments_converted(
                arguments@,
                converted@,
            ),
            Err(e) => has_column_argument(arguments@) && e@ == ErrorView::NotImplementedYet(
                "relationship column arguments"@,
            ),
        },
{
    let ghost initial = arguments@;
    let mut converted: Vec<(String, Argument)> = Vec::new();
    for entry in it: arguments.into_iter()
        invariant
            it.seq() == initial,
            arguments_converted(initial.take(it.index() as int), converted@),
            forall|k: int| 0 <= k < it.index() ==> !(#[trigger] initial[k].1 is Column),
    {
        let ghost index = it.index() as int;
        let (key, argument) = entry;
        match relationship_argument_to_argument(argument) {
            Ok(value) => {
                converted.push((key, value));
            },
            Err(e) => {
                assert(initial[index].1 is Column);
                return Err(e);
            },
        }
        assert(initial.take(index + 1)[index] == initial[index]);
    }
    assert(initial.take(initial.len() as int) =~= initial);
    Ok(converted)
}

/// Combine the caller arguments and the relationship arguments into a single list: those
/// of the relationship's definition, then those of the caller.
///
/// Column arguments are not supported yet. The caller may not override an argument that the
/// relationship defines, since those might be specified as permissions.
pub fn make_relationship_arguments(arguments: MakeRelationshipArguments) -> (res: Result<
    Vec<(String, Argument)>,
    Error,
>)
    requires
        keys_sorted(arguments.relationship_arguments@),
        keys_sorted(arguments.caller_arguments@),
    ensures
        ({
            let relationship = arguments.relationship_arguments@;
            let caller = arguments.caller_arguments@;
            match res {
                Ok(combined) => {
                    &&& !has_column_argument(relationship)
                    &&& !has_column_argument(caller)
                    &&& forall|key: Seq<char>| !#[trigger] overridden(relationship, caller, key)
                    &&& arguments_converted(
                        relationship,
                        combined@.subrange(0, relationship.len() as int),
                    )
                    &&& arguments_converted(
                        caller,
                        combined@.subrange(relationship.len() as int, combined@.len() as int),
                    )
                    &&& keys_distinct(combined@)
                },
                Err(e) => if has_column_argument(relationship) || has_column_argument(caller) {
                    e@ == ErrorView::NotImplementedYet("relationship column arguments"@)
                } else {
                    &&& e@ is RelationshipArgumentWasOverriden
                    &&& overridden(relationship, caller, e@->RelationshipArgumentWasOverriden_0)
                    &&& forall|key: Seq<char>|
                        #[trigger] overridden(relationship, caller, key) && key
                            != e@->RelationshipArgumentWasOverriden_0 ==> text_less(
                            e@->RelationshipArgumentWasOverriden_0,
                            key,
                        )
                },
            }
        }),
{
    let ghost relationship = arguments.relationship_arguments@;
    let ghost caller = arguments.caller_arguments@;
    let MakeRelationshipArguments { relationship_arguments, caller_arguments } = arguments;
    // these are arguments defined in the relationship definition.
    let defined = match convert_arguments(relationship_arguments) {
        Ok(converted) => converted,
        Err(e) => return Err(e),
    };
    // these are arguments defined when calling the relationship.
    let given = match convert_arguments(caller_arguments) {
        Ok(converted) => converted,
        Err(e) => return Err(e),
    };
    let mut combined = defined;
    let defined_len = combined.len();
    let ghost converted_caller = given@;
    for entry in it: given.into_iter()
        invariant
            it.seq() == converted_caller,
            relationship == arguments.relationship_arguments@,
            caller == arguments.caller_arguments@,
            keys_sorted(relationship),
            keys_sorted(caller),
            !has_column_argument(relationship),
            !has_column_argument(caller),
            defined_len == relationship.len(),
            arguments_converted(relationship, combined@.subrange(0, defined_len as int)),
            arguments_converted(caller, converted_caller),
            combined@.len() == defined_len + it.index(),
            forall|k: int|
                0 <= k < it.index() ==> #[trigger] combined@[defined_len + k] == converted_caller[k],
            forall|k: int| 0 <= k < it.index() ==> !names(relationship, #[trigger] caller[k].0@),
    {
        let ghost index = it.index() as int;
        // We do not allow caller arguments to override relationship defined arguments.
        let mut j: usize = 0;
        while j < defined_len
            invariant
                0 <= j <= defined_len,
                relationship == arguments.relationship_arguments@,
                caller == arguments.caller_arguments@,
                keys_sorted(relationship),
                keys_sorted(caller),
                !has_column_argument(relationship),
                !has_column_argument(caller),
                defined_len == relationship.len(),
                combined@.len() == defined_len + index,
                arguments_converted(relationship, combined@.subrange(0, defined_len as int)),
                arguments_converted(caller, converted_caller),
                entry == converted_caller[index],
                0 <= index < caller.len(),
                forall|k: int| 0 <= k < index ==> !names(relationship, #[trigger] caller[k].0@),
                forall|m: int| 0 <= m < j ==> combined@[m].0@ != entry.0@,
            decreases defined_len - j,
        {
            if combined[j].0 == entry.0 {
                proof {
                    assert(combined@.subrange(0, defined_len as int)[j as int] == combined@[j as int]);
                    assert(relationship[j as int].0@ == caller[index].0@);
                    assert(names(relationship, caller[index].0@));
                    lemma_first_overridden(relationship, caller, index);
                    lemma_first_overridden_least(relationship, caller);
                    let rest = caller.subrange(index, caller.len() as int);
                    assert(rest[0] == caller[index]);
                    assert(names(relationship, rest[0].0@));
                    assert(first_overridden(relationship, rest) == Some(rest[0].0@));
                    assert(entry.0@ == caller[index].0@);
                    assert(first_overridden(relationship, caller) == Some(entry.0@));
                }
                return Err(Error::RelationshipArgumentWasOverriden(entry.0));
            }
            j = j + 1;
        }
        proof {
            assert forall|m: int| 0 <= m < relationship.len() implies relationship[m].0@
                != caller[index].0@ by {
                assert(combined@.subrange(0, defined_len as int)[m] == combined@[m]);
            }
        }
        let ghost before = combined@;
        combined.push(entry);
        assert(combined@.subrange(0, defined_len as int) =~= before.subrange(0, defined_len as int));
    }
    proof {
        lemma_first_overridden(relationship, caller, caller.len() as int);
        lemma_first_overridden_least(relationship, caller);
        lemma_sorted_keys_distinct(relationship);
        lemma_sorted_keys_distinct(caller);
        assert(caller.subrange(caller.len() as int, caller.len() as int) =~= Seq::empty());
        let tail = combined@.subrange(defined_len as int, combined@.len() as int);
        assert forall|k: int| 0 <= k < tail.len() implies tail[k] == converted_caller[k] by {
            assert(tail[k] == combined@[defined_len + k]);
        }
        assert(tail =~= converted_caller);
        {
            let head = combined@.subrange(0, defined_len as int);
            assert forall|i: int, j: int| 0 <= i < j < combined@.len() implies combined@[i].0@
                != combined@[j].0@ by {
                if j < defined_len {
                    assert(head[i] == combined@[i] && head[j] == combined@[j]);
                } else if i >= defined_len {
                    assert(tail[i - defined_len] == combined@[i]);
                    assert(tail[j - defined_len] == combined@[j]);
                } else {
                    assert(head[i] == combined@[i]);
                    assert(tail[j - defined_len] == combined@[j]);
                    assert(relationship[i].0@ != caller[j - defined_len].0@);
                }
            }
        }
    }
    Ok(combined)
}

} // verus!
