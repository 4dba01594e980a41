//! How the positional parameters of a rendered query are numbered: the text of an expression
//! rendered after `n` parameters holds the placeholders `$(n + 1)`, `$(n + 2)`, ... of its
//! own parameters, and rendering into a query keeps what was written before.
use vstd::prelude::*;

use super::ast::{
    ColumnAlias, Expression, From, Join, OrderBy, OrderByElement, Select, SelectList, Value,
    Where,
};
use super::convert::{
    appended, expressions_params, expressions_text, joined_text, joins_params, joins_text,
    json_items_params,
    json_items_text, order_elements_params, order_elements_text, select_items_params,
    select_items_text, values_params, values_text,
};
use super::string::{param_text, SQL};

verus! {

/// `text` holds the placeholder `$m`.
pub open spec fn has_placeholder(text: Seq<char>, m: nat) -> bool {
    exists|p: int|
        0 <= p && p + param_text(m).len() <= text.len() && #[trigger] text.subrange(
            p,
            p + param_text(m).len(),
        ) == param_text(m)
}

/// `text` holds the placeholders `$(n + 1)` up to `$(n + count)`.
pub open spec fn numbered(text: Seq<char>, n: nat, count: nat) -> bool {
    forall|m: nat| n < m <= n + count ==> #[trigger] has_placeholder(text, m)
}

proof fn lemma_placeholder_within(x: Seq<char>, t: Seq<char>, y: Seq<char>, m: nat)
    requires
        has_placeholder(t, m),
    ensures
        has_placeholder(x + t + y, m),
{
    let l = param_text(m).len() as int;
    let p = choose|p: int| 0 <= p && p + l <= t.len() && #[trigger] t.subrange(p, p + l) == param_text(m);
    let whole = x + t + y;
    assert(whole.subrange(p + x.len(), p + x.len() + l) =~= t.subrange(p, p + l));
}

proof fn lemma_wrap(x: Seq<char>, t: Seq<char>, y: Seq<char>, n: nat, c: nat)
    requires
        numbered(t, n, c),
    ensures
        numbered(x + t + y, n, c),
{
    assert forall|m: nat| n < m <= n + c implies #[trigger] has_placeholder(x + t + y, m) by {
        assert(has_placeholder(t, m));
        lemma_placeholder_within(x, t, y, m);
    }
}

proof fn lemma_left(x: Seq<char>, t: Seq<char>, n: nat, c: nat)
    requires
        numbered(t, n, c),
    ensures
        numbered(x + t, n, c),
{
    lemma_wrap(x, t, Seq::empty(), n, c);
    assert(x + t + Seq::empty() =~= x + t);
}

proof fn lemma_right(t: Seq<char>, y: Seq<char>, n: nat, c: nat)
    requires
        numbered(t, n, c),
    ensures
        numbered(t + y, n, c),
{
    lemma_wrap(Seq::empty(), t, y, n, c);
    assert(Seq::empty() + t + y =~= t + y);
}

proof fn lemma_concat(a: Seq<char>, b: Seq<char>, n: nat, ca: nat, cb: nat)
    requires
        numbered(a, n, ca),
        numbered(b, n + ca, cb),
    ensures
        numbered(a + b, n, ca + cb),
{
    assert forall|m: nat| n < m <= n + (ca + cb) implies #[trigger] has_placeholder(a + b, m) by {
        if m <= n + ca {
            assert(has_placeholder(a, m));
            lemma_placeholder_within(Seq::empty(), a, b, m);
            assert(Seq::empty() + a + b =~= a + b);
        } else {
            assert(has_placeholder(b, m));
            lemma_placeholder_within(a, b, Seq::empty(), m);
            assert(a + b + Seq::empty() =~= a + b);
        }
    }
}

/// The placeholders of a value.
pub proof fn lemma_value_numbered(value: Value, n: nat)
    ensures
        numbered(value.sql_text(n), n, value.sql_params().len()),
    decreases value,
{
    match value {
        Value::String(_) | Value::Variable(_) => {
            let m: nat = n + 1;
            let t = param_text(m);
            let p: int = 0;
            assert(t.subrange(p, p + param_text(m).len()) =~= param_text(m));
            assert(has_placeholder(t, m));
        },
        Value::Cast { cast_type, .. } => {
            let m: nat = n + 1;
            let t = param_text(m);
            let p: int = 0;
            assert(t.subrange(p, p + param_text(m).len()) =~= param_text(m));
            assert(has_placeholder(t, m));
            lemma_wrap("cast("@, t, " as "@ + cast_type.sql_text() + ")"@, n, 1);
            assert(value.sql_text(n) =~= "cast("@ + t + (" as "@ + cast_type.sql_text() + ")"@));
        },
        Value::Array(items) => {
            lemma_values_numbered(items@, n);
            lemma_wrap("ARRAY ["@, values_text(items@, n), "]"@, n, values_params(items@).len());
        },
        _ => {},
    }
}

proof fn lemma_values_numbered(s: Seq<Value>, n: nat)
    ensures
        numbered(values_text(s, n), n, values_params(s).len()),
    decreases s,
{
    if s.len() > 0 {
        let rest = s.subrange(1, s.len() as int);
        let c0 = s[0].sql_params().len();
        lemma_value_numbered(s[0], n);
        lemma_values_numbered(rest, n + c0);
        let more = s.len() > 1;
        lemma_right(s[0].sql_text(n), super::convert::separator(more), n, c0);
        lemma_concat(
            s[0].sql_text(n) + super::convert::separator(more),
            values_text(rest, n + c0),
            n,
            c0,
            values_params(rest).len(),
        );
    }
}

/// The placeholders of an expression: rendered after `n` parameters, its text holds
/// `$(n + 1)` up to `$(n + k)`, for its `k` parameters.
pub proof fn lemma_expression_numbered(e: Expression, n: nat)
    ensures
        numbered(e.sql_text(n), n, e.sql_params().len()),
    decreases e,
{
    match e {
        Expression::And { left, right } => {
            let cl = left.sql_params().len();
            lemma_expression_numbered(*left, n);
            lemma_expression_numbered(*right, n + cl);
            lemma_pair(left.sql_text(n), " AND "@, right.sql_text(n + cl), n, cl, right.sql_params().len());
        },
        Expression::Or { left, right } => {
            let cl = left.sql_params().len();
            lemma_expression_numbered(*left, n);
            lemma_expression_numbered(*right, n + cl);
            lemma_pair(left.sql_text(n), " OR "@, right.sql_text(n + cl), n, cl, right.sql_params().len());
        },
        Expression::BinaryOperator { left, operator, right } => {
            let cl = left.sql_params().len();
            lemma_expression_numbered(*left, n);
            lemma_expression_numbered(*right, n + cl);
            lemma_pair(left.sql_text(n), operator.sql_text(), right.sql_text(n + cl), n, cl, right.sql_params().len());
        },
        Expression::Not(inner) => {
            lemma_expression_numbered(*inner, n);
            lemma_left("NOT "@, inner.sql_text(n), n, inner.sql_params().len());
        },
        Expression::BinaryArrayOperator { left, operator, right } => {
            let cl = left.sql_params().len();
            lemma_expression_numbered(*left, n);
            lemma_expressions_numbered(right@, n + cl);
            let a = "("@ + left.sql_text(n) + (operator.sql_text() + "("@);
            lemma_wrap("("@, left.sql_text(n), operator.sql_text() + "("@, n, cl);
            lemma_concat(a, expressions_text(right@, n + cl), n, cl, expressions_params(right@).len());
            lemma_right(a + expressions_text(right@, n + cl), ")"@ + ")"@, n, e.sql_params().len());
            assert(e.sql_text(n) =~= a + expressions_text(right@, n + cl) + (")"@ + ")"@));
        },
        Expression::UnaryOperator { column, operator } => {
            lemma_expression_numbered(*column, n);
            lemma_wrap("("@, column.sql_text(n), operator.sql_text() + ")"@, n, e.sql_params().len());
            assert(e.sql_text(n) =~= "("@ + column.sql_text(n) + (operator.sql_text() + ")"@));
        },
        Expression::FunctionCall { function, args } => {
            lemma_expressions_numbered(args@, n);
            lemma_wrap(function.sql_text() + "("@, expressions_text(args@, n), ")"@, n, e.sql_params().len());
        },
        Expression::Exists { select } => {
            lemma_select_numbered(*select, n);
            lemma_wrap("EXISTS ("@, select.sql_text(n), ")"@, n, e.sql_params().len());
        },
        Expression::JsonBuildObject(items) => {
            lemma_json_items_numbered(items@, n);
            lemma_wrap("json_build_object"@ + "("@, json_items_text(items@, n), ")"@, n, e.sql_params().len());
        },
        Expression::Value(value) => {
            lemma_value_numbered(value, n);
        },
        Expression::ArrayConstructor(items) => {
            lemma_expressions_numbered(items@, n);
            lemma_wrap("["@, expressions_text(items@, n), "]"@, n, e.sql_params().len());
        },
        Expression::JoinExpressions(items) => {
            lemma_joined_numbered(items@, n);
        },
        _ => {},
    }
}

/// `(<left><middle><right>)`
proof fn lemma_pair(left: Seq<char>, middle: Seq<char>, right: Seq<char>, n: nat, cl: nat, cr: nat)
    requires
        numbered(left, n, cl),
        numbered(right, n + cl, cr),
    ensures
        numbered("("@ + left + middle + right + ")"@, n, cl + cr),
{
    let a = "("@ + left + middle;
    lemma_wrap("("@, left, middle, n, cl);
    lemma_concat(a, right, n, cl, cr);
    lemma_right(a + right, ")"@, n, cl + cr);
}

proof fn lemma_expressions_numbered(s: Seq<Expression>, n: nat)
    ensures
        numbered(expressions_text(s, n), n, expressions_params(s).len()),
    decreases s,
{
    if s.len() > 0 {
        let rest = s.subrange(1, s.len() as int);
        let c0 = s[0].sql_params().len();
        lemma_expression_numbered(s[0], n);
        lemma_expressions_numbered(rest, n + c0);
        let more = s.len() > 1;
        lemma_right(s[0].sql_text(n), super::convert::separator(more), n, c0);
        lemma_concat(
            s[0].sql_text(n) + super::convert::separator(more),
            expressions_text(rest, n + c0),
            n,
            c0,
            expressions_params(rest).len(),
        );
    }
}

proof fn lemma_joined_numbered(s: Seq<Expression>, n: nat)
    ensures
        numbered(joined_text(s, n), n, expressions_params(s).len()),
    decreases s,
{
    if s.len() > 0 {
        let rest = s.subrange(1, s.len() as int);
        let c0 = s[0].sql_params().len();
        lemma_expression_numbered(s[0], n);
        lemma_joined_numbered(rest, n + c0);
        lemma_concat(s[0].sql_text(n), joined_text(rest, n + c0), n, c0, expressions_params(rest).len());
    }
}

proof fn lemma_json_items_numbered(s: Seq<(String, Box<Expression>)>, n: nat)
    ensures
        numbered(json_items_text(s, n), n, json_items_params(s).len()),
    decreases s,
{
    if s.len() > 0 {
        let rest = s.subrange(1, s.len() as int);
        let c0 = s[0].1.sql_params().len();
        lemma_expression_numbered(*s[0].1, n);
        lemma_json_items_numbered(rest, n + c0);
        let more = s.len() > 1;
        let head = "'"@ + s[0].0@ + "'"@ + ", "@;
        lemma_wrap(head, s[0].1.sql_text(n), super::convert::separator(more), n, c0);
        lemma_concat(
            head + s[0].1.sql_text(n) + super::convert::separator(more),
            json_items_text(rest, n + c0),
            n,
            c0,
            json_items_params(rest).len(),
        );
    }
}

proof fn lemma_select_items_numbered(s: Seq<(ColumnAlias, Expression)>, n: nat)
    ensures
        numbered(select_items_text(s, n), n, select_items_params(s).len()),
    decreases s,
{
    if s.len() > 0 {
        let rest = s.subrange(1, s.len() as int);
        let c0 = s[0].1.sql_params().len();
        lemma_expression_numbered(s[0].1, n);
        lemma_select_items_numbered(rest, n + c0);
        let more = s.len() > 1;
        let tail = " AS "@ + s[0].0.sql_text() + super::convert::separator(more);
        lemma_right(s[0].1.sql_text(n), tail, n, c0);
        assert(s[0].1.sql_text(n) + " AS "@ + s[0].0.sql_text() + super::convert::separator(more)
            =~= s[0].1.sql_text(n) + tail);
        lemma_concat(
            s[0].1.sql_text(n) + tail,
            select_items_text(rest, n + c0),
            n,
            c0,
            select_items_params(rest).len(),
        );
        assert(select_items_text(s, n) =~= s[0].1.sql_text(n) + tail + select_items_text(rest, n + c0));
    }
}

proof fn lemma_select_list_numbered(list: SelectList, n: nat)
    ensures
        numbered(list.sql_text(n), n, list.sql_params().len()),
    decreases list,
{
    match list {
        SelectList::SelectList(items) => lemma_select_items_numbered(items@, n),
        SelectList::SelectStarComposite(expr) => {
            lemma_expression_numbered(expr, n);
            lemma_wrap("("@, expr.sql_text(n), ").*"@, n, expr.sql_params().len());
        },
        _ => {},
    }
}

proof fn lemma_from_numbered(from: From, n: nat)
    ensures
        numbered(from.sql_text(n), n, from.sql_params().len()),
    decreases from,
{
    match from {
        From::Select { select, alias } => {
            lemma_select_numbered(*select, n);
            let c = select.sql_params().len();
            lemma_wrap("FROM "@ + "("@, select.sql_text(n), ")"@ + " AS "@ + alias.sql_text(), n, c);
            assert(from.sql_text(n) =~= "FROM "@ + "("@ + select.sql_text(n) + (")"@ + " AS "@
                + alias.sql_text()));
        },
        From::JsonbToRecordset { expression, alias, columns } => {
            lemma_expression_numbered(expression, n);
            let c = expression.sql_params().len();
            let tail = ")"@ + " AS "@ + alias.sql_text() + "("@
                + super::convert::typed_columns_text(columns@) + ")"@;
            lemma_wrap("FROM "@ + "jsonb_to_recordset("@, expression.sql_text(n), tail, n, c);
            assert(from.sql_text(n) =~= "FROM "@ + "jsonb_to_recordset("@ + expression.sql_text(n)
                + tail);
        },
        _ => {},
    }
}

proof fn lemma_join_numbered(join: Join, n: nat)
    ensures
        numbered(join.sql_text(n), n, join.sql_params().len()),
    decreases join,
{
    match join {
        Join::LeftOuterJoinLateral(j) => {
            lemma_select_numbered(*j.select, n);
            let tail = ")"@ + " AS "@ + j.alias.sql_text() + " ON ('true') "@;
            lemma_wrap(" LEFT OUTER JOIN LATERAL "@ + "("@, j.select.sql_text(n), tail, n, j.select.sql_params().len());
            assert(join.sql_text(n) =~= " LEFT OUTER JOIN LATERAL "@ + "("@ + j.select.sql_text(n)
                + tail);
        },
        Join::InnerJoinLateral(j) => {
            lemma_select_numbered(*j.select, n);
            let tail = ")"@ + " AS "@ + j.alias.sql_text() + " ON ('true') "@;
            lemma_wrap(" INNER JOIN LATERAL "@ + "("@, j.select.sql_text(n), tail, n, j.select.sql_params().len());
            assert(join.sql_text(n) =~= " INNER JOIN LATERAL "@ + "("@ + j.select.sql_text(n)
                + tail);
        },
        Join::CrossJoin(j) => {
            lemma_select_numbered(*j.select, n);
            let tail = ")"@ + " AS "@ + j.alias.sql_text();
            lemma_wrap(" CROSS JOIN "@ + "("@, j.select.sql_text(n), tail, n, j.select.sql_params().len());
            assert(join.sql_text(n) =~= " CROSS JOIN "@ + "("@ + j.select.sql_text(n) + tail);
        },
    }
}

proof fn lemma_joins_numbered(s: Seq<Join>, n: nat)
    ensures
        numbered(joins_text(s, n), n, joins_params(s).len()),
    decreases s,
{
    if s.len() > 0 {
        let rest = s.subrange(1, s.len() as int);
        let c0 = s[0].sql_params().len();
        lemma_join_numbered(s[0], n);
        lemma_joins_numbered(rest, n + c0);
        lemma_concat(s[0].sql_text(n), joins_text(rest, n + c0), n, c0, joins_params(rest).len());
    }
}

proof fn lemma_where_numbered(w: Where, n: nat)
    ensures
        numbered(w.sql_text(n), n, w.sql_params().len()),
    decreases w,
{
    if !w.0.is_true_literal() {
        lemma_expression_numbered(w.0, n);
        lemma_left(" WHERE "@, w.0.sql_text(n), n, w.0.sql_params().len());
    }
}

proof fn lemma_order_elements_numbered(s: Seq<OrderByElement>, n: nat)
    ensures
        numbered(order_elements_text(s, n), n, order_elements_params(s).len()),
    decreases s,
{
    if s.len() > 0 {
        let rest = s.subrange(1, s.len() as int);
        let c0 = s[0].sql_params().len();
        lemma_expression_numbered(s[0].target, n);
        lemma_order_elements_numbered(rest, n + c0);
        let more = s.len() > 1;
        let tail = s[0].direction.sql_text() + super::convert::separator(more);
        lemma_right(s[0].target.sql_text(n), tail, n, c0);
        lemma_concat(
            s[0].target.sql_text(n) + tail,
            order_elements_text(rest, n + c0),
            n,
            c0,
            order_elements_params(rest).len(),
        );
        assert(s[0].sql_text(n) == s[0].target.sql_text(n) + s[0].direction.sql_text());
        assert(order_elements_text(s, n) =~= s[0].target.sql_text(n) + tail
            + order_elements_text(rest, n + c0));
    }
}

proof fn lemma_order_by_numbered(o: OrderBy, n: nat)
    ensures
        numbered(o.sql_text(n), n, o.sql_params().len()),
    decreases o,
{
    if o.elements.len() > 0 {
        lemma_order_elements_numbered(o.elements@, n);
        lemma_left(" ORDER BY "@, order_elements_text(o.elements@, n), n, o.sql_params().len());
    }
}

/// The placeholders of a select, as those of an expression.
pub proof fn lemma_select_numbered(select: Select, n: nat)
    ensures
        numbered(select.sql_text(n), n, select.sql_params().len()),
    decreases select,
{
    let pl = select.select_list.sql_params().len();
    let pf = match select.from {
        Some(from) => from.sql_params().len(),
        None => 0,
    };
    let pj = joins_params(select.joins@).len();
    let pw = select.where_.sql_params().len();
    let po = select.order_by.sql_params().len();
    lemma_select_list_numbered(select.select_list, n);
    let from_text = match select.from {
        Some(from) => from.sql_text(n + pl),
        None => Seq::empty(),
    };
    match select.from {
        Some(from) => lemma_from_numbered(from, n + pl),
        None => {},
    }
    lemma_joins_numbered(select.joins@, n + pl + pf);
    lemma_where_numbered(select.where_, n + pl + pf + pj);
    lemma_order_by_numbered(select.order_by, n + pl + pf + pj + pw);
    let a = "SELECT "@ + select.select_list.sql_text(n) + " "@;
    lemma_wrap("SELECT "@, select.select_list.sql_text(n), " "@, n, pl);
    lemma_concat(a, from_text, n, pl, pf);
    let b = a + from_text;
    lemma_concat(b, joins_text(select.joins@, n + pl + pf), n, pl + pf, pj);
    let c = b + joins_text(select.joins@, n + pl + pf);
    lemma_concat(c, select.where_.sql_text(n + pl + pf + pj), n, pl + pf + pj, pw);
    let d = c + select.where_.sql_text(n + pl + pf + pj);
    lemma_concat(d, select.order_by.sql_text(n + pl + pf + pj + pw), n, pl + pf + pj + pw, po);
    let e = d + select.order_by.sql_text(n + pl + pf + pj + pw);
    lemma_right(e, select.limit.sql_text(), n, pl + pf + pj + pw + po);
    assert(select.sql_text(n) =~= e + select.limit.sql_text());
}

/// Rendering an expression into a query keeps what was written before, adds the
/// expression's parameters after those already there, in the order in which they stand in
/// the expression, moves the parameter count on by as many, and numbers the `k`-th new
/// parameter `$(<count before> + k)` in the new text (`numbered`).
pub proof fn expression_rendering_numbers_parameters(e: Expression, before: SQL, after: SQL)
    requires
        appended(before, after, e.sql_text(before.param_index as nat), e.sql_params()),
    ensures
        after.sql@.subrange(0, before.sql@.len() as int) == before.sql@,
        after.params@.subrange(0, before.params@.len() as int) == before.params@,
        after.params@.subrange(before.params@.len() as int, after.params@.len() as int)
            == e.sql_params(),
        after.param_index == before.param_index + (after.params@.len() - before.params@.len()),
        numbered(
            after.sql@.subrange(before.sql@.len() as int, after.sql@.len() as int),
            before.param_index as nat,
            e.sql_params().len(),
        ),
{
    let n = before.param_index as nat;
    let text = e.sql_text(n);
    assert(after.sql@.subrange(0, before.sql@.len() as int) =~= before.sql@);
    assert(after.params@.subrange(0, before.params@.len() as int) =~= before.params@);
    assert(after.params@.subrange(before.params@.len() as int, after.params@.len() as int)
        =~= e.sql_params());
    assert(after.sql@.subrange(before.sql@.len() as int, after.sql@.len() as int) =~= text);
    lemma_expression_numbered(e, n);
}

} // verus!
