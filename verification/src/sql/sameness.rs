//! Syntax trees that render alike: the same text from every number of parameters written
//! before them, and the same parameters.
//!
//! Two trees built from the same request may hold different strings with the same text, or
//! different vectors with the same items; these relations compare what the trees render to.
use vstd::prelude::*;

use super::ast::{
    ColumnAlias, Expression, From, Join, OrderByElement, Select, SelectList, Value,
};
use super::convert::{
    expressions_params, expressions_text, joins_params, joins_text, order_elements_params,
    order_elements_text, select_items_params, select_items_text, values_params, values_text,
};

verus! {

/// `a` and `b` render alike, and are both, or both not, the value `true`.
pub open spec fn value_same(a: Value, b: Value) -> bool {
    &&& a.sql_params() == b.sql_params()
    &&& (a == Value::Bool(true)) == (b == Value::Bool(true))
    &&& forall|n: nat| #![trigger a.sql_text(n)] #![trigger b.sql_text(n)] a.sql_text(n) == b.sql_text(n)
}

/// `a` and `b` render alike, and are both, or both not, the literal `true`.
pub open spec fn expr_same(a: Expression, b: Expression) -> bool {
    &&& a.sql_params() == b.sql_params()
    &&& a.is_true_literal() == b.is_true_literal()
    &&& forall|n: nat| #![trigger a.sql_text(n)] #![trigger b.sql_text(n)] a.sql_text(n) == b.sql_text(n)
}

/// `a` and `b` render alike.
pub open spec fn select_same(a: Select, b: Select) -> bool {
    &&& a.sql_params() == b.sql_params()
    &&& forall|n: nat| #![trigger a.sql_text(n)] #![trigger b.sql_text(n)] a.sql_text(n) == b.sql_text(n)
}

/// `a` and `b` render alike.
pub open spec fn join_same(a: Join, b: Join) -> bool {
    &&& a.sql_params() == b.sql_params()
    &&& forall|n: nat| #![trigger a.sql_text(n)] #![trigger b.sql_text(n)] a.sql_text(n) == b.sql_text(n)
}

/// `a` and `b` render alike.
pub open spec fn list_same(a: SelectList, b: SelectList) -> bool {
    &&& a.sql_params() == b.sql_params()
    &&& forall|n: nat| #![trigger a.sql_text(n)] #![trigger b.sql_text(n)] a.sql_text(n) == b.sql_text(n)
}

/// `a` and `b` are both absent, or both present and render alike.
pub open spec fn from_same(a: Option<From>, b: Option<From>) -> bool {
    match a {
        None => b is None,
        Some(x) => b matches Some(y) && x.sql_params() == y.sql_params() && forall|n: nat|
            #![trigger x.sql_text(n)]
            #![trigger y.sql_text(n)]
            x.sql_text(n) == y.sql_text(n),
    }
}

/// `a` and `b` order alike.
pub open spec fn element_same(a: OrderByElement, b: OrderByElement) -> bool {
    expr_same(a.target, b.target) && a.direction == b.direction
}

/// `a` and `b` select alike items under alike names.
pub open spec fn item_same(a: (ColumnAlias, Expression), b: (ColumnAlias, Expression)) -> bool {
    a.0.sql_text() == b.0.sql_text() && expr_same(a.1, b.1)
}

/// The items of `a` and `b` are alike, one by one.
pub open spec fn values_same(a: Seq<Value>, b: Seq<Value>) -> bool {
    a.len() == b.len() && forall|i: int| 0 <= i < a.len() ==> #[trigger] value_same(a[i], b[i])
}

/// The items of `a` and `b` are alike, one by one.
pub open spec fn exprs_same(a: Seq<Expression>, b: Seq<Expression>) -> bool {
    a.len() == b.len() && forall|i: int| 0 <= i < a.len() ==> #[trigger] expr_same(a[i], b[i])
}

/// The items of `a` and `b` are alike, one by one.
pub open spec fn joins_same(a: Seq<Join>, b: Seq<Join>) -> bool {
    a.len() == b.len() && forall|i: int| 0 <= i < a.len() ==> #[trigger] join_same(a[i], b[i])
}

/// The items of `a` and `b` are alike, one by one.
pub open spec fn elements_same(a: Seq<OrderByElement>, b: Seq<OrderByElement>) -> bool {
    a.len() == b.len() && forall|i: int| 0 <= i < a.len() ==> #[trigger] element_same(a[i], b[i])
}

/// The items of `a` and `b` are alike, one by one.
pub open spec fn items_same(a: Seq<(ColumnAlias, Expression)>, b: Seq<(ColumnAlias, Expression)>) -> bool {
    a.len() == b.len() && forall|i: int| 0 <= i < a.len() ==> #[trigger] item_same(a[i], b[i])
}

/// Alike lists of values render alike.
pub proof fn lemma_values_same(a: Seq<Value>, b: Seq<Value>)
    requires
        values_same(a, b),
    ensures
        values_params(a) == values_params(b),
        forall|n: nat| #[trigger] values_text(a, n) == values_text(b, n),
    decreases a.len(),
{
    if a.len() > 0 {
        let (ta, tb) = (a.subrange(1, a.len() as int), b.subrange(1, b.len() as int));
        assert forall|i: int| 0 <= i < ta.len() implies #[trigger] value_same(ta[i], tb[i]) by {
            assert(value_same(a[i + 1], b[i + 1]));
        }
        lemma_values_same(ta, tb);
        assert(value_same(a[0], b[0]));
        assert forall|n: nat| #[trigger] values_text(a, n) == values_text(b, n) by {
            assert(a[0].sql_text(n) == b[0].sql_text(n));
            assert(values_text(ta, n + a[0].sql_params().len()) == values_text(
                tb,
                n + b[0].sql_params().len(),
            ));
        }
    }
}

/// Alike lists of expressions render alike.
pub proof fn lemma_exprs_same(a: Seq<Expression>, b: Seq<Expression>)
    requires
        exprs_same(a, b),
    ensures
        expressions_params(a) == expressions_params(b),
        forall|n: nat| #[trigger] expressions_text(a, n) == expressions_text(b, n),
    decreases a.len(),
{
    if a.len() > 0 {
        let (ta, tb) = (a.subrange(1, a.len() as int), b.subrange(1, b.len() as int));
        assert forall|i: int| 0 <= i < ta.len() implies #[trigger] expr_same(ta[i], tb[i]) by {
            assert(expr_same(a[i + 1], b[i + 1]));
        }
        lemma_exprs_same(ta, tb);
        assert(expr_same(a[0], b[0]));
        assert forall|n: nat| #[trigger] expressions_text(a, n) == expressions_text(b, n) by {
            assert(a[0].sql_text(n) == b[0].sql_text(n));
            assert(expressions_text(ta, n + a[0].sql_params().len()) == expressions_text(
                tb,
                n + b[0].sql_params().len(),
            ));
        }
    }
}

/// Alike lists of joins render alike.
pub proof fn lemma_joins_same(a: Seq<Join>, b: Seq<Join>)
    requires
        joins_same(a, b),
    ensures
        joins_params(a) == joins_params(b),
        forall|n: nat| #[trigger] joins_text(a, n) == joins_text(b, n),
    decreases a.len(),
{
    if a.len() > 0 {
        let (ta, tb) = (a.subrange(1, a.len() as int), b.subrange(1, b.len() as int));
        assert forall|i: int| 0 <= i < ta.len() implies #[trigger] join_same(ta[i], tb[i]) by {
            assert(join_same(a[i + 1], b[i + 1]));
        }
        lemma_joins_same(ta, tb);
        assert(join_same(a[0], b[0]));
        assert forall|n: nat| #[trigger] joins_text(a, n) == joins_text(b, n) by {
            assert(a[0].sql_text(n) == b[0].sql_text(n));
            assert(joins_text(ta, n + a[0].sql_params().len()) == joins_text(
                tb,
                n + b[0].sql_params().len(),
            ));
        }
    }
}

/// Alike lists of order by elements render alike.
pub proof fn lemma_elements_same(a: Seq<OrderByElement>, b: Seq<OrderByElement>)
    requires
        elements_same(a, b),
    ensures
        order_elements_params(a) == order_elements_params(b),
        forall|n: nat| #[trigger] order_elements_text(a, n) == order_elements_text(b, n),
    decreases a.len(),
{
    if a.len() > 0 {
        let (ta, tb) = (a.subrange(1, a.len() as int), b.subrange(1, b.len() as int));
        assert forall|i: int| 0 <= i < ta.len() implies #[trigger] element_same(ta[i], tb[i]) by {
            assert(element_same(a[i + 1], b[i + 1]));
        }
        lemma_elements_same(ta, tb);
        assert(element_same(a[0], b[0]));
        assert(a[0].sql_params() == b[0].sql_params());
        assert forall|n: nat| #[trigger] order_elements_text(a, n) == order_elements_text(b, n) by {
            assert(a[0].target.sql_text(n) == b[0].target.sql_text(n));
            assert(a[0].sql_text(n) == b[0].sql_text(n));
            assert(order_elements_text(ta, n + a[0].sql_params().len()) == order_elements_text(
                tb,
                n + b[0].sql_params().len(),
            ));
        }
    }
}

/// Alike lists of select items render alike.
pub proof fn lemma_items_same(a: Seq<(ColumnAlias, Expression)>, b: Seq<(ColumnAlias, Expression)>)
    requires
        items_same(a, b),
    ensures
        select_items_params(a) == select_items_params(b),
        forall|n: nat| #[trigger] select_items_text(a, n) == select_items_text(b, n),
    decreases a.len(),
{
    if a.len() > 0 {
        let (ta, tb) = (a.subrange(1, a.len() as int), b.subrange(1, b.len() as int));
        assert forall|i: int| 0 <= i < ta.len() implies #[trigger] item_same(ta[i], tb[i]) by {
            assert(item_same(a[i + 1], b[i + 1]));
        }
        lemma_items_same(ta, tb);
        assert(item_same(a[0], b[0]));
        assert forall|n: nat| #[trigger] select_items_text(a, n) == select_items_text(b, n) by {
            assert(a[0].1.sql_text(n) == b[0].1.sql_text(n));
            assert(select_items_text(ta, n + a[0].1.sql_params().len()) == select_items_text(
                tb,
                n + b[0].1.sql_params().len(),
            ));
        }
    }
}

/// Select lists of alike items render alike.
pub proof fn lemma_list_same(a: SelectList, b: SelectList)
    requires
        a matches SelectList::SelectList(x) && b matches SelectList::SelectList(y) && items_same(
            x@,
            y@,
        ),
    ensures
        list_same(a, b),
{
    lemma_items_same(a->SelectList_0@, b->SelectList_0@);
    assert forall|n: nat| #[trigger] a.sql_text(n) == b.sql_text(n) by {
        assert(select_items_text(a->SelectList_0@, n) == select_items_text(b->SelectList_0@, n));
    }
}

/// Selects whose clauses are alike render alike.
pub proof fn lemma_select_same(a: Select, b: Select)
    requires
        list_same(a.select_list, b.select_list),
        from_same(a.from, b.from),
        joins_same(a.joins@, b.joins@),
        expr_same(a.where_.0, b.where_.0),
        elements_same(a.order_by.elements@, b.order_by.elements@),
        a.limit == b.limit,
    ensures
        select_same(a, b),
{
    lemma_joins_same(a.joins@, b.joins@);
    lemma_elements_same(a.order_by.elements@, b.order_by.elements@);
    assert(a.where_.sql_params() == b.where_.sql_params());
    assert forall|n: nat| #[trigger] a.sql_text(n) == b.sql_text(n) by {
        let m = n + a.select_list.sql_params().len();
        assert(a.select_list.sql_text(n) == b.select_list.sql_text(n));
        match a.from {
            Some(x) => {
                let y = b.from->Some_0;
                assert(x.sql_text(m) == y.sql_text(m));
            },
            None => {},
        }
        let p_from = match a.from {
            Some(from) => from.sql_params(),
            None => Seq::empty(),
        };
        let k = m + p_from.len();
        assert(joins_text(a.joins@, k) == joins_text(b.joins@, k));
        let w = k + joins_params(a.joins@).len();
        assert(a.where_.0.sql_text(w) == b.where_.0.sql_text(w));
        assert(a.where_.sql_text(w) == b.where_.sql_text(w));
        let o = w + a.where_.sql_params().len();
        assert(order_elements_text(a.order_by.elements@, o) == order_elements_text(
            b.order_by.elements@,
            o,
        ));
        assert(a.order_by.sql_text(o) == b.order_by.sql_text(o));
    }
}

/// `FROM (<select>) AS <alias>` clauses over alike selects and aliases with the same text
/// render alike.
pub proof fn lemma_from_select_same(a: From, b: From)
    requires
        a matches From::Select { select: x, alias: p } && b matches From::Select {
            select: y,
            alias: q,
        } && select_same(*x, *y) && p.sql_text() == q.sql_text(),
    ensures
        from_same(Some(a), Some(b)),
{
    assert forall|n: nat| #[trigger] a.sql_text(n) == b.sql_text(n) by {
        assert(a->Select_select.sql_text(n) == b->Select_select.sql_text(n));
    }
}

/// Joins of the same kind over alike selects and aliases with the same text render alike.
pub proof fn lemma_join_same(a: Join, b: Join)
    requires
        match a {
            Join::LeftOuterJoinLateral(x) => b matches Join::LeftOuterJoinLateral(y) && select_same(
                *x.select,
                *y.select,
            ) && x.alias.sql_text() == y.alias.sql_text(),
            Join::InnerJoinLateral(x) => b matches Join::InnerJoinLateral(y) && select_same(
                *x.select,
                *y.select,
            ) && x.alias.sql_text() == y.alias.sql_text(),
            Join::CrossJoin(x) => b matches Join::CrossJoin(y) && select_same(*x.select, *y.select)
                && x.alias.sql_text() == y.alias.sql_text(),
        },
    ensures
        join_same(a, b),
{
    assert forall|n: nat| #[trigger] a.sql_text(n) == b.sql_text(n) by {
        match a {
            Join::LeftOuterJoinLateral(x) => {
                assert(x.select.sql_text(n) == b->LeftOuterJoinLateral_0.select.sql_text(n));
            },
            Join::InnerJoinLateral(x) => {
                assert(x.select.sql_text(n) == b->InnerJoinLateral_0.select.sql_text(n));
            },
            Join::CrossJoin(x) => {
                assert(x.select.sql_text(n) == b->CrossJoin_0.select.sql_text(n));
            },
        }
    }
}

/// Expressions of the same kind whose parts are alike are alike.
pub open spec fn expr_parts_same(a: Expression, b: Expression) -> bool {
    match a {
        Expression::And { left: l, right: r } => b matches Expression::And { left: l2, right: r2 }
            && expr_same(*l, *l2) && expr_same(*r, *r2),
        Expression::Or { left: l, right: r } => b matches Expression::Or { left: l2, right: r2 }
            && expr_same(*l, *l2) && expr_same(*r, *r2),
        Expression::Not(x) => b matches Expression::Not(y) && expr_same(*x, *y),
        Expression::BinaryOperator { left: l, operator: o, right: r } => b matches Expression::BinaryOperator {
            left: l2,
            operator: o2,
            right: r2,
        } && o == o2 && expr_same(*l, *l2) && expr_same(*r, *r2),
        Expression::BinaryArrayOperator { left: l, operator: o, right: r } => b matches Expression::BinaryArrayOperator {
            left: l2,
            operator: o2,
            right: r2,
        } && o == o2 && expr_same(*l, *l2) && exprs_same(r@, r2@),
        Expression::UnaryOperator { column: c, operator: o } => b matches Expression::UnaryOperator {
            column: c2,
            operator: o2,
        } && o == o2 && expr_same(*c, *c2),
        Expression::FunctionCall { function: f, args } => b matches Expression::FunctionCall {
            function: f2,
            args: args2,
        } && f.sql_text() == f2.sql_text() && exprs_same(args@, args2@),
        Expression::Exists { select } => b matches Expression::Exists { select: s2 } && select_same(
            *select,
            *s2,
        ),
        Expression::ColumnName(c) => b matches Expression::ColumnName(c2) && c.sql_text()
            == c2.sql_text(),
        Expression::Value(v) => b matches Expression::Value(v2) && value_same(v, v2),
        Expression::RowToJson(t) => b matches Expression::RowToJson(t2) && t.sql_text()
            == t2.sql_text(),
        Expression::Count(c) => b matches Expression::Count(c2) && c.sql_text() == c2.sql_text(),
        _ => a == b,
    }
}

/// Expressions of the same kind whose parts are alike render alike.
pub proof fn lemma_expr_same(a: Expression, b: Expression)
    requires
        expr_parts_same(a, b),
    ensures
        expr_same(a, b),
{
    match a {
        Expression::BinaryArrayOperator { right, .. } => {
            lemma_exprs_same(right@, b->BinaryArrayOperator_right@);
        },
        Expression::FunctionCall { args, .. } => {
            lemma_exprs_same(args@, b->FunctionCall_args@);
        },
        _ => {},
    }
    assert forall|n: nat| #[trigger] a.sql_text(n) == b.sql_text(n) by {
        match a {
            Expression::And { left, right } => {
                assert(left.sql_text(n) == b->And_left.sql_text(n));
                let m = n + left.sql_params().len();
                assert(right.sql_text(m) == b->And_right.sql_text(m));
            },
            Expression::Or { left, right } => {
                assert(left.sql_text(n) == b->Or_left.sql_text(n));
                let m = n + left.sql_params().len();
                assert(right.sql_text(m) == b->Or_right.sql_text(m));
            },
            Expression::Not(x) => {
                assert(x.sql_text(n) == b->Not_0.sql_text(n));
            },
            Expression::BinaryOperator { left, right, .. } => {
                assert(left.sql_text(n) == b->BinaryOperator_left.sql_text(n));
                let m = n + left.sql_params().len();
                assert(right.sql_text(m) == b->BinaryOperator_right.sql_text(m));
            },
            Expression::BinaryArrayOperator { left, right, .. } => {
                assert(left.sql_text(n) == b->BinaryArrayOperator_left.sql_text(n));
                let m = n + left.sql_params().len();
                assert(expressions_text(right@, m) == expressions_text(
                    b->BinaryArrayOperator_right@,
                    m,
                ));
            },
            Expression::UnaryOperator { column, .. } => {
                assert(column.sql_text(n) == b->UnaryOperator_column.sql_text(n));
            },
            Expression::FunctionCall { args, .. } => {
                assert(expressions_text(args@, n) == expressions_text(b->FunctionCall_args@, n));
            },
            Expression::Exists { select } => {
                assert(select.sql_text(n) == b->Exists_select.sql_text(n));
            },
            Expression::Value(v) => {
                assert(v.sql_text(n) == b->Value_0.sql_text(n));
            },
            _ => {},
        }
    }
}

} // verus!
