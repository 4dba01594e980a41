//! Execution of a plan: the errors of query planning, the parameters handed to the
//! database, and the response.
use vstd::prelude::*;

use crate::metadata::{find_entry, lookup};
use crate::sql::execution_plan::ExecutionPlan;
use crate::sql::string::{nat_text, u64_to_text, Param};
use crate::types::input::JsonValue;
use crate::types::output::{QueryResponse, RowFieldValue, RowSet};

verus! {

/// The text that `{:?}` formats a string as: the string quoted, with its special characters
/// escaped.
pub uninterp spec fn debug_text(s: Seq<char>) -> Seq<char>;

/// Format a string with `{:?}`.
#[verifier::external_body]
fn debug_quoted(s: &str) -> (text: String)
    ensures
        text@ == debug_text(s@),
{
    format!("{:?}", s)
}

/// Query planning error.
#[derive(Debug)]
pub enum QueryError {
    VariableNotFound(String),
    NotSupported(String),
}

impl QueryError {
    /// The message that describes the error.
    pub open spec fn message_text(&self) -> Seq<char> {
        match self {
            QueryError::VariableNotFound(name) => "Variable "@ + debug_text(name@)
                + " not found."@,
            QueryError::NotSupported(thing) => thing@ + " are not supported."@,
        }
    }

    /// The message that describes the error.
    pub fn message(&self) -> (message: String)
        ensures
            message@ == self.message_text(),
    {
        match self {
            QueryError::VariableNotFound(name) => {
                proof {
                    reveal_strlit("Variable ");
                    reveal_strlit(" not found.");
                }
                let s = String::from_str("Variable ");
                let s = s.concat(debug_quoted(name.as_str()).as_str());
                s.concat(" not found.")
            },
            QueryError::NotSupported(thing) => {
                proof { reveal_strlit(" are not supported."); }
                let s = String::from_str(thing.as_str());
                s.concat(" are not supported.")
            },
        }
    }
}

/// The name of the `i`-th query parameter, counting from one: `param<i>`.
pub open spec fn parameter_name(i: nat) -> Seq<char> {
    "param"@ + nat_text(i)
}

/// The query parameters of a query whose parameters are all strings: each parameter's name
/// (`param1`, `param2`, ...), its type `STRING`, and its value.
pub fn query_parameters(params: &Vec<Param>) -> (parameters: Vec<(String, String, String)>)
    requires
        params@.len() < u64::MAX,
        forall|i: int| 0 <= i < params@.len() ==> #[trigger] params@[i] is String,
    ensures
        parameters@.len() == params@.len(),
        forall|i: int|
            0 <= i < params@.len() ==> {
                &&& (#[trigger] parameters@[i]).0@ == parameter_name((i + 1) as nat)
                &&& parameters@[i].1@ == "STRING"@
                &&& parameters@[i].2 == params@[i]->String_0
            },
{
    let mut parameters: Vec<(String, String, String)> = Vec::new();
    let mut index: usize = 0;
    proof {
        reveal_strlit("param");
        reveal_strlit("STRING");
    }
    while index < params.len()
        invariant
            0 <= index <= params@.len(),
            params@.len() < u64::MAX,
            forall|i: int| 0 <= i < params@.len() ==> #[trigger] params@[i] is String,
            parameters@.len() == index,
            forall|i: int|
                0 <= i < index ==> {
                    &&& (#[trigger] parameters@[i]).0@ == parameter_name((i + 1) as nat)
                    &&& parameters@[i].1@ == "STRING"@
                    &&& parameters@[i].2 == params@[i]->String_0
                },
        decreases params@.len() - index,
    {
        let value = match &params[index] {
            Param::String(s) => s.clone(),
            Param::Variable(_) => {
                assert(params@[index as int] is String);
                String::new()
            },
        };
        let name = String::from_str("param").concat(u64_to_text(index as u64 + 1).as_str());
        parameters.push((name, String::from_str("STRING"), value));
        index = index + 1;
    }
    parameters
}

/// The mathematical value of a [`QueryError`].
pub ghost enum QueryErrorView {
    VariableNotFound(Seq<char>),
    NotSupported(Seq<char>),
}

impl View for QueryError {
    type V = QueryErrorView;

    open spec fn view(&self) -> QueryErrorView {
        match self {
            QueryError::VariableNotFound(name) => QueryErrorView::VariableNotFound(name@),
            QueryError::NotSupported(thing) => QueryErrorView::NotSupported(thing@),
        }
    }
}

/// A value bound to a parameter of a query.
#[derive(Debug, PartialEq)]
pub enum BoundValue {
    String(String),
    Number(Option<i64>),
    Bool(bool),
}

/// The value bound to a parameter: a string parameter binds its string, and a variable
/// binds the value of the variable of that name, which must be a string, a number or a
/// boolean.
pub open spec fn binding(param: Param, variables: Seq<(String, JsonValue)>) -> Result<
    BoundValue,
    QueryErrorView,
> {
    match param {
        Param::String(s) => Ok(BoundValue::String(s)),
        Param::Variable(name) => match lookup(variables, name@) {
            None => Err(QueryErrorView::VariableNotFound(name@)),
            Some(JsonValue::String(s)) => Ok(BoundValue::String(s)),
            Some(JsonValue::Number(n)) => Ok(BoundValue::Number(n)),
            Some(JsonValue::Bool(b)) => Ok(BoundValue::Bool(b)),
            Some(JsonValue::Null) => Err(QueryErrorView::NotSupported("Null variables"@)),
            Some(JsonValue::Array(_)) => Err(QueryErrorView::NotSupported("Array variables"@)),
            Some(JsonValue::Object(_)) => Err(QueryErrorView::NotSupported("Object variables"@)),
        },
    }
}

/// A variable binds its own value: a string, a number or a boolean variable binds exactly
/// the value that the variables give it, a string variable as a string parameter with that
/// string would, and a missing variable is not found.
pub proof fn variables_bind_their_values(name: String, variables: Seq<(String, JsonValue)>)
    ensures
        lookup(variables, name@) matches Some(JsonValue::Bool(b)) ==> binding(
            Param::Variable(name),
            variables,
        ) == Ok::<BoundValue, QueryErrorView>(BoundValue::Bool(b)),
        lookup(variables, name@) matches Some(JsonValue::Number(n)) ==> binding(
            Param::Variable(name),
            variables,
        ) == Ok::<BoundValue, QueryErrorView>(BoundValue::Number(n)),
        lookup(variables, name@) matches Some(JsonValue::String(s)) ==> binding(
            Param::Variable(name),
            variables,
        ) == binding(Param::String(s), variables) && binding(Param::String(s), variables)
            == Ok::<BoundValue, QueryErrorView>(BoundValue::String(s)),
        lookup(variables, name@) is None ==> binding(Param::Variable(name), variables)
            == Err::<BoundValue, QueryErrorView>(QueryErrorView::VariableNotFound(name@)),
{
}

/// The value bound to one parameter.
fn bind_parameter(param: &Param, variables: &Vec<(String, JsonValue)>) -> (res: Result<
    BoundValue,
    QueryError,
>)
    ensures
        match res {
            Ok(value) => binding(*param, variables@) == Ok::<BoundValue, QueryErrorView>(value),
            Err(e) => binding(*param, variables@) == Err::<BoundValue, QueryErrorView>(e@),
        },
{
    match param {
        Param::String(s) => Ok(BoundValue::String(s.clone())),
        Param::Variable(name) => match find_entry(variables, name) {
            None => Err(QueryError::VariableNotFound(name.clone())),
            Some(value) => match value {
                JsonValue::String(s) => Ok(BoundValue::String(s.clone())),
                JsonValue::Number(n) => Ok(BoundValue::Number(*n)),
                JsonValue::Bool(b) => Ok(BoundValue::Bool(*b)),
                JsonValue::Null => {
                    proof { reveal_strlit("Null variables"); }
                    Err(QueryError::NotSupported(String::from_str("Null variables")))
                },
                JsonValue::Array(_) => {
                    proof { reveal_strlit("Array variables"); }
                    Err(QueryError::NotSupported(String::from_str("Array variables")))
                },
                JsonValue::Object(_) => {
                    proof { reveal_strlit("Object variables"); }
                    Err(QueryError::NotSupported(String::from_str("Object variables")))
                },
            },
        },
    }
}

/// The values bound to the parameters of a query, in order, on one set of variables. The
/// first parameter that cannot be bound gives the error.
pub fn bind_parameters(params: &Vec<Param>, variables: &Vec<(String, JsonValue)>) -> (res: Result<
    Vec<BoundValue>,
    QueryError,
>)
    ensures
        match res {
            Ok(values) => values@.len() == params@.len() && forall|i: int|
                0 <= i < params@.len() ==> binding(#[trigger] params@[i], variables@) == Ok::<
                    BoundValue,
                    QueryErrorView,
                >(values@[i]),
            Err(e) => exists|i: int|
                0 <= i < params@.len() && binding(#[trigger] params@[i], variables@) == Err::<
                    BoundValue,
                    QueryErrorView,
                >(e@) && forall|k: int| 0 <= k < i ==> binding(#[trigger] params@[k], variables@) is Ok,
        },
{
    let mut values: Vec<BoundValue> = Vec::new();
    let mut index: usize = 0;
    while index < params.len()
        invariant
            0 <= index <= params@.len(),
            values@.len() == index,
            forall|i: int|
                0 <= i < index ==> binding(#[trigger] params@[i], variables@) == Ok::<
                    BoundValue,
                    QueryErrorView,
                >(values@[i]),
        decreases params@.len() - index,
    {
        match bind_parameter(&params[index], variables) {
            Ok(value) => values.push(value),
            Err(e) => {
                assert(forall|k: int| 0 <= k < index ==> binding(#[trigger] params@[k], variables@) is Ok);
                return Err(e);
            },
        }
        index = index + 1;
    }
    Ok(values)
}

/// The set of variables that an explain runs with: the first set of the plan, if it has
/// one. A plan with several sets is explained on its first set alone, as one plan is
/// returned; `None` stands for the empty set.
pub fn explain_variables(variables: &Option<Vec<Vec<(String, JsonValue)>>>) -> (set: Option<
    &Vec<(String, JsonValue)>,
>)
    ensures
        match variables {
            None => set is None,
            Some(sets) => if sets@.len() == 0 {
                set is None
            } else {
                set == Some(&sets@[0])
            },
        },
{
    match variables {
        None => None,
        Some(sets) => if sets.len() == 0 {
            None
        } else {
            Some(&sets[0])
        },
    }
}

/// The lines of an explain: the first column of each row that has one, in order.
pub open spec fn explain_lines_of(rows: Seq<Option<String>>) -> Seq<String>
    decreases rows.len(),
{
    if rows.len() == 0 {
        Seq::empty()
    } else {
        let rest = explain_lines_of(rows.drop_last());
        match rows.last() {
            Some(line) => rest.push(line),
            None => rest,
        }
    }
}

/// Collect the lines of an explain from the first column of its rows, skipping the rows
/// without one.
pub fn explain_lines(rows: Vec<Option<String>>) -> (lines: Vec<String>)
    ensures
        lines@ == explain_lines_of(rows@),
{
    let ghost all = rows@;
    let mut lines: Vec<String> = Vec::new();
    for row in it: rows.into_iter()
        invariant
            it.seq() == all,
            lines@ == explain_lines_of(all.take(it.index() as int)),
    {
        let ghost index = it.index() as int;
        assert(all.take(index + 1).drop_last() =~= all.take(index));
        match row {
            Some(line) => lines.push(line),
            None => {},
        }
    }
    assert(all.take(all.len() as int) =~= all);
    lines
}

/// Execute an execution plan: every plan is answered with a single row set holding one row
/// whose column `x` is the string `"hi"`.
pub fn execute(plan: ExecutionPlan) -> (response: QueryResponse)
    ensures
        response.0@.len() == 1,
        response.0@[0].aggregates is None,
        response.0@[0].rows matches Some(rows) && rows@.len() == 1 && rows@[0]@.len() == 1
            && rows@[0]@[0].0@ == "x"@ && (rows@[0]@[0].1 matches RowFieldValue::Column {
            value: JsonValue::String(s),
        } && s@ == "hi"@),
{
    proof {
        reveal_strlit("x");
        reveal_strlit("hi");
    }
    let row = vec![
        (
            String::from_str("x"),
            RowFieldValue::Column { value: JsonValue::String(String::from_str("hi")) },
        ),
    ];
    QueryResponse(vec![RowSet { aggregates: None, rows: Some(vec![row]) }])
}

} // verus!
