use query_engine::execution::{
    bind_parameters, execute, explain_lines, explain_variables, query_parameters, BoundValue,
    QueryError,
};
use query_engine::sql::execution_plan::simple_exec_plan;
use query_engine::sql::helpers::star_select;
use query_engine::sql::ast::{From, TableAlias, TableName};
use query_engine::sql::string::Param;
use query_engine::types::input::JsonValue;
use query_engine::types::output::RowFieldValue;

#[test]
fn query_parameters_are_numbered_strings() {
    let params = vec![Param::String("a".to_string()), Param::String("b c".to_string())];
    assert_eq!(
        query_parameters(&params),
        vec![
            ("param1".to_string(), "STRING".to_string(), "a".to_string()),
            ("param2".to_string(), "STRING".to_string(), "b c".to_string()),
        ]
    );
    assert!(query_parameters(&vec![]).is_empty());
}

#[test]
fn query_error_messages() {
    assert_eq!(
        QueryError::VariableNotFound("x".to_string()).message(),
        "Variable \"x\" not found."
    );
    assert_eq!(
        QueryError::NotSupported("Variables".to_string()).message(),
        "Variables are not supported."
    );
}

#[test]
fn execute_answers_with_one_row() {
    let select = star_select(From::Table {
        name: TableName::public_table("t".to_string()),
        alias: TableAlias { unique_index: 0, name: "t".to_string() },
    });
    let response = execute(simple_exec_plan(None, "t".to_string(), select));
    assert_eq!(response.0.len(), 1);
    let rows = response.0[0].rows.as_ref().expect("rows");
    assert_eq!(rows.len(), 1);
    assert_eq!(
        rows[0],
        vec![(
            "x".to_string(),
            RowFieldValue::Column { value: JsonValue::String("hi".to_string()) }
        )]
    );
}

fn variables() -> Vec<(String, JsonValue)> {
    vec![
        ("name".to_string(), JsonValue::String("Alice".to_string())),
        ("age".to_string(), JsonValue::Number(Some(42))),
        ("active".to_string(), JsonValue::Bool(true)),
        ("nothing".to_string(), JsonValue::Null),
        ("list".to_string(), JsonValue::Array(vec![])),
        ("record".to_string(), JsonValue::Object(vec![])),
        ("name".to_string(), JsonValue::String("Bob".to_string())),
    ]
}

#[test]
fn parameters_bind_strings_and_variable_values() {
    let params = vec![
        Param::String("literal".to_string()),
        Param::Variable("name".to_string()),
        Param::Variable("age".to_string()),
        Param::Variable("active".to_string()),
    ];
    assert_eq!(
        bind_parameters(&params, &variables()).unwrap(),
        vec![
            BoundValue::String("literal".to_string()),
            BoundValue::String("Alice".to_string()),
            BoundValue::Number(Some(42)),
            BoundValue::Bool(true),
        ]
    );
    assert_eq!(bind_parameters(&vec![], &vec![]).unwrap(), vec![]);
}

#[test]
fn parameters_of_missing_or_unsupported_variables_are_refused() {
    let message = |params: Vec<Param>| bind_parameters(&params, &variables()).unwrap_err().message();
    assert_eq!(message(vec![Param::Variable("other".to_string())]), "Variable \"other\" not found.");
    assert_eq!(message(vec![Param::Variable("nothing".to_string())]), "Null variables are not supported.");
    assert_eq!(message(vec![Param::Variable("list".to_string())]), "Array variables are not supported.");
    assert_eq!(message(vec![Param::Variable("record".to_string())]), "Object variables are not supported.");
    // the first parameter that cannot be bound gives the error
    assert_eq!(
        message(vec![
            Param::String("fine".to_string()),
            Param::Variable("list".to_string()),
            Param::Variable("other".to_string()),
        ]),
        "Array variables are not supported."
    );
}

#[test]
fn explain_runs_on_the_first_variable_set() {
    assert!(explain_variables(&None).is_none());
    assert!(explain_variables(&Some(vec![])).is_none());
    let sets = Some(vec![
        vec![("x".to_string(), JsonValue::Number(Some(1)))],
        vec![("x".to_string(), JsonValue::Number(Some(2)))],
    ]);
    assert_eq!(
        explain_variables(&sets),
        Some(&vec![("x".to_string(), JsonValue::Number(Some(1)))])
    );
}

#[test]
fn explain_lines_skip_rows_without_a_column() {
    let rows = vec![
        Some("Seq Scan on album".to_string()),
        None,
        Some("  Filter: (id = 1)".to_string()),
    ];
    assert_eq!(
        explain_lines(rows),
        vec!["Seq Scan on album".to_string(), "  Filter: (id = 1)".to_string()]
    );
    assert!(explain_lines(vec![None]).is_empty());
}
