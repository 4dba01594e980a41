use query_engine::translation::error::Error;
use query_engine::translation::relationships::{
    make_relationship_arguments, relationship_argument_to_argument, MakeRelationshipArguments,
};
use query_engine::types::input::{Argument, ComparisonTarget, ComparisonValue, JsonValue};

fn literal(n: i64) -> ComparisonValue {
    ComparisonValue::Scalar { value: JsonValue::Number(Some(n)) }
}

fn variable(name: &str) -> ComparisonValue {
    ComparisonValue::Variable { name: name.to_string() }
}

fn column(name: &str) -> ComparisonValue {
    ComparisonValue::Column {
        column: Box::new(ComparisonTarget::RootTableColumn { name: name.to_string() }),
    }
}

fn entry(key: &str, value: ComparisonValue) -> (String, ComparisonValue) {
    (key.to_string(), value)
}

#[test]
fn relationship_arguments_come_before_caller_arguments() {
    let combined = make_relationship_arguments(MakeRelationshipArguments {
        relationship_arguments: vec![entry("limit", literal(10)), entry("user", variable("u"))],
        caller_arguments: vec![entry("offset", literal(5))],
    })
    .unwrap();
    assert_eq!(
        combined,
        vec![
            ("limit".to_string(), Argument::Literal { value: JsonValue::Number(Some(10)) }),
            ("user".to_string(), Argument::Variable { name: "u".to_string() }),
            ("offset".to_string(), Argument::Literal { value: JsonValue::Number(Some(5)) }),
        ]
    );
    let empty = make_relationship_arguments(MakeRelationshipArguments {
        relationship_arguments: vec![],
        caller_arguments: vec![],
    })
    .unwrap();
    assert!(empty.is_empty());
}

#[test]
fn caller_may_not_override_a_relationship_argument() {
    let error = make_relationship_arguments(MakeRelationshipArguments {
        relationship_arguments: vec![entry("limit", literal(10)), entry("user", variable("u"))],
        caller_arguments: vec![entry("offset", literal(5)), entry("user", variable("v"))],
    })
    .unwrap_err();
    assert!(matches!(&error, Error::RelationshipArgumentWasOverriden(key) if key == "user"));
    assert_eq!(
        error.message(),
        "The relationship argument 'user' was defined as part of the relationship, but was overriden."
    );
}

#[test]
fn column_arguments_are_not_implemented_yet() {
    let error = relationship_argument_to_argument(column("id")).unwrap_err();
    assert_eq!(error.message(), "Queries containing relationship column arguments are not supported.");
    assert_eq!(
        relationship_argument_to_argument(variable("x")).unwrap(),
        Argument::Variable { name: "x".to_string() }
    );
    // a column argument is refused before any override is looked for
    let error = make_relationship_arguments(MakeRelationshipArguments {
        relationship_arguments: vec![entry("user", variable("u"))],
        caller_arguments: vec![entry("id", column("id")), entry("user", variable("v"))],
    })
    .unwrap_err();
    assert!(matches!(error, Error::NotImplementedYet(_)));
}

#[test]
fn the_least_overridden_argument_is_reported() {
    let error = make_relationship_arguments(MakeRelationshipArguments {
        relationship_arguments: vec![
            entry("alpha", literal(1)),
            entry("beta", literal(2)),
            entry("gamma", literal(3)),
        ],
        caller_arguments: vec![
            entry("beta", literal(4)),
            entry("delta", literal(5)),
            entry("gamma", literal(6)),
        ],
    })
    .unwrap_err();
    assert!(matches!(&error, Error::RelationshipArgumentWasOverriden(key) if key == "beta"));
}
