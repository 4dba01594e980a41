use query_engine::metadata::{BinaryOperator, ScalarType};

fn all_scalar_types() -> Vec<ScalarType> {
    vec![
        ScalarType::Boolean,
        ScalarType::Float,
        ScalarType::Int,
        ScalarType::String,
        ScalarType::Any,
    ]
}

fn all_binary_operators() -> Vec<BinaryOperator> {
    vec![
        BinaryOperator::Equals,
        BinaryOperator::NotEquals,
        BinaryOperator::LessThan,
        BinaryOperator::LessThanOrEqualTo,
        BinaryOperator::GreaterThan,
        BinaryOperator::GreaterThanOrEqualTo,
        BinaryOperator::Like,
        BinaryOperator::NotLike,
        BinaryOperator::CaseInsensitiveLike,
        BinaryOperator::NotCaseInsensitiveLike,
        BinaryOperator::Similar,
        BinaryOperator::NotSimilar,
        BinaryOperator::Regex,
        BinaryOperator::NotRegex,
        BinaryOperator::CaseInsensitiveRegex,
        BinaryOperator::NotCaseInsensitiveRegex,
    ]
}

#[test]
fn test_ensure_all_binary_comparison_operators_are_used() {
    // This is the set of all operators exposed through the schema.
    let exposed_operators: Vec<BinaryOperator> = all_scalar_types()
        .iter()
        .flat_map(|scalar_type| scalar_type.comparison_operators())
        .collect();

    for operator in all_binary_operators() {
        assert!(
            exposed_operators.contains(&operator),
            "The operator {:?} is not exposed anywhere.",
            operator
        );
    }
}

#[test]
fn comparison_operators_of_strings_and_numbers() {
    let common = vec![
        BinaryOperator::Equals,
        BinaryOperator::NotEquals,
        BinaryOperator::LessThan,
        BinaryOperator::LessThanOrEqualTo,
        BinaryOperator::GreaterThan,
        BinaryOperator::GreaterThanOrEqualTo,
    ];
    assert_eq!(ScalarType::Int.comparison_operators(), common);
    assert_eq!(ScalarType::Boolean.comparison_operators(), common);
    assert_eq!(ScalarType::String.comparison_operators(), all_binary_operators());
    assert_eq!(ScalarType::String.comparison_operators().len(), 16);
}

#[test]
fn operator_names() {
    let names: Vec<&str> = all_binary_operators().iter().map(|op| op.name()).collect();
    assert_eq!(
        names,
        vec![
            "eq", "neq", "lt", "lte", "gt", "gte", "like", "nlike", "ilike", "nilike", "similar",
            "nsimilar", "regex", "nregex", "iregex", "niregex"
        ]
    );
    assert_eq!(BinaryOperator::CaseInsensitiveLike.to_string(), "ilike".to_string());
}

#[test]
fn rhs_argument_type_is_the_lhs_type() {
    for operator in all_binary_operators() {
        for scalar_type in all_scalar_types() {
            assert_eq!(operator.rhs_argument_type(scalar_type), scalar_type);
        }
    }
}

#[test]
fn scalar_type_names() {
    let names: Vec<String> = all_scalar_types().iter().map(|t| t.to_string()).collect();
    assert_eq!(names, vec!["Boolean", "Float", "Int", "String", "any"]);
}

#[test]
fn find_entry_takes_the_first_listed_value() {
    let entries = vec![
        ("a".to_string(), 1),
        ("b".to_string(), 2),
        ("a".to_string(), 3),
    ];
    assert_eq!(query_engine::metadata::find_entry(&entries, &"a".to_string()), Some(&1));
    assert_eq!(query_engine::metadata::find_entry(&entries, &"b".to_string()), Some(&2));
    assert_eq!(query_engine::metadata::find_entry(&entries, &"c".to_string()), None);
}

#[test]
fn empty_metadata_has_no_tables_and_no_native_queries() {
    let metadata = query_engine::metadata::Metadata::empty();
    assert!(metadata.tables.0.is_empty());
    assert!(metadata.native_queries.0.is_empty());
}
