use query_engine::metadata::DatabaseScalarType;
use query_engine::sql::ast::{CastType, ColumnAlias, Expression, Value};
use query_engine::sql::execution_plan::select_to_sql;
use query_engine::sql::helpers::simple_select;
use query_engine::sql::string::Param;
use query_engine::translation::values::{translate_json_value_typed, TypedValueError};
use query_engine::types::input::JsonValue;

fn string(s: &str) -> JsonValue {
    JsonValue::String(s.to_string())
}

#[test]
fn numbers_of_integer_types_are_integers() {
    for t in [DatabaseScalarType::Smallint, DatabaseScalarType::Integer, DatabaseScalarType::Bigint] {
        assert_eq!(translate_json_value_typed(JsonValue::Number(Some(7_000_000_000)), t), Ok(Value::Int8(7_000_000_000)));
    }
    assert_eq!(
        translate_json_value_typed(JsonValue::Number(Some(1)), DatabaseScalarType::Text),
        Err(TypedValueError::TypeMismatch(JsonValue::Number(Some(1)), DatabaseScalarType::Text))
    );
}

#[test]
fn booleans_and_nulls() {
    assert_eq!(translate_json_value_typed(JsonValue::Bool(true), DatabaseScalarType::Boolean), Ok(Value::Bool(true)));
    assert_eq!(
        translate_json_value_typed(JsonValue::Bool(true), DatabaseScalarType::Integer),
        Err(TypedValueError::TypeMismatch(JsonValue::Bool(true), DatabaseScalarType::Integer))
    );
    assert_eq!(translate_json_value_typed(JsonValue::Null, DatabaseScalarType::Uuid), Ok(Value::Null));
}

#[test]
fn strings_are_strings_or_casts() {
    assert_eq!(translate_json_value_typed(string("a"), DatabaseScalarType::Text), Ok(Value::String("a".to_string())));
    assert_eq!(translate_json_value_typed(string("a"), DatabaseScalarType::Any), Ok(Value::String("a".to_string())));
    assert_eq!(
        translate_json_value_typed(string("2024-01-01"), DatabaseScalarType::Date),
        Ok(Value::Cast { value: "2024-01-01".to_string(), cast_type: CastType::Date })
    );
    assert_eq!(
        translate_json_value_typed(string("1.5"), DatabaseScalarType::Numeric),
        Ok(Value::Cast { value: "1.5".to_string(), cast_type: CastType::Numeric })
    );
    assert_eq!(
        translate_json_value_typed(string("yes"), DatabaseScalarType::Boolean),
        Err(TypedValueError::TypeMismatch(string("yes"), DatabaseScalarType::Boolean))
    );
}

#[test]
fn arrays_and_objects_are_not_supported() {
    assert_eq!(
        translate_json_value_typed(JsonValue::Array(vec![]), DatabaseScalarType::Text),
        Err(TypedValueError::NotSupported("array values".to_string()))
    );
    assert_eq!(
        translate_json_value_typed(JsonValue::Object(vec![]), DatabaseScalarType::Text),
        Err(TypedValueError::NotSupported("object values".to_string()))
    );
}

#[test]
fn typed_values_render() {
    let column = |name: &str| ColumnAlias { unique_index: 0, name: name.to_string() };
    let select = simple_select(vec![
        (column("a"), Expression::Value(Value::Int8(-9_000_000_000))),
        (column("b"), Expression::Value(Value::Cast { value: "2024-01-01".to_string(), cast_type: CastType::TimestampWithTimeZone })),
    ]);
    let sql = select_to_sql(&select);
    assert_eq!(sql.sql, "SELECT -9000000000 AS \"a\", cast($1 as timestamp with time zone) AS \"b\" ");
    assert_eq!(sql.params, vec![Param::String("2024-01-01".to_string())]);
}
