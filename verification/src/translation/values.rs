//! Handle the translation of literal values.
use vstd::prelude::*;

use super::error::{Error, ErrorView, Failure};
use crate::metadata::DatabaseScalarType;
use crate::sql::ast::{CastType, Value};
use crate::types::input::JsonValue;

verus! {

/// How the translation of a JSON value fails, if it does: objects are not supported, and
/// a number that is no 32-bit integer makes it panic. The items of an array are translated
/// in order, and the first failure is the array's.
pub open spec fn json_failure(value: JsonValue) -> Option<Failure>
    decreases value,
{
    match value {
        JsonValue::Number(Some(n)) => if i32::MIN <= n <= i32::MAX {
            None
        } else {
            Some(Failure::Panic)
        },
        JsonValue::Number(None) => Some(Failure::Panic),
        JsonValue::Array(items) => json_items_failure(items@),
        JsonValue::Object(_) => Some(Failure::Error(ErrorView::NotSupported("object values"@))),
        _ => None,
    }
}

/// The first failure among the translations of `items`, in order.
pub open spec fn json_items_failure(items: Seq<JsonValue>) -> Option<Failure>
    decreases items,
{
    if items.len() == 0 {
        None
    } else {
        match json_failure(items[0]) {
            Some(failure) => Some(failure),
            None => json_items_failure(items.subrange(1, items.len() as int)),
        }
    }
}

/// `out` is the SQL value of the JSON value `value`.
pub open spec fn json_translated(value: JsonValue, out: Value) -> bool
    decreases value,
{
    match value {
        JsonValue::Null => out == Value::Null,
        JsonValue::Bool(b) => out == Value::Bool(b),
        JsonValue::Number(Some(n)) => out == Value::Int4(n as i32),
        JsonValue::String(s) => out == Value::String(s),
        JsonValue::Array(items) => out matches Value::Array(outs) && outs@.len() == items@.len()
            && forall|i: int|
            0 <= i < items@.len() ==> json_translated(items@[i], #[trigger] outs@[i]),
        _ => false,
    }
}

/// Convert a JSON value into a SQL value.
pub fn translate_json_value(value: &JsonValue) -> (res: Result<Value, Error>)
    requires
        json_failure(*value) != Some(Failure::Panic),
    ensures
        match res {
            Ok(out) => json_failure(*value) is None && json_translated(*value, out),
            Err(e) => json_failure(*value) == Some(Failure::Error(e@)) && !(e is NoFields),
        },
    decreases value,
{
    match value {
        JsonValue::Number(n) => {
            let n = n.unwrap();
            Ok(Value::Int4(n as i32))
        },
        JsonValue::Bool(b) => Ok(Value::Bool(*b)),
        JsonValue::String(s) => Ok(Value::String(s.clone())),
        JsonValue::Null => Ok(Value::Null),
        JsonValue::Array(items) => {
            let mut inner_values: Vec<Value> = Vec::new();
            let mut index: usize = 0;
            proof {
                assert(decreases_to!(value => value->Array_0));
                assert(forall|i: int|
                    0 <= i < items@.len() ==> decreases_to!(value->Array_0 => #[trigger] items@[i]));
                assert(items@.skip(0) =~= items@);
            }
            while index < items.len()
                invariant
                    forall|i: int|
                        0 <= i < items@.len() ==> decreases_to!(value => #[trigger] items@[i]),
                    *value == JsonValue::Array(*items),
                    0 <= index <= items@.len(),
                    inner_values@.len() == index,
                    json_items_failure(items@) == json_items_failure(items@.skip(index as int)),
                    json_items_failure(items@) != Some(Failure::Panic),
                    forall|i: int|
                        0 <= i < index ==> json_translated(items@[i], #[trigger] inner_values@[i]),
                decreases items.len() - index,
            {
                let ghost rest = items@.skip(index as int);
                assert(rest.subrange(1, rest.len() as int) =~= items@.skip(index + 1));
                assert(rest[0] == items@[index as int]);
                match translate_json_value(&items[index]) {
                    Ok(inner) => {
                        inner_values.push(inner);
                    },
                    Err(e) => {
                        return Err(e);
                    },
                }
                index = index + 1;
            }
            assert(items@.skip(index as int) =~= Seq::<JsonValue>::empty());
            Ok(Value::Array(inner_values))
        },
        JsonValue::Object(_) => {
            proof { reveal_strlit("object values"); }
            Err(Error::NotSupported(String::from_str("object values")))
        },
    }
}

/// Why a JSON value cannot be read as a value of a database type.
#[derive(Debug, PartialEq)]
pub enum TypedValueError {
    /// The value does not fit the type.
    TypeMismatch(JsonValue, DatabaseScalarType),
    NotSupported(String),
}

/// The mathematical value of a [`TypedValueError`].
pub ghost enum TypedValueErrorView {
    TypeMismatch(JsonValue, DatabaseScalarType),
    NotSupported(Seq<char>),
}

impl View for TypedValueError {
    type V = TypedValueErrorView;

    open spec fn view(&self) -> TypedValueErrorView {
        match self {
            TypedValueError::TypeMismatch(value, t) => TypedValueErrorView::TypeMismatch(*value, *t),
            TypedValueError::NotSupported(thing) => TypedValueErrorView::NotSupported(thing@),
        }
    }
}

/// The integer types.
pub open spec fn is_integer_type(t: DatabaseScalarType) -> bool {
    t is Smallint || t is Integer || t is Bigint
}

/// The floating point types.
pub open spec fn is_float_type(t: DatabaseScalarType) -> bool {
    t is Real || t is DoublePrecision || t is Numeric
}

/// The type a string is cast to, to be read as a value of `t`, for the types other than
/// booleans and strings.
pub open spec fn cast_type_of(t: DatabaseScalarType) -> Option<CastType> {
    match t {
        DatabaseScalarType::Smallint => Some(CastType::Smallint),
        DatabaseScalarType::Integer => Some(CastType::Integer),
        DatabaseScalarType::Bigint => Some(CastType::Bigint),
        DatabaseScalarType::Real => Some(CastType::Real),
        DatabaseScalarType::DoublePrecision => Some(CastType::DoublePrecision),
        DatabaseScalarType::Numeric => Some(CastType::Numeric),
        DatabaseScalarType::Date => Some(CastType::Date),
        DatabaseScalarType::TimeWithTimeZone => Some(CastType::TimeWithTimeZone),
        DatabaseScalarType::TimeWithoutTimeZone => Some(CastType::TimeWithoutTimeZone),
        DatabaseScalarType::TimestampWithTimeZone => Some(CastType::TimestampWithTimeZone),
        DatabaseScalarType::TimestampWithoutTimeZone => Some(CastType::TimestampWithoutTimeZone),
        DatabaseScalarType::Uuid => Some(CastType::Uuid),
        _ => None,
    }
}

/// The SQL value of a JSON value read as a value of the type `t`:
/// - a number of an integer type is that integer;
/// - a boolean of the boolean type is that boolean;
/// - a string of a string type, or of `Any`, is that string, and a string of a number, date,
///   time or uuid type is the string cast to that type;
/// - `null` is `null`;
/// - arrays and objects are not supported, and anything else is a type mismatch.
pub open spec fn typed_value(value: JsonValue, t: DatabaseScalarType) -> Result<
    Value,
    TypedValueErrorView,
> {
    match value {
        JsonValue::Number(n) => if is_integer_type(t) {
            Ok(Value::Int8(n.unwrap()))
        } else {
            Err(TypedValueErrorView::TypeMismatch(value, t))
        },
        JsonValue::Bool(b) => if t is Boolean {
            Ok(Value::Bool(b))
        } else {
            Err(TypedValueErrorView::TypeMismatch(value, t))
        },
        JsonValue::String(s) => if t is Character || t is CharacterVarying || t is Text || t is Any {
            Ok(Value::String(s))
        } else {
            match cast_type_of(t) {
                Some(cast_type) => Ok(Value::Cast { value: s, cast_type }),
                None => Err(TypedValueErrorView::TypeMismatch(value, t)),
            }
        },
        JsonValue::Null => Ok(Value::Null),
        JsonValue::Array(_) => Err(TypedValueErrorView::NotSupported("array values"@)),
        JsonValue::Object(_) => Err(TypedValueErrorView::NotSupported("object values"@)),
    }
}

/// A string read as a value of a number, date, time or uuid type is cast to that very type:
/// the cast is written with the database's name of the type, and keeps the string. Only the
/// boolean, character and text types and `Any` have no cast.
pub proof fn strings_are_cast_to_their_column_type(s: String, t: DatabaseScalarType)
    ensures
        cast_type_of(t) matches Some(c) ==> c.sql_text() == t.sql_type_name(),
        cast_type_of(t) is None <==> (t is Boolean || t is Character || t is CharacterVarying
            || t is Text || t is Any),
        !(t is Boolean || t is Character || t is CharacterVarying || t is Text || t is Any)
            ==> (typed_value(JsonValue::String(s), t) matches Ok(Value::Cast { value, cast_type })
            && value == s && cast_type.sql_text() == t.sql_type_name()),
{
}

/// Convert a JSON value into a SQL value of the database type `scalar_type`.
///
/// A number is read as an integer of the integer types; it panics on a number that is no
/// integer there, so such numbers are left out, and numbers of the floating point types
/// are left out too.
pub fn translate_json_value_typed(value: JsonValue, scalar_type: DatabaseScalarType) -> (res:
    Result<Value, TypedValueError>)
    requires
        !(value is Number && is_float_type(scalar_type)),
        value is Number && is_integer_type(scalar_type) ==> value->Number_0 is Some,
    ensures
        match res {
            Ok(v) => typed_value(value, scalar_type) == Ok::<Value, TypedValueErrorView>(v),
            Err(e) => typed_value(value, scalar_type) == Err::<Value, TypedValueErrorView>(e@),
        },
{
    match value {
        JsonValue::Number(n) => match scalar_type {
            DatabaseScalarType::Smallint | DatabaseScalarType::Integer
            | DatabaseScalarType::Bigint => Ok(Value::Int8(n.unwrap())),
            _ => Err(TypedValueError::TypeMismatch(JsonValue::Number(n), scalar_type)),
        },
        JsonValue::Bool(b) => match scalar_type {
            DatabaseScalarType::Boolean => Ok(Value::Bool(b)),
            _ => Err(TypedValueError::TypeMismatch(JsonValue::Bool(b), scalar_type)),
        },
        JsonValue::String(s) => match scalar_type {
            DatabaseScalarType::Character | DatabaseScalarType::CharacterVarying
            | DatabaseScalarType::Text | DatabaseScalarType::Any => Ok(Value::String(s)),
            DatabaseScalarType::Smallint => Ok(Value::Cast { value: s, cast_type: CastType::Smallint }),
            DatabaseScalarType::Integer => Ok(Value::Cast { value: s, cast_type: CastType::Integer }),
            DatabaseScalarType::Bigint => Ok(Value::Cast { value: s, cast_type: CastType::Bigint }),
            DatabaseScalarType::Real => Ok(Value::Cast { value: s, cast_type: CastType::Real }),
            DatabaseScalarType::DoublePrecision => Ok(
                Value::Cast { value: s, cast_type: CastType::DoublePrecision },
            ),
            DatabaseScalarType::Numeric => Ok(Value::Cast { value: s, cast_type: CastType::Numeric }),
            DatabaseScalarType::Date => Ok(Value::Cast { value: s, cast_type: CastType::Date }),
            DatabaseScalarType::TimeWithTimeZone => Ok(
                Value::Cast { value: s, cast_type: CastType::TimeWithTimeZone },
            ),
            DatabaseScalarType::TimeWithoutTimeZone => Ok(
                Value::Cast { value: s, cast_type: CastType::TimeWithoutTimeZone },
            ),
            DatabaseScalarType::TimestampWithTimeZone => Ok(
                Value::Cast { value: s, cast_type: CastType::TimestampWithTimeZone },
            ),
            DatabaseScalarType::TimestampWithoutTimeZone => Ok(
                Value::Cast { value: s, cast_type: CastType::TimestampWithoutTimeZone },
            ),
            DatabaseScalarType::Uuid => Ok(Value::Cast { value: s, cast_type: CastType::Uuid }),
            DatabaseScalarType::Boolean => Err(
                TypedValueError::TypeMismatch(JsonValue::String(s), scalar_type),
            ),
        },
        JsonValue::Null => Ok(Value::Null),
        JsonValue::Array(_) => {
            proof { reveal_strlit("array values"); }
            Err(TypedValueError::NotSupported(String::from_str("array values")))
        },
        JsonValue::Object(_) => {
            proof { reveal_strlit("object values"); }
            Err(TypedValueError::NotSupported(String::from_str("object values")))
        },
    }
}

} // verus!
