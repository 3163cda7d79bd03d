//! Key-value storage for the parameters of the client that need no
//! special handling: each value is an integer or a text.
use crate::error::Error;
use vstd::prelude::*;

verus! {

/// A value of the client configuration.
pub enum Value {
    Int64(i64),
    Text(String),
}

/// An entry of the client configuration.
pub struct Entry {
    pub key: String,
    pub value: Value,
}

/// The type of a value as stored in the database.
#[derive(Debug, Clone, Copy, PartialEq, Eq, Structural)]
pub enum DbValueType {
    Int64,
    Text,
}

/// The code of each type of value in the database.
pub open spec fn spec_type_code(t: DbValueType) -> i16 {
    match t {
        DbValueType::Int64 => 0,
        DbValueType::Text => 1,
    }
}

impl DbValueType {
    /// The code of the type in the database.
    pub fn code(&self) -> (r: i16)
        ensures
            r == spec_type_code(*self),
    {
        match self {
            DbValueType::Int64 => 0,
            DbValueType::Text => 1,
        }
    }
}

/// The type stored under `code`: `Err(Error::BadParameter)` for an unknown
/// code.
pub fn value_type_from_code(code: i16) -> (r: Result<DbValueType, Error>)
    ensures
        code == 0 ==> r == Ok::<DbValueType, Error>(DbValueType::Int64),
        code == 1 ==> r == Ok::<DbValueType, Error>(DbValueType::Text),
        code != 0 && code != 1 ==> r == Err::<DbValueType, Error>(Error::BadParameter),
        r matches Ok(t) ==> spec_type_code(t) == code,
{
    if code == 0 {
        Ok(DbValueType::Int64)
    } else if code == 1 {
        Ok(DbValueType::Text)
    } else {
        Err(Error::BadParameter)
    }
}

/// The columns storing a value: the code of its type, the integer column
/// and the text column; the column that does not hold the value holds 0 or
/// the empty text.
pub fn stored_columns(value: &Value) -> (r: (i16, i64, String))
    ensures
        match value {
            Value::Int64(i) => r.0 == 0 && r.1 == *i && r.2@ == Seq::<char>::empty(),
            Value::Text(s) => r.0 == 1 && r.1 == 0 && r.2 == *s,
        },
{
    match value {
        Value::Int64(i) => (DbValueType::Int64.code(), *i, String::new()),
        Value::Text(s) => (DbValueType::Text.code(), 0, s.clone()),
    }
}

/// The value read back from the columns of a type: the integer column for
/// an integer, the text column for a text.
pub fn value_from_columns(value_type: DbValueType, int64_value: i64, text_value: String) -> (r: Value)
    ensures
        match value_type {
            DbValueType::Int64 => r == Value::Int64(int64_value),
            DbValueType::Text => r == Value::Text(text_value),
        },
{
    match value_type {
        DbValueType::Int64 => Value::Int64(int64_value),
        DbValueType::Text => Value::Text(text_value),
    }
}

/// A value of the document in which an administrator submits entries, as
/// far as the configuration reads it.
pub enum SubmittedValue {
    /// A string.
    Text(String),
    /// A number, with its value when it is an integer that fits in an
    /// `i64`.
    Number(Option<i64>),
    /// Anything else: an object, an array, a boolean or null.
    Other,
}

/// The value stored for a submitted one: a string is a text, an integer
/// that fits in an `i64` is an integer, anything else is refused as a bad
/// parameter.
pub fn value_of_submitted(submitted: SubmittedValue) -> (r: Result<Value, Error>)
    ensures
        match submitted {
            SubmittedValue::Text(s) => r == Ok::<Value, Error>(Value::Text(s)),
            SubmittedValue::Number(Some(i)) => r == Ok::<Value, Error>(Value::Int64(i)),
            _ => r == Err::<Value, Error>(Error::BadParameter),
        },
{
    match submitted {
        SubmittedValue::Text(s) => Ok(Value::Text(s)),
        SubmittedValue::Number(Some(i)) => Ok(Value::Int64(i)),
        _ => Err(Error::BadParameter),
    }
}

/// What is stored of a value reads back as the same value.
pub proof fn lemma_stored_value_reads_back(value: Value, code: i16, i: i64, s: String)
    requires
        match value {
            Value::Int64(v) => code == 0 && i == v && s@ == Seq::<char>::empty(),
            Value::Text(t) => code == 1 && i == 0 && s == t,
        },
    ensures
        code == 0 ==> value == Value::Int64(i),
        code == 1 ==> value == Value::Text(s),
        code == 0 || code == 1,
{
}

} // verus!
