//! The configuration of the application: text values stored by key, read
//! with a default value for missing or unreadable entries.
use crate::sql::{max_tuples, statement_with_tuples, tuple_list, TupleShape};
use crate::text::{
    parse_bool, parse_i64, parse_u64, spec_parse_bool, spec_parse_signed, spec_parse_unsigned,
    string_of,
};
use vstd::prelude::*;

verus! {

/// An entry of the configuration.
pub struct Entry {
    pub key: String,
    pub value: String,
}

/// The value of an unsigned entry: the stored text read as a number, or
/// `default` when there is no entry or its text is not such a number.
pub fn get_u64(stored: Option<&str>, default: u64) -> (r: u64)
    ensures
        r == match stored {
            Some(s) => match spec_parse_unsigned(s@, u64::MAX as int) {
                Some(v) => v as u64,
                None => default,
            },
            None => default,
        },
{
    match stored {
        Some(s) => match parse_u64(s) {
            Some(v) => v,
            None => default,
        },
        None => default,
    }
}

/// The value of a signed entry: the stored text read as a number, or
/// `default` when there is no entry or its text is not such a number.
pub fn get_i64(stored: Option<&str>, default: i64) -> (r: i64)
    ensures
        r == match stored {
            Some(s) => match spec_parse_signed(s@, i64::MIN as int, i64::MAX as int) {
                Some(v) => v as i64,
                None => default,
            },
            None => default,
        },
{
    match stored {
        Some(s) => match parse_i64(s) {
            Some(v) => v,
            None => default,
        },
        None => default,
    }
}

/// The value of a boolean entry: `true` or `false` as stored, or `default`
/// when there is no entry or its text is neither.
pub fn get_bool(stored: Option<&str>, default: bool) -> (r: bool)
    ensures
        r == match stored {
            Some(s) => match spec_parse_bool(s@) {
                Some(v) => v,
                None => default,
            },
            None => default,
        },
{
    match stored {
        Some(s) => match parse_bool(s) {
            Some(v) => v,
            None => default,
        },
        None => default,
    }
}

/// The value of a text entry: the stored text, or `default` when there is
/// no entry.
pub fn get_string(stored: Option<&str>, default: &str) -> (r: String)
    ensures
        r@ == match stored {
            Some(s) => s@,
            None => default@,
        },
{
    match stored {
        Some(s) => string_of(s),
        None => string_of(default),
    }
}

/// The statement storing `entry_count` entries, each as a pair of
/// parameters key and value, replacing the values of existing keys.
pub fn batch_put_statement(entry_count: usize) -> (r: String)
    requires
        entry_count <= max_tuples(),
    ensures
        r@ == "insert into app_config values"@ + tuple_list(TupleShape::Pair, entry_count as nat)
            + " on conflict (key) do update set value = excluded.value"@,
{
    statement_with_tuples(
        "insert into app_config values",
        TupleShape::Pair,
        entry_count,
        " on conflict (key) do update set value = excluded.value",
    )
}

} // verus!
