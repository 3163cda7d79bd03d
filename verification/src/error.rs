//! The error type shared by all services, and how failures of the
//! subsystems map onto it.
use tokio_postgres::error::SqlState;
use tokio_postgres::Error as PostgresError;
use vstd::prelude::*;

verus! {

/// Declaration of the error type of the Postgres client.
#[verifier::external_type_specification]
#[verifier::external_body]
pub struct ExPostgresError(PostgresError);

/// Declaration of the SQLSTATE code carried by a database error.
#[verifier::external_type_specification]
#[verifier::external_body]
pub struct ExSqlState(SqlState);

/// An error of the business layer, saving client code from handling the
/// many error types of the subsystems.
#[derive(Debug, Clone, Copy, PartialEq, Eq, Structural)]
pub enum Error {
    Internal,
    BadParameter,
    UniqueViolation,
    Unprocessable,
}

/// The kind of failure reported by a subsystem other than the database
/// server itself.
#[derive(Debug, Clone, Copy, PartialEq, Eq, Structural)]
pub enum FailureSource {
    /// The pool of database connections could not provide a connection.
    ConnectionPool,
    /// The system random number generator failed.
    Random,
    /// A read or a write on a file failed.
    Io,
    /// An integer did not fit in the requested type.
    IntegerConversion,
    /// A lock was poisoned by a panicking thread.
    Lock,
    /// A JSON document could not be read or written.
    Json,
}

/// SQLSTATE of a violated unique constraint.
pub open spec fn unique_violation_code() -> Seq<char> {
    seq!['2', '3', '5', '0', '5']
}

/// SQLSTATE of a violated foreign key constraint.
pub open spec fn foreign_key_violation_code() -> Seq<char> {
    seq!['2', '3', '5', '0', '3']
}

/// The error reported for a database failure whose SQLSTATE is `code`,
/// if the server gave one.
pub open spec fn spec_from_sql_state(code: Option<Seq<char>>) -> Error {
    match code {
        Some(c) => if c == unique_violation_code() {
            Error::UniqueViolation
        } else if c == foreign_key_violation_code() {
            Error::Unprocessable
        } else {
            Error::Internal
        },
        None => Error::Internal,
    }
}

/// The error reported for a failure of a subsystem.
pub open spec fn spec_from_failure(source: FailureSource) -> Error {
    match source {
        FailureSource::Json => Error::BadParameter,
        _ => Error::Internal,
    }
}

/// The HTTP status sent to the client for an error: any error is an
/// internal server error.
pub open spec fn spec_http_status(e: Error) -> u16 {
    500
}

/// The SQLSTATE that `tokio_postgres::Error::code` gives for an error: the state
/// reported by the database server, or `None` for an error that does not
/// come from it.
pub uninterp spec fn postgres_error_state(e: PostgresError) -> Option<SqlState>;

/// The text that `tokio_postgres::error::SqlState::code` gives for a state: its five characters.
pub uninterp spec fn sql_state_text(state: SqlState) -> Seq<char>;

/// The text of the SQLSTATE of an error, if the database server reported
/// one.
pub open spec fn postgres_error_code(e: PostgresError) -> Option<Seq<char>> {
    match postgres_error_state(e) {
        Some(state) => Some(sql_state_text(state)),
        None => None,
    }
}

/// Calls `tokio_postgres::Error::code`: the SQLSTATE of the error when the
/// error comes from the database server, cloned out of the error. The
/// result is named by `postgres_error_state`, a function of the error
/// alone; nothing more is claimed of it.
#[verifier::external_body]
fn postgres_error_sql_state(e: &PostgresError) -> (r: Option<SqlState>)
    ensures
        r == postgres_error_state(*e),
{
    e.code().cloned()
}

/// Calls `tokio_postgres::error::SqlState::code`: the five characters of the SQLSTATE, copied
/// into a `String`. The result is named by `sql_state_text`, a function
/// of the state alone.
#[verifier::external_body]
fn sql_state_code(state: &SqlState) -> (r: String)
    ensures
        r@ == sql_state_text(*state),
{
    state.code().to_string()
}

impl Error {
    /// The text describing the error, as written in the logs.
    pub fn message(&self) -> (r: &'static str)
        ensures
            *self == Error::Internal ==> r@ == "Internal error"@,
            *self == Error::BadParameter ==> r@ == "Invalid parameter"@,
            *self == Error::UniqueViolation ==> r@ == "Violation of the unique constraint"@,
            *self == Error::Unprocessable ==> r@ == "Can't do the operation in the current state"@,
    {
        match self {
            Error::Internal => "Internal error",
            Error::BadParameter => "Invalid parameter",
            Error::UniqueViolation => "Violation of the unique constraint",
            Error::Unprocessable => "Can't do the operation in the current state",
        }
    }

    /// The error for a database failure whose SQLSTATE is `code`: a unique
    /// violation stays one, a violated foreign key makes the operation
    /// unprocessable, and anything else is internal.
    pub fn from_sql_state(code: Option<&str>) -> (r: Error)
        ensures
            r == spec_from_sql_state(match code {
                Some(c) => Some(c@),
                None => None,
            }),
    {
        match code {
            Some(c) => {
                proof {
                    reveal_strlit("23505");
                    reveal_strlit("23503");
                    assert("23505"@ =~= unique_violation_code());
                    assert("23503"@ =~= foreign_key_violation_code());
                }
                if crate::text::str_eq(c, "23505") {
                    Error::UniqueViolation
                } else if crate::text::str_eq(c, "23503") {
                    Error::Unprocessable
                } else {
                    Error::Internal
                }
            },
            None => Error::Internal,
        }
    }

    /// The error for a failure of the Postgres client: the SQLSTATE of the
    /// error, when the server reported one, decides as in `from_sql_state`.
    pub fn from_postgres(e: &PostgresError) -> (r: Error)
        ensures
            r == spec_from_sql_state(postgres_error_code(*e)),
    {
        match postgres_error_sql_state(e) {
            Some(state) => {
                let code: String = sql_state_code(&state);
                Error::from_sql_state(Some(code.as_str()))
            },
            None => Error::from_sql_state(None),
        }
    }

    /// The error for a failure of a subsystem: an unreadable JSON document
    /// is a bad parameter, any other failure is internal.
    pub fn from_failure(source: FailureSource) -> (r: Error)
        ensures
            r == spec_from_failure(source),
    {
        match source {
            FailureSource::Json => Error::BadParameter,
            _ => Error::Internal,
        }
    }

    /// The HTTP status code of the response carrying this error: any
    /// error is turned into an internal server error (500).
    pub fn http_status(&self) -> (r: u16)
        ensures
            r == spec_http_status(*self),
    {
        500
    }
}

/// Conversion of any result into a result of this library, where any
/// error becomes `Error::BadParameter`.
pub trait OrBadParameter<T>: Sized {
    spec fn spec_or_bad_parameter(self) -> Result<T, Error>;

    fn or_bad_parameter(self) -> (r: Result<T, Error>)
        ensures
            r == self.spec_or_bad_parameter(),
    ;
}

impl<T, E> OrBadParameter<T> for Result<T, E> {
    open spec fn spec_or_bad_parameter(self) -> Result<T, Error> {
        match self {
            Ok(v) => Ok(v),
            Err(_) => Err(Error::BadParameter),
        }
    }

    fn or_bad_parameter(self) -> (r: Result<T, Error>) {
        match self {
            Ok(v) => Ok(v),
            Err(_) => Err(Error::BadParameter),
        }
    }
}

} // verus!
