use vstd::prelude::*;

use crate::text::{cat, cat3};

verus! {

/// The errors that EmberFlow operations report.
#[derive(Debug, Clone, PartialEq, Eq)]
pub enum EmberFlowError {
    /// A value outside what a field accepts.
    UnsupportedValue { field: String, value: String },
    /// A record that does not exist.
    NotFound(String),
    /// A filesystem failure, with its message.
    Io(String),
    /// A storage failure, with the message that SQLite gives for it.
    Sqlite(String),
    /// A JSON failure, with its message.
    Json(String),
}

pub open spec fn is_unsupported(e: EmberFlowError, field: Seq<char>, value: Seq<char>) -> bool {
    e matches EmberFlowError::UnsupportedValue { field: f, value: v } && f@ == field && v@ == value
}

pub open spec fn is_not_found(e: EmberFlowError, key: Seq<char>) -> bool {
    e matches EmberFlowError::NotFound(k) && k@ == key
}

pub open spec fn is_sqlite(e: EmberFlowError, message: Seq<char>) -> bool {
    e matches EmberFlowError::Sqlite(m) && m@ == message
}

/// The text that describes an error.
pub open spec fn error_message(e: EmberFlowError) -> Seq<char> {
    match e {
        EmberFlowError::UnsupportedValue { field, value } => "unsupported "@ + field@ + ": "@
            + value@,
        EmberFlowError::NotFound(value) => "record not found: "@ + value@,
        EmberFlowError::Io(m) => "io error: "@ + m@,
        EmberFlowError::Sqlite(m) => "sqlite error: "@ + m@,
        EmberFlowError::Json(m) => "json error: "@ + m@,
    }
}

pub fn unsupported(field: &str, value: &str) -> (e: EmberFlowError)
    ensures
        is_unsupported(e, field@, value@),
{
    EmberFlowError::UnsupportedValue { field: field.to_owned(), value: value.to_owned() }
}

pub fn not_found(key: &str) -> (e: EmberFlowError)
    ensures
        is_not_found(e, key@),
{
    EmberFlowError::NotFound(key.to_owned())
}

pub fn sqlite_failure(message: &str) -> (e: EmberFlowError)
    ensures
        is_sqlite(e, message@),
{
    EmberFlowError::Sqlite(message.to_owned())
}

impl EmberFlowError {
    /// The text that describes the error.
    pub fn to_string(&self) -> (r: String)
        ensures
            r@ == error_message(*self),
    {
        match self {
            EmberFlowError::UnsupportedValue { field, value } => {
                let head = cat3("unsupported ", field.as_str(), ": ");
                cat(head.as_str(), value.as_str())
            },
            EmberFlowError::NotFound(value) => cat("record not found: ", value.as_str()),
            EmberFlowError::Io(m) => cat("io error: ", m.as_str()),
            EmberFlowError::Sqlite(m) => cat("sqlite error: ", m.as_str()),
            EmberFlowError::Json(m) => cat("json error: ", m.as_str()),
        }
    }
}

} // verus!
