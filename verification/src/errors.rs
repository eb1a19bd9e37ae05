//! Error taxonomy of the upload pipeline. Every failure is terminal
//! for the operation that hit it; nothing here is retried.
use vstd::prelude::*;
use vstd::string::StringExecFns;

verus! {

/// One failure class per way an operation can end early.
#[derive(Debug, PartialEq, Eq)]
pub enum RestError {
    /// DNS, connect or request timeout failure, with the transport's message.
    Transport(String),
    /// A non-2xx status, carrying the status and the normalized body.
    Protocol { status: u16, body: crate::json::JsonValue },
    /// A required field missing or of the wrong shape, naming the field.
    Schema(String),
    /// A local file unreadable, or a short read.
    File(String),
    /// The polling deadline elapsed before every recipe was ready.
    Timeout,
    /// A caller-supplied value the client refuses (method, mode, template).
    Input(String),
}

impl RestError {
    /// A `Schema` error naming the missing or malformed field.
    pub fn schema(field: &str) -> (r: RestError)
        ensures
            r matches RestError::Schema(f) && f@ == field@,
    {
        RestError::Schema(String::from_str(field))
    }

    /// An `Input` error carrying the offending detail.
    pub fn input(detail: &str) -> (r: RestError)
        ensures
            r matches RestError::Input(m) && m@ == detail@,
    {
        RestError::Input(String::from_str(detail))
    }
}

} // verus!
