//! The versioned envelope of every machine-readable answer.
use crate::command::owned;
use vstd::prelude::*;

verus! {

/// One structured error: a code, the target it concerns where there is one, and a message.
#[derive(Debug, PartialEq, Eq)]
pub struct ErrorDetail {
    pub code: String,
    pub target: Option<String>,
    pub message: String,
}

impl ErrorDetail {
    /// An error detail.
    pub fn new(code: &str, target: Option<&str>, message: &str) -> (r: ErrorDetail)
        ensures
            r.code@ == code@,
            r.message@ == message@,
            match target {
                Some(t) => r.target matches Some(x) && x@ == t@,
                None => r.target is None,
            },
    {
        ErrorDetail {
            code: owned(code),
            target: match target {
                Some(t) => Some(owned(t)),
                None => None,
            },
            message: owned(message),
        }
    }
}

/// The schema version of the envelope.
pub const SCHEMA_VERSION: u8 = 2;

/// The outcome an envelope reports.
#[derive(Debug, Clone, Copy, PartialEq, Eq, Structural)]
pub enum EnvelopeStatus {
    /// Complete data (`ok`).
    Complete,
    /// Valid partial data with structured errors (`partial`).
    Partial,
    /// A fatal failure (`error`).
    Fatal,
}

/// The name of each outcome in machine output.
pub open spec fn status_word(s: EnvelopeStatus) -> Seq<char> {
    match s {
        EnvelopeStatus::Complete => "ok"@,
        EnvelopeStatus::Partial => "partial"@,
        EnvelopeStatus::Fatal => "error"@,
    }
}

/// The process exit code of each outcome: 0 complete, 2 partial, 1 fatal.
pub open spec fn status_exit_code(s: EnvelopeStatus) -> i32 {
    match s {
        EnvelopeStatus::Complete => 0,
        EnvelopeStatus::Partial => 2,
        EnvelopeStatus::Fatal => 1,
    }
}

impl EnvelopeStatus {
    /// The name of this outcome in machine output.
    pub fn as_str(&self) -> (r: &'static str)
        ensures
            r@ == status_word(*self),
    {
        match self {
            EnvelopeStatus::Complete => "ok",
            EnvelopeStatus::Partial => "partial",
            EnvelopeStatus::Fatal => "error",
        }
    }

    /// The process exit code of this outcome.
    pub fn exit_code(&self) -> (r: i32)
        ensures
            r == status_exit_code(*self),
    {
        match self {
            EnvelopeStatus::Complete => 0,
            EnvelopeStatus::Partial => 2,
            EnvelopeStatus::Fatal => 1,
        }
    }
}

/// A machine-readable answer: schema version 2, an outcome, the data and structured errors.
#[derive(Debug)]
pub struct Envelope<T> {
    pub schema_version: u8,
    pub status: EnvelopeStatus,
    pub data: T,
    pub errors: Vec<ErrorDetail>,
}

impl<T> Envelope<T> {
    /// Complete data, without errors.
    pub fn ok(data: T) -> (r: Envelope<T>)
        ensures
            r.schema_version == 2,
            r.status == EnvelopeStatus::Complete,
            r.data == data,
            r.errors@.len() == 0,
    {
        Envelope { schema_version: SCHEMA_VERSION, status: EnvelopeStatus::Complete, data, errors: Vec::new() }
    }

    /// Valid partial data with the errors met on the way.
    pub fn partial(data: T, errors: Vec<ErrorDetail>) -> (r: Envelope<T>)
        ensures
            r.schema_version == 2,
            r.status == EnvelopeStatus::Partial,
            r.data == data,
            r.errors == errors,
    {
        Envelope { schema_version: SCHEMA_VERSION, status: EnvelopeStatus::Partial, data, errors }
    }

    /// A fatal failure, with what data there is and the errors.
    pub fn error(data: T, errors: Vec<ErrorDetail>) -> (r: Envelope<T>)
        ensures
            r.schema_version == 2,
            r.status == EnvelopeStatus::Fatal,
            r.data == data,
            r.errors == errors,
    {
        Envelope { schema_version: SCHEMA_VERSION, status: EnvelopeStatus::Fatal, data, errors }
    }

    /// The process exit code of this answer.
    pub fn exit_code(&self) -> (r: i32)
        ensures
            r == status_exit_code(self.status),
    {
        self.status.exit_code()
    }
}

} // verus!
