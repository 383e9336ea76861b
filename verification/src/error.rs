//! The error taxonomy: template rejection, missing metadata, and
//! pass-through failures of the metadata collaborator.

use vstd::prelude::*;
use vstd::string::StringExecFns;

use crate::field::Field;
use crate::field::spec_display_name;

verus! {

/// Rejection of a template at compile time.
#[derive(Debug, Clone, PartialEq, Eq)]
pub enum CompileError {
    /// The template references a field key outside the closed set;
    /// carries the unrecognized key (without the leading `%`).
    UnknownField(String),
}

impl View for CompileError {
    type V = Seq<char>;

    /// The unrecognized key the error carries.
    open spec fn view(&self) -> Seq<char> {
        match self {
            CompileError::UnknownField(k) => k@,
        }
    }
}

/// Failure of evaluating a compiled template against one record.
#[derive(Debug, Clone, Copy, PartialEq, Eq, Structural)]
pub enum EvalError {
    /// The record has no value for a field the template references.
    MissingField(Field),
}

impl View for EvalError {
    type V = Field;

    /// The field the error carries.
    open spec fn view(&self) -> Field {
        match self {
            EvalError::MissingField(f) => *f,
        }
    }
}

/// Every failure the surrounding tool can surface for one input:
/// a malformed template, a record lacking a required field, or a failure
/// of the metadata-reading collaborator (opaque, forwarded unchanged).
#[derive(Debug, Clone, PartialEq, Eq)]
pub enum Error {
    /// The template references a field key outside the closed set.
    UnknownField(String),
    /// The record has no value for a field the template references.
    MissingField(Field),
    /// The metadata collaborator failed; carries its message.
    Source(String),
}

/// The [`Error`] a compile-time rejection becomes.
pub open spec fn spec_from_compile(e: CompileError) -> Error {
    match e {
        CompileError::UnknownField(k) => Error::UnknownField(k),
    }
}

/// The [`Error`] an evaluation failure becomes.
pub open spec fn spec_from_eval(e: EvalError) -> Error {
    match e {
        EvalError::MissingField(f) => Error::MissingField(f),
    }
}

/// The message for `e`, as the surrounding tool prints it.
pub open spec fn spec_message(e: Error) -> Seq<char> {
    match e {
        Error::UnknownField(k) => "bad format key: "@ + k@,
        Error::MissingField(f) => "missing required tag: "@ + spec_display_name(f),
        Error::Source(m) => m@,
    }
}

impl Error {
    /// Wraps a compile-time rejection into the combined taxonomy.
    pub fn from_compile(e: CompileError) -> (r: Error)
        ensures
            r == spec_from_compile(e),
    {
        match e {
            CompileError::UnknownField(k) => Error::UnknownField(k),
        }
    }

    /// Wraps an evaluation failure into the combined taxonomy.
    pub fn from_eval(e: EvalError) -> (r: Error)
        ensures
            r == spec_from_eval(e),
    {
        match e {
            EvalError::MissingField(f) => Error::MissingField(f),
        }
    }

    /// Wraps an opaque message of the metadata collaborator.
    pub fn from_source(message: String) -> (r: Error)
        ensures
            r == Error::Source(message),
    {
        Error::Source(message)
    }

    /// The human-readable message for this error.
    pub fn message(&self) -> (s: String)
        ensures
            s@ == spec_message(*self),
    {
        match self {
            Error::UnknownField(k) => {
                let mut s = "bad format key: ".to_owned();
                s.append(k.as_str());
                s
            },
            Error::MissingField(f) => {
                let mut s = "missing required tag: ".to_owned();
                s.append(f.display_name());
                s
            },
            Error::Source(m) => m.clone(),
        }
    }
}

} // verus!
