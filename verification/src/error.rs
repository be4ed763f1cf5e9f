//! What can go wrong with a descriptor: a field that the user can correct,
//! or anything else.

use vstd::prelude::*;
use vstd::string::*;
use crate::key::{key_name, Key};
use crate::text::join_text;

verus! {

/// A field of the descriptor that is missing or cannot be used.
#[derive(Debug)]
pub struct ValidationError {
    pub field: Key,
    pub message: String,
}

/// An error of the descriptor's operations.
#[derive(Debug)]
pub enum DesktopFileError {
    /// A field is missing or cannot be used.
    ValidationError(ValidationError),
    /// Anything else, with its message.
    Other(String),
}

/// An error as a mathematical value.
pub enum Failure {
    Validation { field: Key, message: Seq<char> },
    Other { message: Seq<char> },
}

impl View for ValidationError {
    type V = Failure;

    open spec fn view(&self) -> Failure {
        Failure::Validation { field: self.field, message: self.message@ }
    }
}

impl View for DesktopFileError {
    type V = Failure;

    open spec fn view(&self) -> Failure {
        match self {
            DesktopFileError::ValidationError(e) => e@,
            DesktopFileError::Other(message) => Failure::Other { message: message@ },
        }
    }
}

/// The text of an error: for a field, `Field: <key>, Error: <message>`;
/// otherwise the message.
pub open spec fn failure_text(failure: Failure) -> Seq<char> {
    match failure {
        Failure::Validation { field, message } => "Field: "@ + key_name(field) + ", Error: "@
            + message,
        Failure::Other { message } => message,
    }
}

impl ValidationError {
    /// The error that `field` is missing.
    pub fn missing(field: Key) -> (r: ValidationError)
        ensures
            r@ == (Failure::Validation { field, message: "Missing"@ }),
    {
        ValidationError { field, message: String::from_str("Missing") }
    }

    /// The error that `field` cannot be used, with the reason.
    pub fn new(field: Key, message: &str) -> (r: ValidationError)
        ensures
            r@ == (Failure::Validation { field, message: message@ }),
    {
        ValidationError { field, message: String::from_str(message) }
    }

    /// The text of the error.
    pub fn to_string(&self) -> (r: String)
        ensures
            r@ == failure_text(self@),
    {
        let a = join_text("Field: ", self.field.as_str());
        let b = join_text(a.as_str(), ", Error: ");
        join_text(b.as_str(), self.message.as_str())
    }
}

impl DesktopFileError {
    /// An error that is not about a field.
    pub fn other(message: &str) -> (r: DesktopFileError)
        ensures
            r@ == (Failure::Other { message: message@ }),
    {
        DesktopFileError::Other(String::from_str(message))
    }

    /// The text of the error.
    pub fn to_string(&self) -> (r: String)
        ensures
            r@ == failure_text(self@),
    {
        match self {
            DesktopFileError::ValidationError(e) => e.to_string(),
            DesktopFileError::Other(message) => message.clone(),
        }
    }
}

} // verus!
