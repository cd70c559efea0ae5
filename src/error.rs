//! Errors of the scope runtime and the uniform form the evaluator shows them in.

use vstd::prelude::*;
use vstd::string::StringExecFns;

verus! {

/// What can go wrong when binding, looking up or importing names.
#[derive(Debug, PartialEq, Eq)]
pub enum EnvironmentError {
    /// A binding was attempted on a frozen environment.
    TryingToMutateFrozenEnvironment,
    /// The name is bound nowhere along the scope chain.
    VariableNotFound(String),
    /// A local slot was read before any value was assigned to it (raised by
    /// the call-frame evaluator; nothing in this crate produces it).
    LocalVariableReferencedBeforeAssignment(String),
    /// The imported symbol is private: empty or starting with `_`.
    CannotImportPrivateSymbol(String),
    /// The operation has no implementation anywhere along the scope chain.
    /// Its code `CM04`, label and message are this library's own choice:
    /// the codes above are the ones the evaluator already uses.
    UnsupportedOperation(String),
}

/// An error as script authors and the embedding host see it: a stable
/// code, a one-line label and a message.
#[derive(Debug, PartialEq, Eq)]
pub struct RuntimeError {
    pub code: String,
    pub label: String,
    pub message: String,
}

pub open spec fn code_of(e: EnvironmentError) -> Seq<char> {
    match e {
        EnvironmentError::TryingToMutateFrozenEnvironment => "CM00"@,
        EnvironmentError::VariableNotFound(_) => "CM01"@,
        EnvironmentError::LocalVariableReferencedBeforeAssignment(_) => "CM03"@,
        EnvironmentError::CannotImportPrivateSymbol(_) => "CE02"@,
        EnvironmentError::UnsupportedOperation(_) => "CM04"@,
    }
}

pub open spec fn label_of(e: EnvironmentError) -> Seq<char> {
    match e {
        EnvironmentError::TryingToMutateFrozenEnvironment => "This value belong to a frozen environment"@,
        EnvironmentError::VariableNotFound(_) => "Variable was not found"@,
        EnvironmentError::LocalVariableReferencedBeforeAssignment(_) => "Local variable referenced before assignment"@,
        EnvironmentError::CannotImportPrivateSymbol(s) => "Symbol '"@ + s@ + "' is private"@,
        EnvironmentError::UnsupportedOperation(_) => "Operation not supported"@,
    }
}

pub open spec fn message_of(e: EnvironmentError) -> Seq<char> {
    match e {
        EnvironmentError::TryingToMutateFrozenEnvironment => "Cannot mutate a frozen environment"@,
        EnvironmentError::VariableNotFound(s) => "Variable '"@ + s@ + "' not found"@,
        EnvironmentError::LocalVariableReferencedBeforeAssignment(s) => "Local variable '"@ + s@ + "' referenced before assignment"@,
        EnvironmentError::CannotImportPrivateSymbol(s) => "Cannot import private symbol '"@ + s@ + "'"@,
        EnvironmentError::UnsupportedOperation(s) => "Operation '"@ + s@ + "' is not supported"@,
    }
}

/// `before`, then `s`, then `after`, as a new string.
fn surround(before: &str, s: &String, after: &str) -> (r: String)
    ensures
        r@ == before@ + s@ + after@,
{
    let r = String::from_str(before);
    let r = r.concat(s.as_str());
    r.concat(after)
}

impl EnvironmentError {
    /// The stable code of this error.
    pub fn code(&self) -> (r: String)
        ensures
            r@ == code_of(*self),
    {
        match self {
            EnvironmentError::TryingToMutateFrozenEnvironment => String::from_str("CM00"),
            EnvironmentError::VariableNotFound(_) => String::from_str("CM01"),
            EnvironmentError::LocalVariableReferencedBeforeAssignment(_) => String::from_str("CM03"),
            EnvironmentError::CannotImportPrivateSymbol(_) => String::from_str("CE02"),
            EnvironmentError::UnsupportedOperation(_) => String::from_str("CM04"),
        }
    }

    /// The one-line label of this error.
    pub fn label(&self) -> (r: String)
        ensures
            r@ == label_of(*self),
    {
        match self {
            EnvironmentError::TryingToMutateFrozenEnvironment => String::from_str(
                "This value belong to a frozen environment",
            ),
            EnvironmentError::VariableNotFound(_) => String::from_str("Variable was not found"),
            EnvironmentError::LocalVariableReferencedBeforeAssignment(_) => String::from_str(
                "Local variable referenced before assignment",
            ),
            EnvironmentError::CannotImportPrivateSymbol(s) => surround("Symbol '", s, "' is private"),
            EnvironmentError::UnsupportedOperation(_) => String::from_str("Operation not supported"),
        }
    }

    /// The human-readable message of this error.
    pub fn message(&self) -> (r: String)
        ensures
            r@ == message_of(*self),
    {
        match self {
            EnvironmentError::TryingToMutateFrozenEnvironment => String::from_str(
                "Cannot mutate a frozen environment",
            ),
            EnvironmentError::VariableNotFound(s) => surround("Variable '", s, "' not found"),
            EnvironmentError::LocalVariableReferencedBeforeAssignment(s) => surround(
                "Local variable '",
                s,
                "' referenced before assignment",
            ),
            EnvironmentError::CannotImportPrivateSymbol(s) => surround(
                "Cannot import private symbol '",
                s,
                "'",
            ),
            EnvironmentError::UnsupportedOperation(s) => surround("Operation '", s, "' is not supported"),
        }
    }

    /// This error in the uniform form the evaluator reports.
    pub fn to_runtime_error(&self) -> (r: RuntimeError)
        ensures
            r.code@ == code_of(*self),
            r.label@ == label_of(*self),
            r.message@ == message_of(*self),
    {
        RuntimeError { code: self.code(), label: self.label(), message: self.message() }
    }
}

} // verus!
