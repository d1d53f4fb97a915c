//! The single failure type that every layer hands to its caller.

use vstd::prelude::*;
use vstd::string::*;

verus! {

/// What went wrong, by the layer that noticed it.
#[derive(Debug, Clone, Copy, PartialEq, Eq, Structural)]
pub enum ErrorKind {
    /// A malformed descriptor or literal.
    Parse,
    /// A column that does not decode, or a JSON shape that is no value.
    TypeCoercion,
    /// A select shape that the compiler does not support.
    SqlCompile,
    /// A connection, statement or execution failure.
    Db,
    /// A script that reached for a capability it is denied.
    ScriptSandbox,
    /// A script that failed while running.
    ScriptRuntime,
    /// An `INSERT ... RETURNING` that produced no row.
    EmptyResult,
}

/// A failure: its kind and one human-readable line.
#[derive(Debug, Clone, PartialEq, Eq)]
pub struct MyError {
    pub kind: ErrorKind,
    pub message: String,
}

impl MyError {
    /// A failure of the given kind with the given message.
    pub fn new(kind: ErrorKind, message: &str) -> (e: MyError)
        ensures
            e.kind == kind,
            e.message@ == message@,
    {
        MyError { kind, message: String::from_str(message) }
    }

    /// The human-readable line, as the caller shows it.
    pub fn message(&self) -> (m: String)
        ensures
            m@ == self.message@,
    {
        self.message.clone()
    }
}

} // verus!
