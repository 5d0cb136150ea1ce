//! The errors that scripting calls raise.

use vstd::prelude::*;
use vstd::string::*;

verus! {

/// The class of exception that a script sees.
#[derive(Clone, Copy, Debug, PartialEq, Eq, Structural)]
pub enum ErrorKind {
    Value,
    Type,
    Key,
    Runtime,
    Overflow,
}

/// An error with the message that a script sees.
#[derive(Debug)]
pub struct ScriptError {
    pub kind: ErrorKind,
    pub message: String,
}

/// An error as its class and text.
pub struct ErrorText {
    pub kind: ErrorKind,
    pub message: Seq<char>,
}

impl View for ScriptError {
    type V = ErrorText;

    open spec fn view(&self) -> ErrorText {
        ErrorText { kind: self.kind, message: self.message@ }
    }
}

pub open spec fn value_error(message: Seq<char>) -> ErrorText {
    ErrorText { kind: ErrorKind::Value, message }
}

pub open spec fn type_error(message: Seq<char>) -> ErrorText {
    ErrorText { kind: ErrorKind::Type, message }
}

pub open spec fn key_error(message: Seq<char>) -> ErrorText {
    ErrorText { kind: ErrorKind::Key, message }
}

pub open spec fn runtime_error(message: Seq<char>) -> ErrorText {
    ErrorText { kind: ErrorKind::Runtime, message }
}

pub open spec fn overflow_error(message: Seq<char>) -> ErrorText {
    ErrorText { kind: ErrorKind::Overflow, message }
}

/// The name of an error's class.
pub open spec fn class_name(kind: ErrorKind) -> Seq<char> {
    match kind {
        ErrorKind::Value => "ValueError"@,
        ErrorKind::Type => "TypeError"@,
        ErrorKind::Key => "KeyError"@,
        ErrorKind::Runtime => "RuntimeError"@,
        ErrorKind::Overflow => "OverflowError"@,
    }
}

/// An error as one line: its class and its message.
pub open spec fn error_display(e: ErrorText) -> Seq<char> {
    class_name(e.kind) + ": "@ + e.message
}

impl ScriptError {
    /// The error as one line: its class and its message.
    pub fn display(&self) -> (r: String)
        ensures
            r@ == error_display(self@),
    {
        let class = match self.kind {
            ErrorKind::Value => "ValueError",
            ErrorKind::Type => "TypeError",
            ErrorKind::Key => "KeyError",
            ErrorKind::Runtime => "RuntimeError",
            ErrorKind::Overflow => "OverflowError",
        };
        class.to_owned().concat(": ").concat(&self.message)
    }

    pub fn value(message: String) -> (r: Self)
        ensures
            r@ == value_error(message@),
    {
        ScriptError { kind: ErrorKind::Value, message }
    }

    pub fn type_(message: String) -> (r: Self)
        ensures
            r@ == type_error(message@),
    {
        ScriptError { kind: ErrorKind::Type, message }
    }

    pub fn key(message: String) -> (r: Self)
        ensures
            r@ == key_error(message@),
    {
        ScriptError { kind: ErrorKind::Key, message }
    }

    pub fn overflow(message: String) -> (r: Self)
        ensures
            r@ == overflow_error(message@),
    {
        ScriptError { kind: ErrorKind::Overflow, message }
    }

    pub fn runtime(message: String) -> (r: Self)
        ensures
            r@ == runtime_error(message@),
    {
        ScriptError { kind: ErrorKind::Runtime, message }
    }
}

} // verus!
