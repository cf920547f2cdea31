use vstd::prelude::*;

use crate::text::{concat2, concat3, owned};

verus! {

/// Command-line error returned by the bootloader core.
#[derive(Debug, Clone, PartialEq, Eq)]
pub struct CliError {
    /// User-facing message.
    pub message: String,
}

impl CliError {
    /// Builds a command-line error from a user-facing message.
    pub fn new(message: String) -> (e: Self)
        ensures
            e.message@ == message@,
    {
        CliError { message }
    }

    /// Builds an error from a message slice.
    pub fn msg(message: &str) -> (e: Self)
        ensures
            e.message@ == message@,
    {
        CliError { message: owned(message) }
    }

    /// Error for an argument the parser does not accept.
    pub fn unsupported(arg: &str) -> (e: Self)
        ensures
            e.message@ == "unsupported argument: "@ + arg@,
    {
        CliError { message: concat2("unsupported argument: ", arg) }
    }

    /// Error for a flag that lacks its value.
    pub fn missing_value(flag: &str) -> (e: Self)
        ensures
            e.message@ == flag@ + " requires a value"@,
    {
        CliError { message: concat2(flag, " requires a value") }
    }

    /// Error for a flag given twice.
    pub fn duplicate(flag: &str) -> (e: Self)
        ensures
            e.message@ == flag@ + " was provided more than once"@,
    {
        CliError { message: concat2(flag, " was provided more than once") }
    }

    /// Error whose message is `a` followed by `b` and `c`.
    pub fn msg3(a: &str, b: &str, c: &str) -> (e: Self)
        ensures
            e.message@ == a@ + b@ + c@,
    {
        CliError { message: concat3(a, b, c) }
    }

    /// Returns the user-facing message.
    pub fn to_string(&self) -> (s: String)
        ensures
            s@ == self.message@,
    {
        self.message.clone()
    }
}

} // verus!
