//! The errors of a command line and the messages that describe them.
use vstd::prelude::*;
use crate::decimal::{decimal, push_decimal};

verus! {

pub enum CliError<'a> {
    TooFewArguments,
    TooManyArguments,
    InvalidSize(usize),
    NonExistentFile(&'a str),
}

/// The message for each error.
pub open spec fn describe_spec(e: CliError) -> Seq<char> {
    match e {
        CliError::TooFewArguments => "Too Few Arguments"@,
        CliError::TooManyArguments => "Too many arguments"@,
        CliError::InvalidSize(sz) => "Invalid size "@ + decimal(sz as nat),
        CliError::NonExistentFile(file) => "Non-existent file "@ + file@,
    }
}

/// The message that describes `e`.
pub fn describe(e: &CliError) -> (r: String)
    ensures
        r@ == describe_spec(*e),
{
    match e {
        CliError::TooFewArguments => String::from_str("Too Few Arguments"),
        CliError::TooManyArguments => String::from_str("Too many arguments"),
        CliError::InvalidSize(sz) => {
            let mut s = String::from_str("Invalid size ");
            push_decimal(&mut s, *sz);
            s
        },
        CliError::NonExistentFile(file) => {
            let mut s = String::from_str("Non-existent file ");
            s.append(file);
            s
        },
    }
}

} // verus!
