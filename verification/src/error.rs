//! The error every fallible operation of the library reports: a message in
//! the wording Desktop matches on (many start with a stable code such as
//! `UNSUPPORTED_PLATFORM:`).
use vstd::prelude::*;

verus! {

broadcast use vstd::string::group_string_axioms;

#[derive(Debug, Clone, PartialEq, Eq)]
pub struct NativeError {
    pub message: String,
}

/// `result` failed with exactly `message`.
pub open spec fn fails_with<T>(result: Result<T, NativeError>, message: Seq<char>) -> bool {
    match result {
        Ok(_) => false,
        Err(error) => error.message@ == message,
    }
}

impl NativeError {
    pub fn new(message: &str) -> (error: NativeError)
        ensures
            error.message@ == message@,
    {
        NativeError { message: message.to_string() }
    }
}

} // verus!
