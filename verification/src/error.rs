//! The process-fatal error type: a carried message, nothing more.

use vstd::prelude::*;
use vstd::string::StringExecFns;

verus! {

/// A fatal error with a human-readable message.
#[derive(Debug)]
pub struct Error(String);

impl Error {
    /// The carried message, as a sequence of characters.
    pub closed spec fn spec_message(&self) -> Seq<char> {
        self.0@
    }

    pub fn message(&self) -> (r: &String)
        ensures
            r@ == self.spec_message(),
    {
        &self.0
    }
}

impl From<String> for Error {
    fn from(other: String) -> (r: Error) {
        Error(other)
    }
}

impl vstd::std_specs::convert::FromSpecImpl<String> for Error {
    open spec fn obeys_from_spec() -> bool {
        true
    }

    closed spec fn from_spec(other: String) -> Error {
        Error(other)
    }
}

/// Types whose values can be turned into a fatal `Error`.
pub trait IntoError: Sized {
    spec fn spec_error_message(self) -> Seq<char>;

    fn into_error(self) -> (r: Error)
        ensures
            r.spec_message() == self.spec_error_message(),
    ;
}

impl IntoError for String {
    open spec fn spec_error_message(self) -> Seq<char> {
        self@
    }

    fn into_error(self) -> (r: Error) {
        Error(self)
    }
}

impl IntoError for &str {
    open spec fn spec_error_message(self) -> Seq<char> {
        self@
    }

    fn into_error(self) -> (r: Error) {
        Error(String::from_str(self))
    }
}

} // verus!
