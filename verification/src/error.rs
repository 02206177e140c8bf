//! Descriptions of what could go wrong.

use vstd::prelude::*;

verus! {

/// A human-readable fatal error, printed once on the way out.
#[derive(Debug)]
pub struct Error(pub String);

impl Error {
    /// Wrap a diagnostic line.
    pub fn new(text: &str) -> (r: Self)
        ensures
            r.0@ == text@,
    {
        Error(String::from_str(text))
    }

    /// The diagnostic line itself.
    pub fn text(&self) -> (r: &str)
        ensures
            r@ == self.0@,
    {
        self.0.as_str()
    }
}

impl<'a> From<&'a str> for Error {
    fn from(s: &'a str) -> Self {
        Error(String::from_str(s))
    }
}

impl<'a> vstd::std_specs::convert::FromSpecImpl<&'a str> for Error {
    open spec fn obeys_from_spec() -> bool {
        false
    }

    open spec fn from_spec(v: &'a str) -> Error {
        arbitrary()
    }
}

impl From<String> for Error {
    fn from(s: String) -> Self {
        Error(s)
    }
}

impl vstd::std_specs::convert::FromSpecImpl<String> for Error {
    open spec fn obeys_from_spec() -> bool {
        true
    }

    open spec fn from_spec(v: String) -> Error {
        Error(v)
    }
}

/// How the process ends: cleanly, or with a diagnostic.
#[derive(Debug)]
pub struct Exit(pub Result<(), Error>);

impl From<Result<(), Error>> for Exit {
    fn from(result: Result<(), Error>) -> Self {
        Exit(result)
    }
}

impl vstd::std_specs::convert::FromSpecImpl<Result<(), Error>> for Exit {
    open spec fn obeys_from_spec() -> bool {
        true
    }

    open spec fn from_spec(v: Result<(), Error>) -> Exit {
        Exit(v)
    }
}

} // verus!
