use vstd::prelude::*;

verus! {

/// Declares `regex::Regex` so compiled patterns can travel through
/// signatures and error values; the library treats such a value as opaque.
#[verifier::external_type_specification]
#[verifier::external_body]
pub struct ExRegex(regex::Regex);

/// Declares `std::io::Error` so failures reported by the surrounding
/// input/output code can be carried inside [`Error`].
#[verifier::external_type_specification]
#[verifier::external_body]
pub struct ExIoError(std::io::Error);

/// Everything that can go fatally wrong in one invocation.
#[derive(Debug)]
pub enum Error {
    /// No candidate configuration name matched the pattern.
    NoMatch { regex: regex::Regex },
    /// The external activation tool exited unsuccessfully; `code` is its exit
    /// code, absent when it was terminated by a signal.
    WgQuick { code: Option<i32> },
    /// Reading the configuration directory or the tracking file failed.
    Io { err: std::io::Error },
}

impl From<std::io::Error> for Error {
    fn from(err: std::io::Error) -> (r: Error)
        ensures
            r == (Error::Io { err }),
    {
        Error::Io { err }
    }
}

impl vstd::std_specs::convert::FromSpecImpl<std::io::Error> for Error {
    open spec fn obeys_from_spec() -> bool {
        true
    }

    open spec fn from_spec(err: std::io::Error) -> Error {
        Error::Io { err }
    }
}

} // verus!
