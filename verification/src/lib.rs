use vstd::prelude::*;

pub mod control;
pub mod enumerate;
pub mod error;
pub mod matching;
pub mod select;
pub mod store;

verus! {

/// Converts a fallible outcome into an optional value, discarding the error.
///
/// Callers that tolerate per-item failures use this to skip a bad item and
/// keep going; the `name` argument labels the operation for diagnostics.
pub fn ok_report<T, E>(res: Result<T, E>, name: &str) -> (r: Option<T>)
    ensures
        match res {
            Ok(v) => r == Some(v),
            Err(_) => r is None,
        },
{
    match res {
        Ok(val) => Some(val),
        Err(_) => None,
    }
}

/// The operation one invocation performs. The command-line front end
/// carries its own copy of this vocabulary with the parsing attributes the
/// library cannot hold, and converts into this one.
#[derive(Debug)]
pub enum Command {
    /// Rotate to a random configuration whose name the pattern accepts.
    Up { pattern: regex::Regex },
    /// List the configuration names the pattern accepts.
    Ls { pattern: regex::Regex },
    /// Deactivate the currently active configuration, if any.
    Down,
}

/// Carries a closure as a value, so a caller can hand a deferred
/// computation around under a single name.
pub struct FromFn<F>(F);

impl<F> FromFn<F> {
    /// The closure the wrapper carries.
    pub closed spec fn spec_op(self) -> F {
        self.0
    }

    /// Wraps `op`; the wrapped closure is exactly the one handed in.
    pub fn new(op: F) -> (r: FromFn<F>)
        ensures
            r.spec_op() == op,
    {
        FromFn(op)
    }
}

} // verus!
