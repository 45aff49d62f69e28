//! Status codes and error values produced by route building and lookup.

use vstd::prelude::*;

verus! {

/// The failure status of a lookup that found no handler.
///
/// `NotFound` means no registered pattern matched the path at all;
/// `MethodNotAllowed` means some pattern matched the path, but only under
/// a method other than the requested one.
#[derive(Clone, Copy, Debug, PartialEq, Eq, Structural)]
pub enum StatusCode {
    NotFound,
    MethodNotAllowed,
}

/// Returned by [`crate::pattern::normalize_pattern`] for a pattern that is
/// not rooted: after trimming it is empty or starts with neither `/` nor `^`.
#[derive(Clone, Copy, Debug, PartialEq, Eq, Structural)]
pub struct InvalidPatternError;

/// Returned by [`crate::matcher::CompiledPattern::compile`] for a pattern
/// that the regular-expression engine rejects.
#[derive(Clone, Copy, Debug, PartialEq, Eq, Structural)]
pub struct PatternCompileError;

/// The reason a route table could not be built. Building is all-or-nothing:
/// the first offending registration aborts it and no table is produced.
#[derive(Clone, Copy, Debug, PartialEq, Eq, Structural)]
pub enum BuildError {
    /// A registered pattern failed normalization (it was not rooted).
    InvalidPattern,
    /// A normalized pattern was rejected by the regular-expression engine.
    PatternCompile,
}

impl StatusCode {
    /// The numeric HTTP status code this failure is reported as.
    pub fn code(&self) -> (c: u16)
        ensures
            c == (match *self {
                StatusCode::NotFound => 404u16,
                StatusCode::MethodNotAllowed => 405u16,
            }),
    {
        match *self {
            StatusCode::NotFound => 404,
            StatusCode::MethodNotAllowed => 405,
        }
    }
}

} // verus!
