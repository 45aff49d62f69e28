//! A small request-routing library.
//!
//! Route patterns are regular expressions anchored by [`pattern::normalize_pattern`],
//! compiled by the `regex` crate behind the narrow interface of [`matcher`],
//! and collected into immutable route tables by the builders in [`router`]
//! and [`recognizer`]. Lookup returns the earliest-registered matching
//! handler together with the substrings captured from the path, or a
//! status code describing why no handler applies.

pub mod errors;
pub mod matcher;
pub mod method;
pub mod pattern;
pub mod recognizer;
pub mod router;

pub use errors::BuildError;
pub use errors::InvalidPatternError;
pub use errors::PatternCompileError;
pub use errors::StatusCode;
pub use matcher::get_owned_captures;
pub use matcher::CompiledPattern;
pub use method::Method;
pub use pattern::normalize_pattern;
pub use recognizer::Captures;
pub use recognizer::RegexRouteRecognizer;
pub use recognizer::RegexRoutesBuilder;
pub use router::RouteBuilder;
pub use router::Router;
