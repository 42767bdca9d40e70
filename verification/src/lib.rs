//! A line-oriented text macro engine.
//!
//! A document is processed one line at a time. A line whose first character
//! after leading ASCII whitespace is `#` is a directive: it can bind an
//! object-like macro or a function-like macro, consume one externally
//! supplied parameter, or splice another file of an in-memory file table
//! into the output. Every other line is emitted after substitution: each
//! object-like macro's occurrences are rewritten first, then each
//! function-like macro's calls, always under identifier-boundary matching.
//!
//! The whole engine is specified by a spec-level interpreter ([`expand_doc`])
//! and the executable entry points are proved to return exactly what that
//! interpreter says.

pub mod chars;
pub mod engine;
pub mod error;
pub mod fnsubst;
pub mod laws;
pub mod subst;
pub mod text;

pub use engine::FileSet;
pub use engine::MAX_SPLICE_DEPTH;
pub use engine::parse;
pub use engine::parse_string;
pub use error::Error;
