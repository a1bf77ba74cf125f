//! A verified line-oriented pattern-search core.
//!
//! The library resolves a list of path strings (the stdin sentinel `-`,
//! files, directories with optional recursion) into an ordered list of
//! per-path outcomes, streams each source's text through a compiled pattern
//! matcher, and renders per-source listings or counts, prefixed with the
//! source name when more than one source resolved.  Alongside stand the
//! byte, line, character and word counters of the companion word-count
//! tool.
//!
//! Reading files, stdin and filesystem metadata is left to the caller;
//! the regular-expression engine and the directory walker are called
//! through trusted wrappers whose contracts name what they return.

pub mod matcher;
pub mod output;
pub mod pattern;
pub mod resolver;
pub mod strutil;
pub mod textcount;
