//! Matching of semi-structured text against composite patterns built from
//! named, reusable sub-patterns.
//!
//! A caller seeds a registry of named regex fragments, then compiles a
//! pattern string whose `%{NAME}`, `%{NAME:ALIAS}` and `%{NAME=DEFINITION}`
//! placeholders are expanded, bounded-recursively, into one flat regex with
//! uniquely numbered capture groups. The compiled pattern matches arbitrary
//! text, and captured fields are retrieved under the caller's chosen names.

pub mod dict;
pub mod engine;
pub mod expand;
mod grok;
pub mod laws;
pub mod parser;
pub mod text;

pub use dict::Dict;
pub use grok::{Error, Grok, Matches, Pattern};
