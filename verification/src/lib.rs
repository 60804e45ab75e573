//! Turn a tab-separated record of an identifier and a free-text title into a
//! branch name that satisfies the reference-naming restrictions of a version
//! control system.
//!
//! The pipeline is linear: a line is split at its first tab, an optional
//! prepend segment and a type segment are joined into a prefix, the title is
//! rendered as a lower-case hyphenated slug, and the composed candidate is
//! sanitized by an ordered sequence of rewrite passes.

pub mod chars;
pub mod config;
pub mod laws;
pub mod pipeline;
pub mod sanitizer;

pub use config::{Config, Error};
pub use pipeline::{get_branch_name, get_prefix, run};
pub use sanitizer::{clean_branch_name, truncate_branch_name};
