//! The taxonomy, re-exported next to the parser for callers that reach it
//! through the [`crate::commit`] module.

pub use crate::changelog::Changelog;
pub use crate::changelog::get_changelog;
