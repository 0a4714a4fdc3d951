//! Parser for Conventional Commit messages.
//!
//! A commit message is expected to follow the shape
//!
//! ```text
//! <type>(<optional scope>): <description>
//!
//! <optional body>
//!
//! <optional footer>
//! ```
//!
//! The [`commit`] module turns such text into a structured record or a
//! descriptive parse error, and its contracts pin down exactly which input
//! yields which outcome.  The [`changelog`] module holds the read-only
//! taxonomy of sanctioned commit types and scopes and the breaking-change
//! marker.  The [`laws`] module states and proves the parser's general
//! properties.

pub mod changelog;
pub mod commit;
pub mod laws;
pub mod text;
