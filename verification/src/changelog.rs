//! The read-only taxonomy: sanctioned commit types and scopes, and the
//! marker that flags a breaking change.
//!
//! The taxonomy is pure reference data.  The parser in [`crate::commit`]
//! never consults it: deciding whether a parsed `commit_type` or `scope` is
//! sanctioned is deliberately left to the caller.

use vstd::prelude::*;

verus! {

/// The complete taxonomy: the ordered, duplicate-free lists of sanctioned
/// commit types and scopes, and the breaking-change marker.
#[derive(Debug)]
pub struct Changelog {
    /// Sanctioned commit types, e.g. `feat` or `fix`.
    pub types: Vec<String>,
    /// Sanctioned scopes, e.g. `ui` or `api`.
    pub scopes: Vec<String>,
    /// The marker whose presence in a footer flags a breaking change.
    pub breaking_marker: String,
}

impl Changelog {
    /// A well-formed taxonomy lists exactly the sanctioned types and scopes,
    /// in their fixed order, and uses `"!"` as the breaking-change marker.
    pub open spec fn wf(self) -> bool {
        &&& self.types.deep_view() == seq![
            "feat"@,
            "fix"@,
            "docs"@,
            "style"@,
            "refactor"@,
            "test"@,
            "chore"@,
        ]
        &&& self.scopes.deep_view() == seq!["core"@, "ui"@, "api"@, "build"@, "docs"@, "tests"@]
        &&& self.breaking_marker@ == "!"@
    }
}

/// Returns the taxonomy.  Every call yields the same well-formed data.
pub fn get_changelog() -> (r: Changelog)
    ensures
        r.wf(),
{
    let mut types: Vec<String> = Vec::new();
    types.push("feat".to_owned());
    types.push("fix".to_owned());
    types.push("docs".to_owned());
    types.push("style".to_owned());
    types.push("refactor".to_owned());
    types.push("test".to_owned());
    types.push("chore".to_owned());
    let mut scopes: Vec<String> = Vec::new();
    scopes.push("core".to_owned());
    scopes.push("ui".to_owned());
    scopes.push("api".to_owned());
    scopes.push("build".to_owned());
    scopes.push("docs".to_owned());
    scopes.push("tests".to_owned());
    let r = Changelog { types, scopes, breaking_marker: "!".to_owned() };
    proof {
        assert(r.types.deep_view() =~= seq![
            "feat"@,
            "fix"@,
            "docs"@,
            "style"@,
            "refactor"@,
            "test"@,
            "chore"@,
        ]);
        assert(r.scopes.deep_view() =~= seq![
            "core"@,
            "ui"@,
            "api"@,
            "build"@,
            "docs"@,
            "tests"@,
        ]);
    }
    r
}

} // verus!
