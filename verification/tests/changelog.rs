#[test]
fn changelog_test_changelog_contents() {
    let changelog = mkcmt::changelog::get_changelog();
    assert!(changelog.types.contains(&"feat".to_string()));
    assert!(changelog.scopes.contains(&"ui".to_string()));
    assert_eq!(changelog.breaking_marker, "!");
}

#[test]
fn commit_test_changelog_contents() {
    let changelog = mkcmt::commit::changelog::get_changelog();
    assert!(changelog.types.contains(&"feat".to_string()));
    assert!(changelog.scopes.contains(&"ui".to_string()));
    assert_eq!(changelog.breaking_marker, "!");
}

#[test]
fn test_changelog_exact_contents() {
    let changelog = mkcmt::changelog::get_changelog();
    assert_eq!(
        changelog.types,
        vec!["feat", "fix", "docs", "style", "refactor", "test", "chore"]
    );
    assert_eq!(changelog.scopes, vec!["core", "ui", "api", "build", "docs", "tests"]);
    assert_eq!(changelog.breaking_marker, "!");
}
