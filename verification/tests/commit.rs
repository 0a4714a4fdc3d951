use mkcmt::commit::CommitMessage;
use mkcmt::commit::ParseError;

#[test]
fn test_parse_with_scope_and_footer_breaking() {
    let input = "\
feat(ui): add new button

This commit adds a new button to the UI.

BREAKING CHANGE!: The button API has changed.";
    let commit = CommitMessage::parse(input).unwrap();
    assert_eq!(commit.commit_type, "feat");
    assert_eq!(commit.scope, Some("ui".into()));
    assert_eq!(commit.description, "add new button");
    assert_eq!(commit.body, Some("This commit adds a new button to the UI.".into()));
    assert!(commit.breaking);
}

#[test]
fn test_parse_without_scope_and_footer() {
    let input = "fix: correct typo";
    let commit = CommitMessage::parse(input).unwrap();
    assert_eq!(commit.commit_type, "fix");
    assert_eq!(commit.scope, None);
    assert_eq!(commit.description, "correct typo");
    assert_eq!(commit.body, None);
    assert_eq!(commit.footer, None);
    assert!(!commit.breaking);
}

#[test]
fn test_parse_with_empty_body_and_footer() {
    let input = "docs(api): update documentation\n\n\n";
    let commit = CommitMessage::parse(input).unwrap();
    assert_eq!(commit.commit_type, "docs");
    assert_eq!(commit.scope, Some("api".into()));
    assert_eq!(commit.description, "update documentation");
    assert_eq!(commit.body, None);
    assert_eq!(commit.footer, None);
    assert!(!commit.breaking);
}

#[test]
fn test_parse_error_missing_colon() {
    let input = "chore update dependencies";
    let err = CommitMessage::parse(input).unwrap_err();
    assert!(err.message().contains("Missing ':'"));
}

#[test]
fn test_missing_colon_variant() {
    let err = CommitMessage::parse("chore update dependencies").unwrap_err();
    assert_eq!(err, ParseError::MissingColon);
}

#[test]
fn test_missing_closing_paren() {
    let err = CommitMessage::parse("feat(ui: add new button").unwrap_err();
    assert_eq!(err, ParseError::MissingClosingParen);
    assert!(err.message().contains("Missing closing ')'"));
}

#[test]
fn test_empty_scope_parens() {
    let err = CommitMessage::parse("feat(): add new button").unwrap_err();
    assert_eq!(err, ParseError::EmptyScope);
}

#[test]
fn test_blank_scope_parens() {
    let err = CommitMessage::parse("feat(   ): add new button").unwrap_err();
    assert_eq!(err, ParseError::EmptyScope);
    assert!(err.message().contains("Empty scope"));
}

#[test]
fn test_error_messages() {
    assert_eq!(ParseError::EmptyInput.message(), "Empty commit message");
    assert_eq!(ParseError::MissingColon.message(), "Missing ':' in header");
    assert_eq!(ParseError::MissingClosingParen.message(), "Missing closing ')' in header");
    assert_eq!(ParseError::EmptyScope.message(), "Empty scope in header");
}

#[test]
fn test_fields_are_trimmed() {
    let commit = CommitMessage::parse("  feat (  ui  ) :   add new button  ").unwrap();
    assert_eq!(commit.commit_type, "feat");
    assert_eq!(commit.scope, Some("ui".into()));
    assert_eq!(commit.description, "add new button");
}

#[test]
fn test_only_first_colon_counts() {
    let commit = CommitMessage::parse("fix: correct: the typo").unwrap();
    assert_eq!(commit.commit_type, "fix");
    assert_eq!(commit.description, "correct: the typo");
}

#[test]
fn test_only_first_paren_pair_counts() {
    let commit = CommitMessage::parse("feat(ui)(api): add new button").unwrap();
    assert_eq!(commit.commit_type, "feat");
    assert_eq!(commit.scope, Some("ui".into()));
    assert_eq!(commit.description, "add new button");
}

#[test]
fn test_paren_after_colon_is_description_text() {
    let commit = CommitMessage::parse("fix: correct (all) typos").unwrap();
    assert_eq!(commit.scope, None);
    assert_eq!(commit.description, "correct (all) typos");
}

#[test]
fn test_empty_description_is_permitted() {
    let commit = CommitMessage::parse("fix:").unwrap();
    assert_eq!(commit.commit_type, "fix");
    assert_eq!(commit.description, "");
}

#[test]
fn test_sections_beyond_third_are_ignored() {
    let input = "fix: a\n\nbody\n\nfooter\n\nextra!";
    let commit = CommitMessage::parse(input).unwrap();
    assert_eq!(commit.body, Some("body".into()));
    assert_eq!(commit.footer, Some("footer".into()));
    assert!(!commit.breaking);
}

#[test]
fn test_marker_in_header_or_body_is_not_breaking() {
    let input = "feat!: add button\n\nbody has a marker! too\n\nplain footer";
    let commit = CommitMessage::parse(input).unwrap();
    assert_eq!(commit.footer, Some("plain footer".into()));
    assert!(!commit.breaking);
}

#[test]
fn test_footer_without_marker_is_not_breaking() {
    let input = "feat(ui): add new button\n\nbody\n\nBREAKING CHANGE: The button API has changed.";
    let commit = CommitMessage::parse(input).unwrap();
    assert!(!commit.breaking);
}

#[test]
fn test_crlf_is_not_a_blank_line_separator() {
    let input = "fix: a\r\n\r\nbody";
    let commit = CommitMessage::parse(input).unwrap();
    assert_eq!(commit.body, None);
    assert_eq!(commit.footer, None);
}

#[test]
fn test_reparse_canonical_header_with_scope() {
    let commit = CommitMessage::parse("feat( ui ):  add new button ").unwrap();
    let canonical = format!(
        "{}({}): {}",
        commit.commit_type,
        commit.scope.clone().unwrap(),
        commit.description
    );
    let again = CommitMessage::parse(&canonical).unwrap();
    assert_eq!(again.commit_type, commit.commit_type);
    assert_eq!(again.scope, commit.scope);
    assert_eq!(again.description, commit.description);
}

#[test]
fn test_reparse_canonical_header_without_scope() {
    let commit = CommitMessage::parse("  fix :  correct typo ").unwrap();
    let canonical = format!("{}: {}", commit.commit_type, commit.description);
    let again = CommitMessage::parse(&canonical).unwrap();
    assert_eq!(again.commit_type, commit.commit_type);
    assert_eq!(again.scope, None);
    assert_eq!(again.description, commit.description);
}
