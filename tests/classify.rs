use releaser::commit::{classify, parse_commit, category_of_keyword, CommitCategory, CommitError, RawCommit};

fn raw(message: &str) -> RawCommit {
    RawCommit { sha: "abc123".to_string(), message: message.to_string(), timestamp: 0 }
}

fn other_tag(c: &CommitCategory) -> Option<String> {
    match c {
        CommitCategory::Other(k) => Some(k.clone()),
        _ => None,
    }
}

#[test]
fn no_colon_is_not_classified() {
    assert!(matches!(classify("update readme"), Ok(None)));
    assert!(matches!(classify("Merge branch main\nfix: not on first line"), Ok(None)));
}

#[test]
fn fix_keyword_gives_fix() {
    match classify("fix: crash on start") {
        Ok(Some((CommitCategory::Fix, title))) => assert_eq!(title, "crash on start"),
        _ => panic!("expected a fix"),
    }
}

#[test]
fn title_is_trimmed() {
    match classify("fix:    spaced out \t ") {
        Ok(Some((CommitCategory::Fix, title))) => assert_eq!(title, "spaced out"),
        _ => panic!("expected a fix"),
    }
}

#[test]
fn feat_and_feature_give_feature() {
    match classify("feat: add login") {
        Ok(Some((CommitCategory::Feature, title))) => assert_eq!(title, "add login"),
        _ => panic!("expected a feature"),
    }
    match classify("feature: add logout") {
        Ok(Some((CommitCategory::Feature, title))) => assert_eq!(title, "add logout"),
        _ => panic!("expected a feature"),
    }
}

#[test]
fn other_keyword_is_kept_verbatim() {
    match classify("docs: update readme") {
        Ok(Some((c, title))) => {
            assert_eq!(other_tag(&c), Some("docs".to_string()));
            assert_eq!(title, "update readme");
        }
        _ => panic!("expected another category"),
    }
    match classify("Fix: upper case") {
        Ok(Some((c, _))) => assert_eq!(other_tag(&c), Some("Fix".to_string())),
        _ => panic!("expected another category"),
    }
}

#[test]
fn scope_and_breaking_marker_are_not_parsed() {
    match parse_commit(&raw("fix(core)!: drop api")) {
        Ok(Some(c)) => {
            assert_eq!(other_tag(&c.category), Some("fix(core)!".to_string()));
            assert!(!c.breaking);
            assert_eq!(c.scope, "");
            assert_eq!(c.title, "drop api");
        }
        _ => panic!("expected a classification"),
    }
}

#[test]
fn only_first_line_counts() {
    match classify("fix: first\r\nfeat: second") {
        Ok(Some((CommitCategory::Fix, title))) => assert_eq!(title, "first"),
        _ => panic!("expected a fix"),
    }
}

#[test]
fn colon_splits_at_first_one() {
    match classify("feat: a: b") {
        Ok(Some((CommitCategory::Feature, title))) => assert_eq!(title, "a: b"),
        _ => panic!("expected a feature"),
    }
}

#[test]
fn empty_message_is_an_error() {
    assert!(matches!(classify(""), Err(CommitError::EmptyMessage)));
    assert!(matches!(parse_commit(&raw("")), Err(CommitError::EmptyMessage)));
}

#[test]
fn parse_commit_keeps_source() {
    match parse_commit(&raw("fix: x")) {
        Ok(Some(c)) => {
            assert_eq!(c.source.sha, "abc123");
            assert_eq!(c.source.message, "fix: x");
        }
        _ => panic!("expected a classification"),
    }
}

#[test]
fn keyword_categories() {
    assert!(matches!(category_of_keyword("fix"), CommitCategory::Fix));
    assert!(matches!(category_of_keyword("feat"), CommitCategory::Feature));
    assert!(matches!(category_of_keyword("feature"), CommitCategory::Feature));
    assert_eq!(other_tag(&category_of_keyword("chore")), Some("chore".to_string()));
    assert!(CommitCategory::Fix.same_as(&CommitCategory::Fix));
    assert!(!CommitCategory::Fix.same_as(&CommitCategory::Feature));
}
