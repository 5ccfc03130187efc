use releaser::changelog::{conventional_commits_to_string, group_by_category};
use releaser::commit::{parse_commit, ClassifiedCommit, RawCommit};
use releaser::history::{commits_after, get_commits_since_last_release, release_window, Release};

fn raw_at(message: &str, timestamp: i64) -> RawCommit {
    RawCommit { sha: format!("sha-{}", timestamp), message: message.to_string(), timestamp }
}

fn classified(messages: &[&str]) -> Vec<ClassifiedCommit> {
    let mut out = Vec::new();
    for (i, m) in messages.iter().enumerate() {
        if let Ok(Some(c)) = parse_commit(&raw_at(m, i as i64)) {
            out.push(c);
        }
    }
    out
}

fn render(messages: &[&str]) -> String {
    conventional_commits_to_string(&group_by_category(&classified(messages)))
}

#[test]
fn end_to_end_without_release() {
    let listed = vec![
        raw_at("feat: add login", 3),
        raw_at("fix: crash on start", 2),
        raw_at("docs: update readme", 1),
    ];
    let groups = match get_commits_since_last_release(&None, &listed) {
        Ok(g) => g,
        Err(_) => panic!("no message is empty"),
    };
    assert_eq!(
        conventional_commits_to_string(&groups),
        "### Features\n- add login\n\n### Bug fixes\n- crash on start"
    );
}

#[test]
fn end_to_end_after_release() {
    let listed = vec![
        raw_at("fix: late fix", 200),
        raw_at("feat: old feature", 100),
        raw_at("fix: old fix", 50),
    ];
    let latest = Some(Release { published_at: Some(100) });
    assert_eq!(release_window(&latest), Some(100));
    let groups = match get_commits_since_last_release(&latest, &listed) {
        Ok(g) => g,
        Err(_) => panic!("no message is empty"),
    };
    assert_eq!(conventional_commits_to_string(&groups), "\n### Bug fixes\n- late fix");
}

#[test]
fn window_without_release_keeps_all() {
    let listed = vec![raw_at("fix: a", 1), raw_at("fix: b", 2)];
    assert_eq!(release_window(&None), None);
    assert_eq!(commits_after(&listed, None).len(), 2);
    assert_eq!(commits_after(&listed, Some(1)).len(), 1);
    assert_eq!(release_window(&Some(Release { published_at: None })), None);
}

#[test]
fn empty_message_in_window_fails() {
    let listed = vec![raw_at("fix: a", 10), raw_at("", 5)];
    assert!(get_commits_since_last_release(&None, &listed).is_err());
    assert!(get_commits_since_last_release(&Some(Release { published_at: Some(7) }), &listed).is_ok());
}

#[test]
fn groups_keep_input_order() {
    let cs = classified(&["fix: one", "feat: two", "fix: three", "chore: four"]);
    let g = group_by_category(&cs);
    assert_eq!(g.groups.len(), 3);
    let fixes = g.groups.iter().find(|x| matches!(x.category, releaser::commit::CommitCategory::Fix)).unwrap();
    let titles: Vec<&str> = fixes.commits.iter().map(|c| c.title.as_str()).collect();
    assert_eq!(titles, vec!["one", "three"]);
}

#[test]
fn rendering_is_repeatable() {
    let msgs = ["feat: a", "fix: b", "feat: c"];
    assert_eq!(render(&msgs), render(&msgs));
    let g = group_by_category(&classified(&msgs));
    assert_eq!(conventional_commits_to_string(&g), conventional_commits_to_string(&g));
    assert_eq!(render(&msgs), "### Features\n- a\n- c\n\n### Bug fixes\n- b");
}

#[test]
fn empty_sections_are_omitted() {
    assert_eq!(render(&["fix: only fix"]), "\n### Bug fixes\n- only fix");
    assert_eq!(render(&["feat: only feature"]), "### Features\n- only feature\n");
    assert_eq!(render(&[]), "");
    assert!(!render(&["fix: x"]).contains("### Features"));
}

#[test]
fn other_commits_are_not_rendered() {
    assert_eq!(render(&["chore: tidy", "docs: words"]), "");
    assert_eq!(render(&["chore: tidy", "fix: b", "ci: pipeline"]), render(&["fix: b"]));
}
