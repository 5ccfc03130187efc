use releaser::fs::{get_file_content, Content, ForgeError};
use releaser::pr::{find_pr, format_body, update_or_create, PrAction, PullRequestSummary, PR_TITLE_PREFIX};
use releaser::reconcile::{
    update_or_create_file, FileAction, ForgeAction, ForgeEvent, Phase, Reconciler, ReconcileError,
    BASE_BRANCH, RELEASE_BRANCH,
};

fn pull(number: u64, title: &str) -> PullRequestSummary {
    PullRequestSummary { number, title: Some(title.to_string()) }
}

fn file(text: &str) -> Content {
    Content { text: text.to_string(), sha: Some("blob1".to_string()) }
}

#[test]
fn find_pr_takes_first_with_prefix() {
    let pulls = vec![
        PullRequestSummary { number: 1, title: None },
        pull(2, "feat: something"),
        pull(3, "chore(main): release 1.2.0"),
        pull(4, "chore(main): release again"),
    ];
    assert_eq!(find_pr(&pulls, PR_TITLE_PREFIX), Some(3));
    assert_eq!(find_pr(&vec![pull(2, "feat: something")], PR_TITLE_PREFIX), None);
    assert_eq!(find_pr(&vec![pull(9, "chore(main)")], PR_TITLE_PREFIX), None);
}

#[test]
fn body_wraps_changelog() {
    assert_eq!(
        format_body("### Features\n- a\n"),
        "# 🤖 I have created a release beep boop\n\n### Features\n- a\n\n\n---\n\nRelease created by [releaser](https://github.com/tmayoff/releaser)"
    );
}

#[test]
fn pr_update_or_create() {
    match update_or_create(Some(7), RELEASE_BRANCH, BASE_BRANCH, PR_TITLE_PREFIX, "body") {
        PrAction::UpdateBody { number, body } => {
            assert_eq!(number, 7);
            assert_eq!(body, "body");
        }
        _ => panic!("expected an update"),
    }
    match update_or_create(None, RELEASE_BRANCH, BASE_BRANCH, PR_TITLE_PREFIX, "body") {
        PrAction::Create { title, head, base, body } => {
            assert_eq!(title, "chore(main): release");
            assert_eq!(head, "releaser-main-release");
            assert_eq!(base, "main");
            assert_eq!(body, "body");
        }
        _ => panic!("expected a creation"),
    }
}

#[test]
fn file_decisions() {
    assert!(matches!(update_or_create_file(&None, "x"), FileAction::Create { content } if content == "x"));
    assert!(matches!(update_or_create_file(&Some(file("x")), "x"), FileAction::Keep));
    match update_or_create_file(&Some(file("old")), "new") {
        FileAction::Update { content, expected_sha } => {
            assert_eq!(content, "new");
            assert_eq!(expected_sha, Some("blob1".to_string()));
        }
        _ => panic!("expected an update"),
    }
}

#[test]
fn file_lookup_outcomes() {
    assert!(matches!(get_file_content(Ok(vec![])), Ok(None)));
    match get_file_content(Ok(vec![file("a")])) {
        Ok(Some(c)) => assert_eq!(c.text, "a"),
        _ => panic!("expected the file"),
    }
    assert!(matches!(get_file_content(Ok(vec![file("a"), file("b")])), Err(ForgeError::NotAFile { entries: 2 })));
    assert!(matches!(get_file_content(Err(ForgeError::Status { code: 404 })), Ok(None)));
    assert!(matches!(get_file_content(Err(ForgeError::Status { code: 500 })), Err(ForgeError::Status { code: 500 })));
    assert!(matches!(get_file_content(Err(ForgeError::Transport)), Err(ForgeError::Transport)));
}

fn start(changelog: &str) -> Reconciler {
    let (r, first) = Reconciler::new(changelog.to_string(), "headsha".to_string());
    assert!(matches!(first, ForgeAction::ListOpenPulls));
    r
}

#[test]
fn fresh_run_creates_everything() {
    let mut r = start("log");
    match r.step(ForgeEvent::OpenPulls(vec![pull(1, "unrelated")])) {
        Ok(ForgeAction::CreateBranch { from_sha }) => assert_eq!(from_sha, "headsha"),
        _ => panic!("expected a branch creation"),
    }
    match r.step(ForgeEvent::BranchAttempted) {
        Ok(ForgeAction::GetFile { branch, path }) => {
            assert_eq!(branch, "releaser-main-release");
            assert_eq!(path, "CHANGELOG.md");
        }
        _ => panic!("expected a file fetch"),
    }
    match r.step(ForgeEvent::FileFetched(None)) {
        Ok(ForgeAction::WriteFile { branch, path, author_name, author_email, write: FileAction::Create { content } }) => {
            assert_eq!(branch, "releaser-main-release");
            assert_eq!(path, "CHANGELOG.md");
            assert_eq!(author_name, "releaser");
            assert_eq!(author_email, "releaser@releaser.com");
            assert_eq!(content, "log");
        }
        _ => panic!("expected a file creation"),
    }
    match r.step(ForgeEvent::FileWritten) {
        Ok(ForgeAction::Pull(PrAction::Create { title, body, .. })) => {
            assert_eq!(title, PR_TITLE_PREFIX);
            assert_eq!(body, format_body("log"));
        }
        _ => panic!("expected a pull-request creation"),
    }
    assert!(matches!(r.step(ForgeEvent::PullWritten), Ok(ForgeAction::Done)));
    assert!(matches!(r.phase, Phase::Finished));
}

#[test]
fn existing_pr_is_updated() {
    let mut r = start("log");
    assert!(matches!(
        r.step(ForgeEvent::OpenPulls(vec![pull(5, "chore(main): release v2")])),
        Ok(ForgeAction::GetFile { .. })
    ));
    assert!(matches!(
        r.step(ForgeEvent::FileFetched(Some(file("older")))),
        Ok(ForgeAction::WriteFile { write: FileAction::Update { .. }, .. })
    ));
    match r.step(ForgeEvent::FileWritten) {
        Ok(ForgeAction::Pull(PrAction::UpdateBody { number, .. })) => assert_eq!(number, 5),
        _ => panic!("expected a body update"),
    }
}

#[test]
fn identical_file_is_not_written() {
    let mut r = start("same");
    assert!(matches!(
        r.step(ForgeEvent::OpenPulls(vec![pull(5, "chore(main): release")])),
        Ok(ForgeAction::GetFile { .. })
    ));
    match r.step(ForgeEvent::FileFetched(Some(file("same")))) {
        Ok(ForgeAction::Pull(PrAction::UpdateBody { number, .. })) => assert_eq!(number, 5),
        _ => panic!("expected no file write"),
    }
}

#[test]
fn rerun_writes_only_pr_body() {
    // The forge after a first run: the release pull request is open and the file holds the changelog.
    let mut r = start("log");
    let mut writes = 0;
    let mut next = r.step(ForgeEvent::OpenPulls(vec![pull(8, "chore(main): release")]));
    loop {
        next = match next {
            Ok(ForgeAction::GetFile { .. }) => r.step(ForgeEvent::FileFetched(Some(file("log")))),
            Ok(ForgeAction::WriteFile { .. }) => {
                writes += 1;
                r.step(ForgeEvent::FileWritten)
            }
            Ok(ForgeAction::CreateBranch { .. }) => {
                writes += 1;
                r.step(ForgeEvent::BranchAttempted)
            }
            Ok(ForgeAction::Pull(PrAction::Create { .. })) => {
                writes += 1;
                r.step(ForgeEvent::PullWritten)
            }
            Ok(ForgeAction::Pull(PrAction::UpdateBody { .. })) => r.step(ForgeEvent::PullWritten),
            Ok(ForgeAction::Done) => break,
            _ => panic!("unexpected step"),
        };
    }
    assert_eq!(writes, 0);
}

#[test]
fn unexpected_event_is_refused() {
    let mut r = start("log");
    assert!(matches!(r.step(ForgeEvent::FileWritten), Err(ReconcileError::UnexpectedEvent)));
    assert!(matches!(r.phase, Phase::LocatePr));
}
