//! Reconciliation of the release artifacts on the forge: the release branch,
//! the changelog file on it, and the release pull request.
//!
//! The forge is driven from outside: each `Reconciler::step` takes what the
//! forge answered to the previous action and gives the next action.
use vstd::prelude::*;
use vstd::string::*;
use crate::fs::Content;
use crate::pr::{
    body_of, format_body, located_pr, pull_views, update_or_create, find_pr, PrAction,
    PullRequestSummary, PullView, PR_TITLE_PREFIX, has_title_prefix, lemma_first_match_exists,
};
use crate::text::str_equal;

verus! {

broadcast use vstd::seq_lib::group_seq_properties;

/// The branch that holds the pending release.
pub const RELEASE_BRANCH: &'static str = "releaser-main-release";

/// The branch that the release pull request merges into.
pub const BASE_BRANCH: &'static str = "main";

/// The path of the changelog file.
pub const CHANGELOG_PATH: &'static str = "CHANGELOG.md";

/// Name of the author and committer of changelog writes.
pub const BOT_NAME: &'static str = "releaser";

/// E-mail of the author and committer of changelog writes.
pub const BOT_EMAIL: &'static str = "releaser@releaser.com";

/// Commit message of a changelog creation.
pub const CREATE_MESSAGE: &'static str = "Update changelog";

/// Commit message of a changelog update.
pub const UPDATE_MESSAGE: &'static str = "update changelog.md";

/// What becomes of the changelog file.
pub enum FileStep {
    Keep,
    Create,
    Update,
}

/// The text of a looked-up file, if there is one.
pub open spec fn file_text(current: Option<Content>) -> Option<Seq<char>> {
    match current {
        Some(c) => Some(c.text@),
        None => None,
    }
}

/// The content hash of a looked-up file, if there is one.
pub open spec fn sha_of(current: Option<Content>) -> Option<String> {
    match current {
        Some(c) => c.sha,
        None => None,
    }
}

/// A missing file is created, one with other text updated, one with the same
/// text kept.
pub open spec fn file_step(current: Option<Seq<char>>, content: Seq<char>) -> FileStep {
    match current {
        None => FileStep::Create,
        Some(t) => if t == content {
            FileStep::Keep
        } else {
            FileStep::Update
        },
    }
}

/// A write of the changelog file, or none.
pub enum FileAction {
    Keep,
    Create { content: String },
    /// Update, on condition that the file still has content hash `expected_sha`.
    Update { content: String, expected_sha: Option<String> },
}

/// `a` is what becomes of the file `current` for the new text `content`.
pub open spec fn file_action_for(a: FileAction, current: Option<Content>, content: Seq<char>) -> bool {
    match file_step(file_text(current), content) {
        FileStep::Keep => a is Keep,
        FileStep::Create => a matches FileAction::Create { content: c } && c@ == content,
        FileStep::Update => a matches FileAction::Update { content: c, expected_sha: s } && c@
            == content && s == sha_of(current),
    }
}

/// Decides the write of the changelog file: create it where it is missing,
/// update it against its content hash where its text differs, leave it where
/// its text is the same.
pub fn update_or_create_file(current: &Option<Content>, content: &str) -> (r: FileAction)
    ensures
        file_action_for(r, *current, content@),
{
    match current {
        None => FileAction::Create { content: content.to_owned() },
        Some(file) => {
            if str_equal(file.text.as_str(), content) {
                FileAction::Keep
            } else {
                let expected_sha = match &file.sha {
                    Some(s) => Some(s.clone()),
                    None => None,
                };
                FileAction::Update { content: content.to_owned(), expected_sha }
            }
        },
    }
}

/// `a` is what is done to the release pull request: its body replaced where
/// one was found, else one created from the release branch into the base branch.
pub open spec fn pr_action_for(a: PrAction, existing: Option<u64>, body: Seq<char>) -> bool {
    match existing {
        Some(n) => a matches PrAction::UpdateBody { number, body: b } && number == n && b@ == body,
        None => a matches PrAction::Create { title, head, base, body: b } && title@
            == PR_TITLE_PREFIX@ && head@ == RELEASE_BRANCH@ && base@ == BASE_BRANCH@ && b@ == body,
    }
}

/// `a` fetches the changelog file on the release branch.
pub open spec fn is_release_fetch(a: ForgeAction) -> bool {
    a matches ForgeAction::GetFile { branch, path } && branch@ == RELEASE_BRANCH@ && path@
        == CHANGELOG_PATH@
}

/// `a` makes the write `w` to the changelog file on the release branch, as the bot.
pub open spec fn is_release_write(a: ForgeAction, w: FileAction) -> bool {
    a matches ForgeAction::WriteFile { branch, path, author_name, author_email, write } && branch@
        == RELEASE_BRANCH@ && path@ == CHANGELOG_PATH@ && author_name@ == BOT_NAME@ && author_email@
        == BOT_EMAIL@ && write == w
}

/// Where a run stands.
pub enum Phase {
    /// Waiting for the list of open pull requests.
    LocatePr,
    /// Waiting for the attempt to create the release branch.
    EnsureBranch,
    /// Waiting for the changelog file.
    FetchFile,
    /// Waiting for the changelog write.
    WriteFile,
    /// Waiting for the pull-request write.
    EnsurePr,
    Finished,
}

/// What the forge answered to the last action.
pub enum ForgeEvent {
    OpenPulls(Vec<PullRequestSummary>),
    /// The branch creation was attempted; its failure is tolerated.
    BranchAttempted,
    FileFetched(Option<Content>),
    FileWritten,
    PullWritten,
}

/// The next call to make on the forge.
pub enum ForgeAction {
    ListOpenPulls,
    /// Create the release branch at commit `from_sha`.
    CreateBranch { from_sha: String },
    /// Fetch the file at `path` on `branch`.
    GetFile { branch: String, path: String },
    /// Write the file at `path` on `branch`, with this author and committer.
    WriteFile { branch: String, path: String, author_name: String, author_email: String, write: FileAction },
    Pull(PrAction),
    Done,
}

/// An event that does not answer the last action.
pub enum ReconcileError {
    UnexpectedEvent,
}

/// The state of one reconciliation run.
pub struct Reconciler {
    pub phase: Phase,
    /// The release pull request found open, if any.
    pub existing_pr: Option<u64>,
    /// The changelog text that the run writes.
    pub changelog: String,
    /// The commit at which the release branch is created.
    pub head_sha: String,
}

/// The fetch of the changelog file on the release branch.
fn release_fetch() -> (r: ForgeAction)
    ensures
        is_release_fetch(r),
{
    ForgeAction::GetFile { branch: RELEASE_BRANCH.to_owned(), path: CHANGELOG_PATH.to_owned() }
}

/// The write `w` to the changelog file on the release branch, as the bot.
fn release_write(w: FileAction) -> (r: ForgeAction)
    ensures
        is_release_write(r, w),
{
    ForgeAction::WriteFile {
        branch: RELEASE_BRANCH.to_owned(),
        path: CHANGELOG_PATH.to_owned(),
        author_name: BOT_NAME.to_owned(),
        author_email: BOT_EMAIL.to_owned(),
        write: w,
    }
}

impl Reconciler {
    /// Starts a run for a changelog: its first action lists the open pull requests.
    pub fn new(changelog: String, head_sha: String) -> (r: (Reconciler, ForgeAction))
        ensures
            r.0.phase == Phase::LocatePr,
            r.0.existing_pr is None,
            r.0.changelog == changelog,
            r.0.head_sha == head_sha,
            r.1 is ListOpenPulls,
    {
        (Reconciler { phase: Phase::LocatePr, existing_pr: None, changelog, head_sha }, ForgeAction::ListOpenPulls)
    }

    /// The pull-request action for the run's changelog.
    fn pull_action(&self) -> (r: ForgeAction)
        ensures
            r matches ForgeAction::Pull(a) && pr_action_for(a, self.existing_pr, body_of(self.changelog@)),
    {
        let body = format_body(self.changelog.as_str());
        ForgeAction::Pull(update_or_create(self.existing_pr, RELEASE_BRANCH, BASE_BRANCH, PR_TITLE_PREFIX, body.as_str()))
    }

    /// Takes the forge's answer to the last action and gives the next one.
    ///
    /// Without an open release pull request the branch is created first; the
    /// changelog file is written only where it is missing or differs; the pull
    /// request comes last, updated where it was found, else created. An event
    /// that does not answer the last action is refused and changes nothing.
    pub fn step(&mut self, event: ForgeEvent) -> (r: Result<ForgeAction, ReconcileError>)
        ensures
            final(self).changelog == old(self).changelog,
            final(self).head_sha == old(self).head_sha,
            (old(self).phase == Phase::LocatePr && event is OpenPulls) ==> {
                let found = located_pr(pull_views(event->OpenPulls_0@), PR_TITLE_PREFIX@);
                &&& final(self).existing_pr == found
                &&& found is None ==> final(self).phase == Phase::EnsureBranch && (r matches Ok(
                    ForgeAction::CreateBranch { from_sha },
                ) && from_sha == old(self).head_sha)
                &&& found is Some ==> final(self).phase == Phase::FetchFile && (r matches Ok(a)
                    && is_release_fetch(a))
            },
            (old(self).phase == Phase::EnsureBranch && event is BranchAttempted) ==> {
                &&& final(self).phase == Phase::FetchFile
                &&& final(self).existing_pr == old(self).existing_pr
                &&& r matches Ok(a) && is_release_fetch(a)
            },
            (old(self).phase == Phase::FetchFile && event is FileFetched) ==> {
                let current = event->FileFetched_0;
                &&& final(self).existing_pr == old(self).existing_pr
                &&& file_step(file_text(current), old(self).changelog@) == FileStep::Keep ==> {
                    &&& final(self).phase == Phase::EnsurePr
                    &&& r matches Ok(ForgeAction::Pull(a)) && pr_action_for(
                        a,
                        old(self).existing_pr,
                        body_of(old(self).changelog@),
                    )
                }
                &&& file_step(file_text(current), old(self).changelog@) != FileStep::Keep ==> {
                    &&& final(self).phase == Phase::WriteFile
                    &&& r matches Ok(a) && exists|w: FileAction|
                        is_release_write(a, w) && #[trigger] file_action_for(w, current, old(self).changelog@)
                }
            },
            (old(self).phase == Phase::WriteFile && event is FileWritten) ==> {
                &&& final(self).phase == Phase::EnsurePr
                &&& final(self).existing_pr == old(self).existing_pr
                &&& r matches Ok(ForgeAction::Pull(a)) && pr_action_for(
                    a,
                    old(self).existing_pr,
                    body_of(old(self).changelog@),
                )
            },
            (old(self).phase == Phase::EnsurePr && event is PullWritten) ==> {
                &&& final(self).phase == Phase::Finished
                &&& final(self).existing_pr == old(self).existing_pr
                &&& r matches Ok(ForgeAction::Done)
            },
            r matches Ok(a) ==> step_spec(
                old(self).phase,
                old(self).existing_pr,
                old(self).changelog@,
                event_view(event),
            ) == Some((final(self).phase, final(self).existing_pr, action_kind(a))),
            r is Err <==> !answers(old(self).phase, event),
            r is Err ==> *final(self) == *old(self),
    {
        match (&self.phase, event) {
            (Phase::LocatePr, ForgeEvent::OpenPulls(pulls)) => {
                let found = find_pr(&pulls, PR_TITLE_PREFIX);
                self.existing_pr = found;
                match found {
                    None => {
                        self.phase = Phase::EnsureBranch;
                        Ok(ForgeAction::CreateBranch { from_sha: self.head_sha.clone() })
                    },
                    Some(_) => {
                        self.phase = Phase::FetchFile;
                        Ok(release_fetch())
                    },
                }
            },
            (Phase::EnsureBranch, ForgeEvent::BranchAttempted) => {
                self.phase = Phase::FetchFile;
                Ok(release_fetch())
            },
            (Phase::FetchFile, ForgeEvent::FileFetched(current)) => {
                let write = update_or_create_file(&current, self.changelog.as_str());
                match write {
                    FileAction::Keep => {
                        self.phase = Phase::EnsurePr;
                        Ok(self.pull_action())
                    },
                    _ => {
                        self.phase = Phase::WriteFile;
                        Ok(release_write(write))
                    },
                }
            },
            (Phase::WriteFile, ForgeEvent::FileWritten) => {
                self.phase = Phase::EnsurePr;
                Ok(self.pull_action())
            },
            (Phase::EnsurePr, ForgeEvent::PullWritten) => {
                self.phase = Phase::Finished;
                Ok(ForgeAction::Done)
            },
            _ => Err(ReconcileError::UnexpectedEvent),
        }
    }
}

/// Whether `event` answers the action that a run in `phase` made last.
pub open spec fn answers(phase: Phase, event: ForgeEvent) -> bool {
    match phase {
        Phase::LocatePr => event is OpenPulls,
        Phase::EnsureBranch => event is BranchAttempted,
        Phase::FetchFile => event is FileFetched,
        Phase::WriteFile => event is FileWritten,
        Phase::EnsurePr => event is PullWritten,
        Phase::Finished => false,
    }
}

/// The value of a forge event: pull requests and file text by their views.
pub enum EventView {
    OpenPulls(Seq<PullView>),
    BranchAttempted,
    FileFetched(Option<Seq<char>>),
    FileWritten,
    PullWritten,
}

/// The view of an event.
pub open spec fn event_view(e: ForgeEvent) -> EventView {
    match e {
        ForgeEvent::OpenPulls(p) => EventView::OpenPulls(pull_views(p@)),
        ForgeEvent::BranchAttempted => EventView::BranchAttempted,
        ForgeEvent::FileFetched(c) => EventView::FileFetched(file_text(c)),
        ForgeEvent::FileWritten => EventView::FileWritten,
        ForgeEvent::PullWritten => EventView::PullWritten,
    }
}

/// The kind of a forge action.
pub enum ActionKind {
    ListOpenPulls,
    CreateBranch,
    GetFile,
    CreateFile,
    UpdateFile,
    UpdatePull,
    CreatePull,
    Done,
}

/// The kind of an action.
pub open spec fn action_kind(a: ForgeAction) -> ActionKind {
    match a {
        ForgeAction::ListOpenPulls => ActionKind::ListOpenPulls,
        ForgeAction::CreateBranch { .. } => ActionKind::CreateBranch,
        ForgeAction::GetFile { .. } => ActionKind::GetFile,
        ForgeAction::WriteFile { write: FileAction::Update { .. }, .. } => ActionKind::UpdateFile,
        ForgeAction::WriteFile { .. } => ActionKind::CreateFile,
        ForgeAction::Pull(PrAction::UpdateBody { .. }) => ActionKind::UpdatePull,
        ForgeAction::Pull(PrAction::Create { .. }) => ActionKind::CreatePull,
        ForgeAction::Done => ActionKind::Done,
    }
}

/// The kind of the pull-request action for a found pull request, or none.
pub open spec fn pull_kind(existing: Option<u64>) -> ActionKind {
    if existing is Some {
        ActionKind::UpdatePull
    } else {
        ActionKind::CreatePull
    }
}

/// The decisions of `Reconciler::step` on views: from the phase, the pull
/// request found and the answer to the last action, the next phase, pull
/// request found, and kind of action; `None` where the answer does not fit.
pub open spec fn step_spec(phase: Phase, existing: Option<u64>, changelog: Seq<char>, e: EventView) -> Option<
    (Phase, Option<u64>, ActionKind),
> {
    match (phase, e) {
        (Phase::LocatePr, EventView::OpenPulls(pulls)) => {
            let found = located_pr(pulls, PR_TITLE_PREFIX@);
            if found is None {
                Some((Phase::EnsureBranch, found, ActionKind::CreateBranch))
            } else {
                Some((Phase::FetchFile, found, ActionKind::GetFile))
            }
        },
        (Phase::EnsureBranch, EventView::BranchAttempted) => Some(
            (Phase::FetchFile, existing, ActionKind::GetFile),
        ),
        (Phase::FetchFile, EventView::FileFetched(current)) => match file_step(current, changelog) {
            FileStep::Keep => Some((Phase::EnsurePr, existing, pull_kind(existing))),
            FileStep::Create => Some((Phase::WriteFile, existing, ActionKind::CreateFile)),
            FileStep::Update => Some((Phase::WriteFile, existing, ActionKind::UpdateFile)),
        },
        (Phase::WriteFile, EventView::FileWritten) => Some(
            (Phase::EnsurePr, existing, pull_kind(existing)),
        ),
        (Phase::EnsurePr, EventView::PullWritten) => Some(
            (Phase::Finished, existing, ActionKind::Done),
        ),
        _ => None,
    }
}

/// What a run reads from and writes to the forge: the open pull requests,
/// the text of the changelog file on the release branch, and the number the
/// forge gives the next pull request.
pub struct ForgeView {
    pub pulls: Seq<PullView>,
    pub file: Option<Seq<char>>,
    pub next_number: u64,
}

/// The open pull requests whose title starts with the release prefix.
pub open spec fn release_pulls(pulls: Seq<PullView>) -> Seq<PullView> {
    pulls.filter(|p: PullView| has_title_prefix(p, PR_TITLE_PREFIX@))
}

/// Whether an action writes to the forge.
pub open spec fn is_write(a: ActionKind) -> bool {
    match a {
        ActionKind::CreateBranch | ActionKind::CreateFile | ActionKind::UpdateFile
        | ActionKind::UpdatePull | ActionKind::CreatePull => true,
        _ => false,
    }
}

/// How the forge carries out an action for a run that writes `changelog`:
/// the forge afterwards, and its answer.
pub open spec fn respond(f: ForgeView, a: ActionKind, changelog: Seq<char>) -> (ForgeView, EventView) {
    match a {
        ActionKind::ListOpenPulls => (f, EventView::OpenPulls(f.pulls)),
        ActionKind::CreateBranch => (f, EventView::BranchAttempted),
        ActionKind::GetFile => (f, EventView::FileFetched(f.file)),
        ActionKind::CreateFile | ActionKind::UpdateFile => (
            ForgeView { file: Some(changelog), ..f },
            EventView::FileWritten,
        ),
        ActionKind::CreatePull => (
            ForgeView {
                pulls: f.pulls.push(PullView { number: f.next_number, title: Some(PR_TITLE_PREFIX@) }),
                next_number: if f.next_number < u64::MAX {
                    (f.next_number + 1) as u64
                } else {
                    f.next_number
                },
                ..f
            },
            EventView::PullWritten,
        ),
        _ => (f, EventView::PullWritten),
    }
}

/// Drives `step_spec` against the forge for at most `fuel` actions, from
/// action `a` in `phase`: the forge afterwards, and the writes made, in order.
pub open spec fn simulate(
    f: ForgeView,
    phase: Phase,
    existing: Option<u64>,
    a: ActionKind,
    changelog: Seq<char>,
    fuel: nat,
) -> (ForgeView, Seq<ActionKind>)
    decreases fuel,
{
    if fuel == 0 || a == ActionKind::Done {
        (f, Seq::empty())
    } else {
        let (f1, e) = respond(f, a, changelog);
        let w = if is_write(a) {
            seq![a]
        } else {
            Seq::empty()
        };
        match step_spec(phase, existing, changelog, e) {
            Some((p, x, next)) => {
                let (f2, rest) = simulate(f1, p, x, next, changelog, (fuel - 1) as nat);
                (f2, w + rest)
            },
            None => (f1, w),
        }
    }
}

/// One whole run for `changelog` on forge `f`, as `Reconciler::new` starts it
/// and `Reconciler::step` carries it on.
pub open spec fn run(f: ForgeView, changelog: Seq<char>) -> (ForgeView, Seq<ActionKind>) {
    simulate(f, Phase::LocatePr, None, ActionKind::ListOpenPulls, changelog, 6)
}

/// After a run the file holds the changelog and the writes are: the branch
/// where no release pull request was open, the file where its text differed,
/// then the pull request, created where none was open, else updated.
pub proof fn lemma_run_shape(f: ForgeView, changelog: Seq<char>)
    ensures
        run(f, changelog).0.file == Some(changelog),
        ({
            let found = located_pr(f.pulls, PR_TITLE_PREFIX@);
            let branch_writes = if found is None {
                seq![ActionKind::CreateBranch]
            } else {
                Seq::empty()
            };
            let file_writes = match file_step(f.file, changelog) {
                FileStep::Keep => Seq::empty(),
                FileStep::Create => seq![ActionKind::CreateFile],
                FileStep::Update => seq![ActionKind::UpdateFile],
            };
            run(f, changelog).1 == branch_writes + file_writes + seq![pull_kind(found)]
        }),
        located_pr(f.pulls, PR_TITLE_PREFIX@) is Some ==> run(f, changelog).0.pulls == f.pulls,
        located_pr(f.pulls, PR_TITLE_PREFIX@) is None ==> run(f, changelog).0.pulls == f.pulls.push(
            PullView { number: f.next_number, title: Some(PR_TITLE_PREFIX@) },
        ),
{
    reveal_with_fuel(simulate, 7);
    let found = located_pr(f.pulls, PR_TITLE_PREFIX@);
    let w = run(f, changelog).1;
    let branch_writes = if found is None {
        seq![ActionKind::CreateBranch]
    } else {
        Seq::empty()
    };
    let file_writes = match file_step(f.file, changelog) {
        FileStep::Keep => Seq::empty(),
        FileStep::Create => seq![ActionKind::CreateFile],
        FileStep::Update => seq![ActionKind::UpdateFile],
    };
    assert(w =~= branch_writes + file_writes + seq![pull_kind(found)]);
}

/// After a run, a release pull request is open and the file holds the changelog.
pub proof fn lemma_run_leaves_release(f: ForgeView, changelog: Seq<char>)
    ensures
        run(f, changelog).0.file == Some(changelog),
        located_pr(run(f, changelog).0.pulls, PR_TITLE_PREFIX@) is Some,
{
    lemma_run_shape(f, changelog);
    let f1 = run(f, changelog).0;
    let found = located_pr(f.pulls, PR_TITLE_PREFIX@);
    let prefix = PR_TITLE_PREFIX@;
    match found {
        Some(_) => {
            let i = choose|i: int| crate::pr::is_first_match(f.pulls, prefix, i);
            lemma_first_match_exists(f1.pulls, prefix, i);
        },
        None => {
            let i = f.pulls.len() as int;
            assert(prefix.subrange(0, prefix.len() as int) =~= prefix);
            assert(has_title_prefix(f1.pulls[i], prefix));
            lemma_first_match_exists(f1.pulls, prefix, i);
        },
    }
}

/// Running again with the same changelog writes nothing but the body of the
/// release pull request: no branch, no file write, no new pull request.
pub proof fn lemma_rerun_is_quiet(f: ForgeView, changelog: Seq<char>)
    ensures
        run(run(f, changelog).0, changelog).1 == seq![ActionKind::UpdatePull],
        run(run(f, changelog).0, changelog).0.pulls == run(f, changelog).0.pulls,
        run(run(f, changelog).0, changelog).0.file == run(f, changelog).0.file,
{
    let f1 = run(f, changelog).0;
    lemma_run_leaves_release(f, changelog);
    lemma_run_shape(f1, changelog);
    assert(run(f1, changelog).1 =~= seq![ActionKind::UpdatePull]);
}

/// A run opens a pull request only where no release pull request is open, so
/// it never leaves two where there was at most one.
pub proof fn lemma_single_release_pr(f: ForgeView, changelog: Seq<char>)
    ensures
        run(f, changelog).1.contains(ActionKind::CreatePull) ==> release_pulls(f.pulls).len() == 0,
        release_pulls(f.pulls).len() <= 1 ==> release_pulls(run(f, changelog).0.pulls).len() <= 1,
{
    lemma_run_shape(f, changelog);
    let prefix = PR_TITLE_PREFIX@;
    let pred = |p: PullView| has_title_prefix(p, prefix);
    let found = located_pr(f.pulls, prefix);
    let w = run(f, changelog).1;
    if found is None {
        let rp = release_pulls(f.pulls);
        if rp.len() > 0 {
            f.pulls.lemma_filter_pred(pred, 0);
            assert(rp.contains(rp[0]));
            f.pulls.lemma_filter_contains_rev(pred, rp[0]);
            let i = choose|i: int| 0 <= i < f.pulls.len() && f.pulls[i] == rp[0];
            lemma_first_match_exists(f.pulls, prefix, i);
        }
        assert(rp =~= Seq::empty());
        let np = PullView { number: f.next_number, title: Some(prefix) };
        assert(prefix.subrange(0, prefix.len() as int) =~= prefix);
        f.pulls.lemma_filter_push(np, pred);
    } else {
        if w.contains(ActionKind::CreatePull) {
            let j = choose|j: int| 0 <= j < w.len() && w[j] == ActionKind::CreatePull;
            assert(w[j] != ActionKind::CreatePull);
        }
    }
}

} // verus!
