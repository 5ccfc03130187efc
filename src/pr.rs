//! The release pull request: finding it, the body it carries, and whether it
//! is created or updated.
use vstd::prelude::*;
use vstd::string::*;
use crate::text::{is_prefix, starts_with};

verus! {

/// The title, and title prefix, of the release pull request.
pub const PR_TITLE_PREFIX: &'static str = "chore(main): release";

/// An open pull request as the forge lists it.
pub struct PullRequestSummary {
    pub number: u64,
    pub title: Option<String>,
}

/// The mathematical value of a `PullRequestSummary`.
pub struct PullView {
    pub number: u64,
    pub title: Option<Seq<char>>,
}

impl View for PullRequestSummary {
    type V = PullView;

    open spec fn view(&self) -> PullView {
        PullView {
            number: self.number,
            title: match self.title {
                Some(t) => Some(t@),
                None => None,
            },
        }
    }
}

/// The views of a sequence of pull requests.
pub open spec fn pull_views(pulls: Seq<PullRequestSummary>) -> Seq<PullView> {
    pulls.map_values(|p: PullRequestSummary| p@)
}

/// Whether a pull request has a title that starts with `prefix`.
pub open spec fn has_title_prefix(p: PullView, prefix: Seq<char>) -> bool {
    match p.title {
        Some(t) => is_prefix(prefix, t),
        None => false,
    }
}

/// `i` is the first pull request of `pulls` whose title starts with `prefix`.
pub open spec fn is_first_match(pulls: Seq<PullView>, prefix: Seq<char>, i: int) -> bool {
    &&& 0 <= i < pulls.len()
    &&& has_title_prefix(pulls[i], prefix)
    &&& forall|j: int| 0 <= j < i ==> !has_title_prefix(#[trigger] pulls[j], prefix)
}

/// The number of the first pull request whose title starts with `prefix`.
pub open spec fn located_pr(pulls: Seq<PullView>, prefix: Seq<char>) -> Option<u64> {
    if exists|i: int| is_first_match(pulls, prefix, i) {
        let i = choose|i: int| is_first_match(pulls, prefix, i);
        Some(pulls[i].number)
    } else {
        None
    }
}

/// There is at most one first match.
pub proof fn lemma_first_match_unique(pulls: Seq<PullView>, prefix: Seq<char>, i: int, j: int)
    requires
        is_first_match(pulls, prefix, i),
        is_first_match(pulls, prefix, j),
    ensures
        i == j,
{
    if i < j {
        assert(!has_title_prefix(pulls[i], prefix));
    } else if j < i {
        assert(!has_title_prefix(pulls[j], prefix));
    }
}

/// Where some pull request matches, a first one does.
pub proof fn lemma_first_match_exists(pulls: Seq<PullView>, prefix: Seq<char>, i: int)
    requires
        0 <= i < pulls.len(),
        has_title_prefix(pulls[i], prefix),
    ensures
        exists|k: int| is_first_match(pulls, prefix, k),
    decreases i,
{
    if exists|j: int| 0 <= j < i && #[trigger] has_title_prefix(pulls[j], prefix) {
        let j = choose|j: int| 0 <= j < i && #[trigger] has_title_prefix(pulls[j], prefix);
        lemma_first_match_exists(pulls, prefix, j);
    } else {
        assert(is_first_match(pulls, prefix, i));
    }
}

/// Finds, among the open pull requests, the first whose title starts with
/// `title_prefix`, and gives its number.
pub fn find_pr(pulls: &Vec<PullRequestSummary>, title_prefix: &str) -> (r: Option<u64>)
    ensures
        r == located_pr(pull_views(pulls@), title_prefix@),
        r is None <==> forall|i: int|
            0 <= i < pulls@.len() ==> !has_title_prefix(#[trigger] pull_views(pulls@)[i], title_prefix@),
{
    let mut i: usize = 0;
    while i < pulls.len()
        invariant
            i <= pulls@.len(),
            forall|j: int| 0 <= j < i ==> !has_title_prefix(#[trigger] pull_views(pulls@)[j], title_prefix@),
        decreases pulls@.len() - i,
    {
        let hit = match &pulls[i].title {
            Some(t) => starts_with(t.as_str(), title_prefix),
            None => false,
        };
        if hit {
            proof {
                let v = pull_views(pulls@);
                assert(is_first_match(v, title_prefix@, i as int));
                let c = choose|c: int| is_first_match(v, title_prefix@, c);
                lemma_first_match_unique(v, title_prefix@, c, i as int);
            }
            return Some(pulls[i].number);
        }
        i = i + 1;
    }
    proof {
        let v = pull_views(pulls@);
        if exists|c: int| is_first_match(v, title_prefix@, c) {
            let c = choose|c: int| is_first_match(v, title_prefix@, c);
            assert(!has_title_prefix(v[c], title_prefix@));
        }
    }
    None
}

/// The body of the release pull request around a changelog.
pub open spec fn body_of(content: Seq<char>) -> Seq<char> {
    "# 🤖 I have created a release beep boop\n\n"@ + content
        + "\n\n---\n\nRelease created by [releaser](https://github.com/tmayoff/releaser)"@
}

/// The pull-request body: a heading, the changelog, and a closing line.
pub fn format_body(content: &str) -> (r: String)
    ensures
        r@ == body_of(content@),
{
    let mut body = String::from_str("# 🤖 I have created a release beep boop\n\n");
    body.append(content);
    body.append("\n\n---\n\nRelease created by [releaser](https://github.com/tmayoff/releaser)");
    body
}

/// What is done to the release pull request.
pub enum PrAction {
    /// Replace the body of the open pull request `number`.
    UpdateBody { number: u64, body: String },
    /// Open a pull request from `head` into `base`.
    Create { title: String, head: String, base: String, body: String },
}

/// Updates the body of the pull request found, or creates one where none was.
pub fn update_or_create(existing: Option<u64>, head: &str, base: &str, title: &str, body: &str) -> (r: PrAction)
    ensures
        existing matches Some(n) ==> (r matches PrAction::UpdateBody { number, body: b } && number == n
            && b@ == body@),
        existing is None ==> (r matches PrAction::Create { title: t, head: h, base: b, body: c } && t@
            == title@ && h@ == head@ && b@ == base@ && c@ == body@),
{
    match existing {
        Some(number) => PrAction::UpdateBody { number, body: body.to_owned() },
        None => PrAction::Create {
            title: title.to_owned(),
            head: head.to_owned(),
            base: base.to_owned(),
            body: body.to_owned(),
        },
    }
}

} // verus!
