//! The commits since the latest release, classified and grouped.
use vstd::prelude::*;
use crate::changelog::{group_by_category, is_grouping_of, CategoryGroup, ChangelogGroup};
use crate::commit::{
    category_of, is_conventional, parse_commit, title_of, ClassifiedCommit, CommitError, RawCommit,
};

verus! {

broadcast use vstd::seq_lib::group_seq_properties;

/// The latest release of a repository, as far as the window of commits needs it.
pub struct Release {
    /// Publication time, in seconds since the Unix epoch; a draft has none.
    pub published_at: Option<i64>,
}

/// The start of the window of commits: the publication time of the latest
/// release, none where there is no published release.
pub open spec fn window_start(latest: Option<Release>) -> Option<i64> {
    match latest {
        Some(r) => r.published_at,
        None => None,
    }
}

/// Whether a commit falls after the start of the window.
pub open spec fn in_window(c: RawCommit, since: Option<i64>) -> bool {
    match since {
        Some(t) => c.timestamp > t,
        None => true,
    }
}

/// `c` is the classification of the raw commit `r`.
pub open spec fn classifies(r: RawCommit, c: ClassifiedCommit) -> bool {
    &&& c.source == r
    &&& c.category@ == category_of(r.message@)
    &&& c.title@ == title_of(r.message@)
    &&& !c.breaking
    &&& c.scope@.len() == 0
}

/// The conventional commits of `raw`, in order.
pub open spec fn conventional(raw: Seq<RawCommit>) -> Seq<RawCommit> {
    raw.filter(|r: RawCommit| is_conventional(r.message@))
}

/// `cs` classifies the conventional commits of `raw`, one for one and in order.
pub open spec fn classifies_all(raw: Seq<RawCommit>, cs: Seq<ClassifiedCommit>) -> bool {
    let conv = conventional(raw);
    &&& cs.len() == conv.len()
    &&& forall|i: int| 0 <= i < cs.len() ==> classifies(#[trigger] conv[i], cs[i])
}

/// The commits of `raw` that fall after the start of the window, in order.
pub open spec fn window(raw: Seq<RawCommit>, since: Option<i64>) -> Seq<RawCommit> {
    raw.filter(|r: RawCommit| in_window(r, since))
}

/// `g` groups the classifications of the conventional commits of `raw`.
pub open spec fn groups_commits(g: Seq<CategoryGroup>, raw: Seq<RawCommit>) -> bool {
    exists|cs: Seq<ClassifiedCommit>| classifies_all(raw, cs) && #[trigger] is_grouping_of(g, cs)
}

/// The start of the window of commits for the latest release, if any.
pub fn release_window(latest: &Option<Release>) -> (r: Option<i64>)
    ensures
        r == window_start(*latest),
{
    match latest {
        Some(release) => release.published_at,
        None => None,
    }
}

/// The commits of `raw` that fall after `since`, in order.
pub fn commits_after(raw: &Vec<RawCommit>, since: Option<i64>) -> (r: Vec<RawCommit>)
    ensures
        r@ == window(raw@, since),
{
    let ghost pred = |r: RawCommit| in_window(r, since);
    let mut r: Vec<RawCommit> = Vec::new();
    let mut i: usize = 0;
    while i < raw.len()
        invariant
            i <= raw@.len(),
            pred == (|r: RawCommit| in_window(r, since)),
            r@ == raw@.subrange(0, i as int).filter(pred),
        decreases raw@.len() - i,
    {
        proof {
            assert(raw@.subrange(0, i + 1) == raw@.subrange(0, i as int).push(raw@[i as int]));
            raw@.subrange(0, i as int).lemma_filter_push(raw@[i as int], pred);
        }
        let keep = match since {
            Some(t) => raw[i].timestamp > t,
            None => true,
        };
        if keep {
            r.push(raw[i].clone());
        }
        i = i + 1;
    }
    assert(raw@.subrange(0, raw@.len() as int) == raw@);
    r
}

/// Classifies each commit, leaving out those that are not conventional; fails
/// where a message is empty.
pub fn classify_commits(raw: &Vec<RawCommit>) -> (r: Result<Vec<ClassifiedCommit>, CommitError>)
    ensures
        r is Err <==> exists|i: int| 0 <= i < raw@.len() && (#[trigger] raw@[i]).message@.len() == 0,
        r matches Ok(cs) ==> classifies_all(raw@, cs@),
{
    let ghost pred = |r: RawCommit| is_conventional(r.message@);
    let mut cs: Vec<ClassifiedCommit> = Vec::new();
    let mut i: usize = 0;
    while i < raw.len()
        invariant
            i <= raw@.len(),
            pred == (|r: RawCommit| is_conventional(r.message@)),
            forall|j: int| 0 <= j < i ==> (#[trigger] raw@[j]).message@.len() > 0,
            classifies_all(raw@.subrange(0, i as int), cs@),
        decreases raw@.len() - i,
    {
        let ghost prefix = raw@.subrange(0, i as int);
        proof {
            assert(raw@.subrange(0, i + 1) == prefix.push(raw@[i as int]));
            prefix.lemma_filter_push(raw@[i as int], pred);
        }
        match parse_commit(&raw[i]) {
            Err(e) => {
                return Err(e);
            },
            Ok(None) => {},
            Ok(Some(c)) => {
                cs.push(c);
            },
        }
        proof {
            let conv = conventional(raw@.subrange(0, i + 1));
            assert forall|j: int| 0 <= j < cs@.len() implies classifies(#[trigger] conv[j], cs@[j]) by {
                if j < conventional(prefix).len() {
                    assert(conv[j] == conventional(prefix)[j]);
                }
            }
        }
        i = i + 1;
    }
    assert(raw@.subrange(0, raw@.len() as int) == raw@);
    Ok(cs)
}

/// The changelog groups of the commits listed since the latest release:
/// the commits after its publication are classified, the conventional ones
/// grouped by category. Fails where one of them has an empty message.
pub fn get_commits_since_last_release(latest: &Option<Release>, listed: &Vec<RawCommit>) -> (r: Result<
    ChangelogGroup,
    CommitError,
>)
    ensures
        r is Err <==> exists|i: int|
            0 <= i < window(listed@, window_start(*latest)).len() && (#[trigger] window(
                listed@,
                window_start(*latest),
            )[i]).message@.len() == 0,
        r matches Ok(g) ==> groups_commits(g.groups@, window(listed@, window_start(*latest))),
{
    let since = release_window(latest);
    let recent = commits_after(listed, since);
    match classify_commits(&recent) {
        Err(e) => Err(e),
        Ok(cs) => {
            let g = group_by_category(&cs);
            assert(recent@ == window(listed@, window_start(*latest)));
            assert(classifies_all(recent@, cs@) && is_grouping_of(g.groups@, cs@));
            assert(groups_commits(g.groups@, recent@));
            Ok(g)
        },
    }
}

} // verus!
