//! Grouping of classified commits by category, and the changelog text.
use vstd::prelude::*;
use vstd::string::*;
use crate::commit::{CategoryView, ClassifiedCommit, CommitCategory};

verus! {

broadcast use vstd::seq_lib::group_seq_properties;

/// The commits of one category, in the order in which they were listed.
pub struct CategoryGroup {
    pub category: CommitCategory,
    pub commits: Vec<ClassifiedCommit>,
}

/// Classified commits grouped by category; a category without commits has no group.
pub struct ChangelogGroup {
    pub groups: Vec<CategoryGroup>,
}

/// Whether a commit has category `k`.
pub open spec fn has_category(k: CategoryView) -> spec_fn(ClassifiedCommit) -> bool {
    |c: ClassifiedCommit| c.category@ == k
}

impl ChangelogGroup {
    /// Well-formed: no two groups share a category, and no group is empty.
    pub open spec fn wf(&self) -> bool {
        &&& forall|i: int, j: int|
            0 <= i < j < self.groups@.len() ==> #[trigger] self.groups@[i].category@
                != #[trigger] self.groups@[j].category@
        &&& forall|i: int| 0 <= i < self.groups@.len() ==> #[trigger] self.groups@[i].commits@.len() > 0
    }
}

/// The commits of `cs` in category `k`, in their order.
pub open spec fn in_category(cs: Seq<ClassifiedCommit>, k: CategoryView) -> Seq<ClassifiedCommit> {
    cs.filter(has_category(k))
}

/// The titles of a sequence of commits.
pub open spec fn titles(cs: Seq<ClassifiedCommit>) -> Seq<Seq<char>> {
    cs.map_values(|c: ClassifiedCommit| c.title@)
}

/// `g` groups `cs`: one group per category that occurs in `cs`, none for
/// another, each holding the commits of its category in their order.
pub open spec fn is_grouping_of(g: Seq<CategoryGroup>, cs: Seq<ClassifiedCommit>) -> bool {
    &&& forall|i: int, j: int|
        0 <= i < j < g.len() ==> #[trigger] g[i].category@ != #[trigger] g[j].category@
    &&& forall|i: int| 0 <= i < g.len() ==> #[trigger] g[i].commits@ == in_category(cs, g[i].category@)
    &&& forall|i: int| 0 <= i < g.len() ==> #[trigger] g[i].commits@.len() > 0
    &&& forall|c: ClassifiedCommit| #[trigger] cs.contains(c) ==>
        exists|i: int| 0 <= i < g.len() && #[trigger] g[i].category@ == c.category@
}

/// `i` is the first group of category `k`.
pub open spec fn is_first_group(g: Seq<CategoryGroup>, k: CategoryView, i: int) -> bool {
    &&& 0 <= i < g.len()
    &&& g[i].category@ == k
    &&& forall|j: int| 0 <= j < i ==> #[trigger] g[j].category@ != k
}

/// The titles of the first group of category `k`, empty where there is none.
pub open spec fn group_titles(g: Seq<CategoryGroup>, k: CategoryView) -> Seq<Seq<char>> {
    if exists|i: int| is_first_group(g, k, i) {
        let i = choose|i: int| is_first_group(g, k, i);
        titles(g[i].commits@)
    } else {
        Seq::empty()
    }
}

/// One `"\n- title"` line per title, in order.
pub open spec fn bullets(ts: Seq<Seq<char>>) -> Seq<char>
    decreases ts.len(),
{
    if ts.len() == 0 {
        Seq::empty()
    } else {
        bullets(ts.drop_last()) + "\n- "@ + ts.last()
    }
}

/// The features section: heading, one line per title, then a line break;
/// nothing where there are no titles.
pub open spec fn features_section(ts: Seq<Seq<char>>) -> Seq<char> {
    if ts.len() > 0 {
        "### Features"@ + bullets(ts) + "\n"@
    } else {
        Seq::empty()
    }
}

/// The bug-fix section, opened by a line break; nothing where there are no titles.
pub open spec fn fixes_section(ts: Seq<Seq<char>>) -> Seq<char> {
    if ts.len() > 0 {
        "\n### Bug fixes"@ + bullets(ts)
    } else {
        Seq::empty()
    }
}

/// The changelog text of a grouping: features, then bug fixes; other
/// categories are left out.
pub open spec fn changelog_text(g: Seq<CategoryGroup>) -> Seq<char> {
    features_section(group_titles(g, CategoryView::Feature)) + fixes_section(
        group_titles(g, CategoryView::Fix),
    )
}

/// The changelog text of a sequence of commits.
pub open spec fn commits_text(cs: Seq<ClassifiedCommit>) -> Seq<char> {
    features_section(titles(in_category(cs, CategoryView::Feature))) + fixes_section(
        titles(in_category(cs, CategoryView::Fix)),
    )
}

/// Some commit of `cs` has category `k`.
spec fn occurs_in(k: CategoryView, cs: Seq<ClassifiedCommit>) -> bool {
    exists|j: int| 0 <= j < cs.len() && #[trigger] cs[j].category@ == k
}

/// Each of `keys` is the category of some commit of `cs`.
spec fn keys_occur(keys: Seq<CommitCategory>, cs: Seq<ClassifiedCommit>) -> bool {
    forall|a: int| 0 <= a < keys.len() ==> occurs_in(#[trigger] keys[a]@, cs)
}

/// A category that occurs in `cs` has a nonempty selection.
proof fn lemma_in_category_nonempty(cs: Seq<ClassifiedCommit>, j: int)
    requires
        0 <= j < cs.len(),
    ensures
        in_category(cs, cs[j].category@).len() > 0,
{
    let p = has_category(cs[j].category@);
    assert(p(cs[j]));
    cs.lemma_filter_contains(p, j);
    let f = cs.filter(p);
    assert(f.contains(cs[j]));
    let k = choose|k: int| 0 <= k < f.len() && f[k] == cs[j];
}

/// Index of the group of category `k`, if any.
fn find_group(keys: &Vec<CommitCategory>, k: &CommitCategory) -> (r: Option<usize>)
    ensures
        r matches Some(i) ==> i < keys@.len() && keys@[i as int]@ == k@,
        r is None ==> forall|i: int| 0 <= i < keys@.len() ==> keys@[i]@ != k@,
{
    let mut i: usize = 0;
    while i < keys.len()
        invariant
            i <= keys@.len(),
            forall|j: int| 0 <= j < i ==> keys@[j]@ != k@,
        decreases keys@.len() - i,
    {
        if keys[i].same_as(k) {
            return Some(i);
        }
        i = i + 1;
    }
    None
}

/// The commits of `commits` in category `k`, in their order.
fn commits_in(commits: &Vec<ClassifiedCommit>, k: &CommitCategory) -> (r: Vec<ClassifiedCommit>)
    ensures
        r@ == in_category(commits@, k@),
{
    let mut r: Vec<ClassifiedCommit> = Vec::new();
    let mut i: usize = 0;
    while i < commits.len()
        invariant
            i <= commits@.len(),
            r@ == in_category(commits@.subrange(0, i as int), k@),
        decreases commits@.len() - i,
    {
        proof {
            assert(commits@.subrange(0, i + 1) == commits@.subrange(0, i as int).push(commits@[i as int]));
            commits@.subrange(0, i as int).lemma_filter_push(commits@[i as int], has_category(k@));
        }
        if commits[i].category.same_as(k) {
            r.push(commits[i].clone());
        }
        i = i + 1;
    }
    assert(commits@.subrange(0, commits@.len() as int) == commits@);
    r
}

/// Groups commits by category, keeping the order of the commits within each
/// group; the groups stand in the order in which their categories first occur.
pub fn group_by_category(commits: &Vec<ClassifiedCommit>) -> (r: ChangelogGroup)
    ensures
        r.wf(),
        is_grouping_of(r.groups@, commits@),
{
    let mut keys: Vec<CommitCategory> = Vec::new();
    let mut i: usize = 0;
    while i < commits.len()
        invariant
            i <= commits@.len(),
            forall|a: int, b: int| 0 <= a < b < keys@.len() ==> #[trigger] keys@[a]@ != #[trigger] keys@[b]@,
            keys_occur(keys@, commits@),
            forall|j: int| 0 <= j < i ==>
                exists|a: int| 0 <= a < keys@.len() && #[trigger] keys@[a]@ == #[trigger] commits@[j].category@,
        decreases commits@.len() - i,
    {
        let ghost before = keys@;
        match find_group(&keys, &commits[i].category) {
            Some(idx) => {
                assert(keys@[idx as int]@ == commits@[i as int].category@);
            },
            None => {
                keys.push(commits[i].category.duplicate());
                assert(keys@[keys@.len() - 1]@ == commits@[i as int].category@);
            },
        }
        proof {
            assert forall|j: int| 0 <= j < i + 1 implies exists|a: int|
                0 <= a < keys@.len() && #[trigger] keys@[a]@ == #[trigger] commits@[j].category@ by {
                if j < i {
                    let a = choose|a: int|
                        0 <= a < before.len() && #[trigger] before[a]@ == #[trigger] commits@[j].category@;
                    assert(keys@[a] == before[a]);
                }
            }
            assert forall|a: int| 0 <= a < keys@.len() implies occurs_in(keys@[a]@, commits@) by {
                if a < before.len() {
                    assert(keys@[a] == before[a]);
                } else {
                    assert(commits@[i as int].category@ == keys@[a]@);
                    assert(occurs_in(keys@[a]@, commits@));
                }
            }
        }
        i = i + 1;
    }
    let mut groups: Vec<CategoryGroup> = Vec::new();
    let mut a: usize = 0;
    while a < keys.len()
        invariant
            a <= keys@.len(),
            groups@.len() == a,
            forall|x: int, y: int| 0 <= x < y < keys@.len() ==> #[trigger] keys@[x]@ != #[trigger] keys@[y]@,
            keys_occur(keys@, commits@),
            forall|x: int| 0 <= x < a ==> #[trigger] groups@[x].category@ == keys@[x]@,
            forall|x: int| 0 <= x < a ==> #[trigger] groups@[x].commits@ == in_category(commits@, groups@[x].category@),
        decreases keys@.len() - a,
    {
        let members = commits_in(commits, &keys[a]);
        groups.push(CategoryGroup { category: keys[a].duplicate(), commits: members });
        a = a + 1;
    }
    let ghost g = groups@;
    assert forall|x: int| 0 <= x < g.len() implies #[trigger] g[x].commits@.len() > 0 by {
        let k = g[x].category@;
        assert(occurs_in(keys@[x]@, commits@));
        let j = choose|j: int| 0 <= j < commits@.len() && #[trigger] commits@[j].category@ == keys@[x]@;
        lemma_in_category_nonempty(commits@, j);
    }
    assert forall|c: ClassifiedCommit| #[trigger] commits@.contains(c) implies
        exists|x: int| 0 <= x < g.len() && #[trigger] g[x].category@ == c.category@ by {
        let j = choose|j: int| 0 <= j < commits@.len() && commits@[j] == c;
        let x = choose|x: int| 0 <= x < keys@.len() && #[trigger] keys@[x]@ == #[trigger] commits@[j].category@;
        assert(g[x].category@ == c.category@);
    }
    ChangelogGroup { groups }
}

/// Index of the first group of category `k`, if any.
fn first_group(groups: &Vec<CategoryGroup>, k: &CommitCategory) -> (r: Option<usize>)
    ensures
        r matches Some(i) ==> is_first_group(groups@, k@, i as int),
        r is None ==> forall|i: int| 0 <= i < groups@.len() ==> groups@[i].category@ != k@,
{
    let mut i: usize = 0;
    while i < groups.len()
        invariant
            i <= groups@.len(),
            forall|j: int| 0 <= j < i ==> #[trigger] groups@[j].category@ != k@,
        decreases groups@.len() - i,
    {
        if groups[i].category.same_as(k) {
            return Some(i);
        }
        i = i + 1;
    }
    None
}

/// The titles of a group of category `k`, as they stand in the text.
fn titles_of_category<'a>(groups: &'a Vec<CategoryGroup>, k: &CommitCategory) -> (r: Option<&'a Vec<ClassifiedCommit>>)
    ensures
        r matches Some(cs) ==> titles(cs@) == group_titles(groups@, k@),
        r is None ==> group_titles(groups@, k@).len() == 0,
{
    match first_group(groups, k) {
        Some(i) => {
            proof {
                let c = choose|c: int| is_first_group(groups@, k@, c);
                assert(c == i) by {
                    if c < i {
                        assert(groups@[c].category@ != k@);
                    } else if i < c {
                        assert(groups@[i as int].category@ != k@);
                    }
                }
            }
            Some(&groups[i].commits)
        },
        None => None,
    }
}

/// Appends one `"\n- title"` line per commit.
fn append_bullets(s: &mut String, cs: &Vec<ClassifiedCommit>)
    ensures
        final(s)@ == old(s)@ + bullets(titles(cs@)),
{
    let mut i: usize = 0;
    while i < cs.len()
        invariant
            i <= cs@.len(),
            s@ == old(s)@ + bullets(titles(cs@.subrange(0, i as int))),
        decreases cs@.len() - i,
    {
        let ghost prev = s@;
        s.append("\n- ");
        s.append(cs[i].title.as_str());
        proof {
            let t = titles(cs@.subrange(0, i + 1));
            assert(t.drop_last() =~= titles(cs@.subrange(0, i as int)));
            assert(t.last() == cs@[i as int].title@);
            assert(s@ =~= old(s)@ + bullets(t));
        }
        i = i + 1;
    }
    assert(cs@.subrange(0, cs@.len() as int) == cs@);
}

/// Renders the changelog: a `### Features` section with one line per feature
/// commit, then a `### Bug fixes` section with one line per fix; a section
/// without commits is left out, and so are all other categories.
pub fn conventional_commits_to_string(commits: &ChangelogGroup) -> (r: String)
    ensures
        r@ == changelog_text(commits.groups@),
{
    let mut text = String::new();
    let ghost g = commits.groups@;
    if let Some(feats) = titles_of_category(&commits.groups, &CommitCategory::Feature) {
        if feats.len() > 0 {
            text.append("### Features");
            append_bullets(&mut text, feats);
            text.append("\n");
        }
    }
    assert(text@ =~= features_section(group_titles(g, CategoryView::Feature)));
    let ghost head = text@;
    if let Some(fixes) = titles_of_category(&commits.groups, &CommitCategory::Fix) {
        if fixes.len() > 0 {
            text.append("\n### Bug fixes");
            append_bullets(&mut text, fixes);
        }
    }
    assert(text@ =~= head + fixes_section(group_titles(g, CategoryView::Fix)));
    text
}

/// Selecting by a predicate after selecting by a weaker one is selecting by
/// the first alone.
proof fn lemma_filter_filter(
    s: Seq<ClassifiedCommit>,
    p: spec_fn(ClassifiedCommit) -> bool,
    q: spec_fn(ClassifiedCommit) -> bool,
)
    requires
        forall|c: ClassifiedCommit| #[trigger] q(c) ==> p(c),
    ensures
        s.filter(p).filter(q) == s.filter(q),
    decreases s.len(),
{
    if s.len() > 0 {
        let t = s.drop_last();
        let x = s.last();
        lemma_filter_filter(t, p, q);
        assert(s == t.push(x));
        t.lemma_filter_push(x, p);
        t.lemma_filter_push(x, q);
        if p(x) {
            t.filter(p).lemma_filter_push(x, q);
        }
    }
}

/// In a grouping of `cs`, the titles of category `k` are those of the
/// commits of `cs` in that category, in their order.
pub proof fn lemma_grouping_titles(g: Seq<CategoryGroup>, cs: Seq<ClassifiedCommit>, k: CategoryView)
    requires
        is_grouping_of(g, cs),
    ensures
        group_titles(g, k) == titles(in_category(cs, k)),
{
    if exists|i: int| 0 <= i < g.len() && #[trigger] g[i].category@ == k {
        let i = choose|i: int| 0 <= i < g.len() && #[trigger] g[i].category@ == k;
        assert forall|j: int| 0 <= j < i implies #[trigger] g[j].category@ != k by {
            assert(g[j].category@ != g[i].category@);
        }
        assert(is_first_group(g, k, i));
        let c = choose|c: int| is_first_group(g, k, c);
        assert(c == i) by {
            if c != i {
                assert(g[c].category@ != g[i].category@);
            }
        }
    } else {
        let f = in_category(cs, k);
        if f.len() > 0 {
            cs.lemma_filter_pred(has_category(k), 0);
            assert(f.contains(f[0]));
            cs.lemma_filter_contains_rev(has_category(k), f[0]);
            assert(has_category(k)(f[0]));
            assert(cs.contains(f[0]));
        }
        assert(f =~= Seq::empty());
    }
}

/// Rendering a grouping of a commit sequence always gives the same text,
/// whichever order the groups stand in: the text of the commits themselves.
pub proof fn lemma_render_deterministic(
    g1: Seq<CategoryGroup>,
    g2: Seq<CategoryGroup>,
    cs: Seq<ClassifiedCommit>,
)
    requires
        is_grouping_of(g1, cs),
        is_grouping_of(g2, cs),
    ensures
        changelog_text(g1) == commits_text(cs),
        changelog_text(g1) == changelog_text(g2),
{
    lemma_grouping_titles(g1, cs, CategoryView::Feature);
    lemma_grouping_titles(g1, cs, CategoryView::Fix);
    lemma_grouping_titles(g2, cs, CategoryView::Feature);
    lemma_grouping_titles(g2, cs, CategoryView::Fix);
}

/// A section whose category has no commits is left out of the text: without
/// feature commits the text is the bug-fix section alone, without fixes it is
/// the features section alone, and without either it is empty.
pub proof fn lemma_empty_sections_omitted(cs: Seq<ClassifiedCommit>)
    ensures
        in_category(cs, CategoryView::Feature).len() == 0 ==> commits_text(cs) == fixes_section(
            titles(in_category(cs, CategoryView::Fix)),
        ),
        in_category(cs, CategoryView::Fix).len() == 0 ==> commits_text(cs) == features_section(
            titles(in_category(cs, CategoryView::Feature)),
        ),
        in_category(cs, CategoryView::Feature).len() == 0 && in_category(cs, CategoryView::Fix).len()
            == 0 ==> commits_text(cs).len() == 0,
{
    let feats = titles(in_category(cs, CategoryView::Feature));
    let fixes = titles(in_category(cs, CategoryView::Fix));
    assert(features_section(feats) + fixes_section(fixes) == commits_text(cs));
    if feats.len() == 0 {
        assert(Seq::<char>::empty() + fixes_section(fixes) =~= fixes_section(fixes));
    }
    if fixes.len() == 0 {
        assert(features_section(feats) + Seq::<char>::empty() =~= features_section(feats));
    }
}

/// Whether a commit's category is a fix or a feature.
pub open spec fn is_rendered(c: ClassifiedCommit) -> bool {
    !(c.category@ is Other)
}

/// Commits of other categories never reach the text: leaving them out of
/// the sequence leaves the text as it was.
pub proof fn lemma_other_commits_not_rendered(cs: Seq<ClassifiedCommit>)
    ensures
        commits_text(cs) == commits_text(cs.filter(|c: ClassifiedCommit| is_rendered(c))),
{
    let p = |c: ClassifiedCommit| is_rendered(c);
    lemma_filter_filter(cs, p, has_category(CategoryView::Feature));
    lemma_filter_filter(cs, p, has_category(CategoryView::Fix));
}

/// The titles of the first group of category `k`, found from the front.
pub open spec fn first_titles(g: Seq<CategoryGroup>, k: CategoryView) -> Seq<Seq<char>>
    decreases g.len(),
{
    if g.len() == 0 {
        Seq::empty()
    } else if g[0].category@ == k {
        titles(g[0].commits@)
    } else {
        first_titles(g.drop_first(), k)
    }
}

/// There is at most one first group of a category.
proof fn lemma_first_group_unique(g: Seq<CategoryGroup>, k: CategoryView, i: int, j: int)
    requires
        is_first_group(g, k, i),
        is_first_group(g, k, j),
    ensures
        i == j,
{
    if i < j {
        assert(g[i].category@ != k);
    } else if j < i {
        assert(g[j].category@ != k);
    }
}

/// `group_titles` is `first_titles`.
proof fn lemma_group_titles_first(g: Seq<CategoryGroup>, k: CategoryView)
    ensures
        group_titles(g, k) == first_titles(g, k),
    decreases g.len(),
{
    if g.len() > 0 {
        if g[0].category@ == k {
            assert(is_first_group(g, k, 0));
            let c = choose|c: int| is_first_group(g, k, c);
            lemma_first_group_unique(g, k, c, 0);
        } else {
            let t = g.drop_first();
            lemma_group_titles_first(t, k);
            if exists|i: int| is_first_group(g, k, i) {
                let c = choose|c: int| is_first_group(g, k, c);
                assert forall|j: int| 0 <= j < c - 1 implies #[trigger] t[j].category@ != k by {
                    assert(g[j + 1].category@ != k);
                }
                assert(is_first_group(t, k, c - 1));
                let d = choose|d: int| is_first_group(t, k, d);
                lemma_first_group_unique(t, k, c - 1, d);
            } else if exists|i: int| is_first_group(t, k, i) {
                let d = choose|d: int| is_first_group(t, k, d);
                assert forall|j: int| 0 <= j < d + 1 implies #[trigger] g[j].category@ != k by {
                    if j > 0 {
                        assert(g[j] == t[j - 1]);
                    }
                }
                assert(is_first_group(g, k, d + 1));
            }
        }
    }
}

/// Leaving out groups that are not of category `k` leaves the first group of
/// `k` as it was.
proof fn lemma_first_titles_filter(g: Seq<CategoryGroup>, k: CategoryView, p: spec_fn(CategoryGroup) -> bool)
    requires
        forall|x: CategoryGroup| x.category@ == k ==> #[trigger] p(x),
    ensures
        first_titles(g.filter(p), k) == first_titles(g, k),
    decreases g.len(),
{
    if g.len() > 0 {
        let t = g.drop_first();
        assert(g == seq![g[0]] + t);
        t.lemma_filter_prepend(g[0], p);
        lemma_first_titles_filter(t, k, p);
        let f = g.filter(p);
        if p(g[0]) {
            assert(f[0] == g[0]);
            assert(f.drop_first() =~= t.filter(p));
        } else {
            assert(f == t.filter(p));
        }
    }
}

/// Whether a group is of a rendered category, a fix or a feature.
pub open spec fn is_rendered_group(x: CategoryGroup) -> bool {
    !(x.category@ is Other)
}

/// Groups of other categories never reach the text: leaving them out of a
/// grouping leaves its text as it was, and a grouping of other categories
/// alone renders as the empty text.
pub proof fn lemma_other_groups_not_rendered(g: Seq<CategoryGroup>)
    ensures
        changelog_text(g) == changelog_text(g.filter(|x: CategoryGroup| is_rendered_group(x))),
        (forall|i: int| 0 <= i < g.len() ==> (#[trigger] g[i]).category@ is Other) ==> changelog_text(g).len()
            == 0,
{
    let p = |x: CategoryGroup| is_rendered_group(x);
    let h = g.filter(p);
    lemma_first_titles_filter(g, CategoryView::Feature, p);
    lemma_first_titles_filter(g, CategoryView::Fix, p);
    lemma_group_titles_first(g, CategoryView::Feature);
    lemma_group_titles_first(g, CategoryView::Fix);
    lemma_group_titles_first(h, CategoryView::Feature);
    lemma_group_titles_first(h, CategoryView::Fix);
    if forall|i: int| 0 <= i < g.len() ==> (#[trigger] g[i]).category@ is Other {
        if h.len() > 0 {
            g.lemma_filter_pred(p, 0);
            assert(h.contains(h[0]));
            g.lemma_filter_contains_rev(p, h[0]);
        }
        assert(h.len() == 0);
        assert(first_titles(h, CategoryView::Feature).len() == 0);
        assert(first_titles(h, CategoryView::Fix).len() == 0);
        assert(changelog_text(h) =~= Seq::empty());
    }
}

/// Whether `t` occurs in `s` at position `i`.
pub open spec fn occurs_at(s: Seq<char>, t: Seq<char>, i: int) -> bool {
    0 <= i && i + t.len() <= s.len() && s.subrange(i, i + t.len()) == t
}

/// Whether `s` holds three `#` in a row.
pub open spec fn has_triple_hash(s: Seq<char>) -> bool {
    exists|i: int| 0 <= i && i + 2 < s.len() && #[trigger] s[i] == '#' && s[i + 1] == '#' && s[i + 2] == '#'
}

/// Lines of titles without three `#` in a row hold none either.
proof fn lemma_bullets_no_triple(ts: Seq<Seq<char>>)
    requires
        forall|j: int| 0 <= j < ts.len() ==> !has_triple_hash(#[trigger] ts[j]),
    ensures
        !has_triple_hash(bullets(ts)),
    decreases ts.len(),
{
    reveal_strlit("\n- ");
    if ts.len() > 0 {
        let init = ts.drop_last();
        assert forall|j: int| 0 <= j < init.len() implies !has_triple_hash(#[trigger] init[j]) by {
            assert(init[j] == ts[j]);
        }
        lemma_bullets_no_triple(init);
        let a = bullets(init);
        let b = "\n- "@;
        let c = ts.last();
        assert(!has_triple_hash(c));
        let s = bullets(ts);
        assert(s == a + b + c);
        if has_triple_hash(s) {
            let i = choose|i: int| 0 <= i && i + 2 < s.len() && #[trigger] s[i] == '#' && s[i + 1] == '#' && s[i + 2] == '#';
            if i + 2 < a.len() {
                assert(a[i] == '#' && a[i + 1] == '#' && a[i + 2] == '#');
            } else if i >= a.len() + 3 {
                let k = i - a.len() - 3;
                assert(c[k] == '#' && c[k + 1] == '#' && c[k + 2] == '#');
            } else {
                assert(false) by {
                    if i < a.len() {
                        assert(s[a.len() as int] == '\n');
                    }
                    assert(s[a.len() as int + 1] == '-');
                    assert(s[a.len() as int + 2] == ' ');
                }
            }
        }
    }
}

/// Without feature commits the text holds no `### Features` heading, and
/// without fixes no `### Bug fixes` heading, where no title holds three `#`
/// in a row.
pub proof fn lemma_empty_section_heading_absent(cs: Seq<ClassifiedCommit>)
    requires
        forall|j: int| 0 <= j < cs.len() ==> !has_triple_hash(#[trigger] cs[j].title@),
    ensures
        in_category(cs, CategoryView::Feature).len() == 0 ==> forall|i: int|
            !#[trigger] occurs_at(commits_text(cs), "### Features"@, i),
        in_category(cs, CategoryView::Fix).len() == 0 ==> forall|i: int|
            !#[trigger] occurs_at(commits_text(cs), "### Bug fixes"@, i),
{
    reveal_strlit("### Features");
    reveal_strlit("### Bug fixes");
    reveal_strlit("\n### Bug fixes");
    reveal_strlit("\n");
    lemma_empty_sections_omitted(cs);
    let feats = titles(in_category(cs, CategoryView::Feature));
    let fixes = titles(in_category(cs, CategoryView::Fix));
    lemma_titles_no_triple(cs, CategoryView::Feature);
    lemma_titles_no_triple(cs, CategoryView::Fix);
    lemma_bullets_no_triple(feats);
    lemma_bullets_no_triple(fixes);
    let text = commits_text(cs);
    if feats.len() == 0 {
        assert forall|i: int| !#[trigger] occurs_at(text, "### Features"@, i) by {
            if occurs_at(text, "### Features"@, i) {
                let h = "\n### Bug fixes"@;
                let bl = bullets(fixes);
                assert(fixes.len() > 0);
                assert(text == h + bl);
                assert(text[i] == '#' && text[i + 1] == '#' && text[i + 2] == '#' && text[i + 4] == 'F') by {
                    assert(text.subrange(i, i + 12)[0] == '#');
                    assert(text.subrange(i, i + 12)[1] == '#');
                    assert(text.subrange(i, i + 12)[2] == '#');
                    assert(text.subrange(i, i + 12)[4] == 'F');
                }
                if i >= 14 {
                    let k = i - 14;
                    assert(bl[k] == '#' && bl[k + 1] == '#' && bl[k + 2] == '#');
                    assert(has_triple_hash(bl));
                } else {
                    assert(i == 1);
                    assert(text[5] == 'B');
                }
            }
        }
    }
    if fixes.len() == 0 {
        assert forall|i: int| !#[trigger] occurs_at(text, "### Bug fixes"@, i) by {
            if occurs_at(text, "### Bug fixes"@, i) {
                let h = "### Features"@;
                let bl = bullets(feats);
                assert(feats.len() > 0);
                assert(text == h + bl + "\n"@);
                assert(text[i] == '#' && text[i + 1] == '#' && text[i + 2] == '#' && text[i + 4] == 'B') by {
                    assert(text.subrange(i, i + 13)[0] == '#');
                    assert(text.subrange(i, i + 13)[1] == '#');
                    assert(text.subrange(i, i + 13)[2] == '#');
                    assert(text.subrange(i, i + 13)[4] == 'B');
                }
                if i >= 12 {
                    let k = i - 12;
                    assert(i + 2 < text.len() - 1);
                    assert(bl[k] == '#' && bl[k + 1] == '#' && bl[k + 2] == '#');
                    assert(has_triple_hash(bl));
                } else {
                    assert(i == 0);
                    assert(text[4] == 'F');
                }
            }
        }
    }
}

/// The titles of the commits of one category hold no three `#` in a row
/// where no title of `cs` does.
proof fn lemma_titles_no_triple(cs: Seq<ClassifiedCommit>, k: CategoryView)
    requires
        forall|j: int| 0 <= j < cs.len() ==> !has_triple_hash(#[trigger] cs[j].title@),
    ensures
        forall|j: int| 0 <= j < titles(in_category(cs, k)).len() ==> !has_triple_hash(
            #[trigger] titles(in_category(cs, k))[j],
        ),
{
    let f = in_category(cs, k);
    assert forall|j: int| 0 <= j < titles(f).len() implies !has_triple_hash(#[trigger] titles(f)[j]) by {
        assert(f.contains(f[j]));
        cs.lemma_filter_contains_rev(has_category(k), f[j]);
        let m = choose|m: int| 0 <= m < cs.len() && cs[m] == f[j];
        assert(titles(f)[j] == cs[m].title@);
    }
}

} // verus!
