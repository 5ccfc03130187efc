//! Classification of commit messages by their conventional-commit keyword.
use vstd::prelude::*;
use vstd::string::*;
use crate::text::{find_char, index_of, lemma_index_of, str_equal, trim, trim_of};

verus! {

/// A commit as the forge lists it: what classification and the release window read.
pub struct RawCommit {
    pub sha: String,
    pub message: String,
    /// Commit time, in seconds since the Unix epoch.
    pub timestamp: i64,
}

impl Clone for RawCommit {
    fn clone(&self) -> (r: Self)
        ensures
            r == *self,
    {
        RawCommit { sha: self.sha.clone(), message: self.message.clone(), timestamp: self.timestamp }
    }
}

/// The category of a conventional commit.
pub enum CommitCategory {
    Fix,
    Feature,
    /// Any other keyword, as written before the colon.
    Other(String),
}

/// The mathematical value of a `CommitCategory`.
pub enum CategoryView {
    Fix,
    Feature,
    Other(Seq<char>),
}

impl View for CommitCategory {
    type V = CategoryView;

    open spec fn view(&self) -> CategoryView {
        match self {
            CommitCategory::Fix => CategoryView::Fix,
            CommitCategory::Feature => CategoryView::Feature,
            CommitCategory::Other(k) => CategoryView::Other(k@),
        }
    }
}

impl CommitCategory {
    /// Whether two categories are the same.
    pub fn same_as(&self, other: &CommitCategory) -> (r: bool)
        ensures
            r == (self@ == other@),
    {
        match (self, other) {
            (CommitCategory::Fix, CommitCategory::Fix) => true,
            (CommitCategory::Feature, CommitCategory::Feature) => true,
            (CommitCategory::Other(a), CommitCategory::Other(b)) => str_equal(a.as_str(), b.as_str()),
            _ => false,
        }
    }

    /// A copy of the category.
    pub fn duplicate(&self) -> (r: CommitCategory)
        ensures
            r == *self,
    {
        match self {
            CommitCategory::Fix => CommitCategory::Fix,
            CommitCategory::Feature => CommitCategory::Feature,
            CommitCategory::Other(k) => CommitCategory::Other(k.clone()),
        }
    }
}

impl Clone for CommitCategory {
    fn clone(&self) -> (r: Self)
        ensures
            r == *self,
    {
        self.duplicate()
    }
}

/// A commit with its category and title.
pub struct ClassifiedCommit {
    /// Breaking-change marker; never detected, always `false`.
    pub breaking: bool,
    pub source: RawCommit,
    /// The text after the first colon, trimmed.
    pub title: String,
    /// Scope; never parsed, always empty.
    pub scope: String,
    pub category: CommitCategory,
}

impl Clone for ClassifiedCommit {
    fn clone(&self) -> (r: Self)
        ensures
            r == *self,
    {
        ClassifiedCommit {
            breaking: self.breaking,
            source: self.source.clone(),
            title: self.title.clone(),
            scope: self.scope.clone(),
            category: self.category.duplicate(),
        }
    }
}

/// Why a commit message cannot be classified at all.
pub enum CommitError {
    /// The message has no line.
    EmptyMessage,
}

/// Length of the first line of a message: up to the first line feed, without
/// a carriage return that directly precedes it.
pub open spec fn first_line_len(m: Seq<char>) -> int {
    let e = index_of(m, '\n');
    if e < m.len() && e > 0 && m[e - 1] == '\r' {
        e - 1
    } else {
        e
    }
}

/// The first line of a message.
pub open spec fn first_line(m: Seq<char>) -> Seq<char> {
    m.subrange(0, first_line_len(m))
}

/// Position of the first colon in the first line (its length where there is none).
pub open spec fn colon_index(m: Seq<char>) -> int {
    index_of(first_line(m), ':')
}

/// Whether the first line holds a colon, which makes the commit conventional.
pub open spec fn is_conventional(m: Seq<char>) -> bool {
    colon_index(m) < first_line(m).len()
}

/// The keyword: the first line before its first colon.
pub open spec fn keyword_of(m: Seq<char>) -> Seq<char> {
    first_line(m).subrange(0, colon_index(m))
}

/// The title: the first line after its first colon, trimmed.
pub open spec fn title_of(m: Seq<char>) -> Seq<char> {
    trim_of(first_line(m).subrange(colon_index(m) + 1, first_line(m).len() as int))
}

/// The category that a keyword stands for.
pub open spec fn keyword_category(k: Seq<char>) -> CategoryView {
    if k == "fix"@ {
        CategoryView::Fix
    } else if k == "feat"@ || k == "feature"@ {
        CategoryView::Feature
    } else {
        CategoryView::Other(k)
    }
}

/// The category of a conventional commit message.
pub open spec fn category_of(m: Seq<char>) -> CategoryView {
    keyword_category(keyword_of(m))
}

/// A message whose first line holds no colon is not conventional.
pub proof fn lemma_no_colon_not_conventional(m: Seq<char>)
    requires
        forall|j: int| 0 <= j < first_line(m).len() ==> #[trigger] first_line(m)[j] != ':',
    ensures
        !is_conventional(m),
{
    lemma_index_of(first_line(m), ':', first_line(m).len() as int);
}

/// A message whose first line is `kw:x`, with no colon in `kw`, is conventional;
/// its category is that of `kw` and its title is `x` trimmed.
pub proof fn lemma_keyword_form(kw: Seq<char>, x: Seq<char>, tail: Seq<char>)
    requires
        forall|j: int| 0 <= j < kw.len() ==> #[trigger] kw[j] != ':' && kw[j] != '\n',
        forall|j: int| 0 <= j < x.len() ==> #[trigger] x[j] != '\n',
        x.len() == 0 || x.last() != '\r',
        tail.len() == 0 || tail[0] == '\n',
    ensures
        is_conventional(kw + ":"@ + x + tail),
        keyword_of(kw + ":"@ + x + tail) == kw,
        category_of(kw + ":"@ + x + tail) == keyword_category(kw),
        title_of(kw + ":"@ + x + tail) == trim_of(x),
{
    reveal_strlit(":");
    let line = kw + ":"@ + x;
    let m = line + tail;
    assert forall|j: int| 0 <= j < line.len() implies m[j] != '\n' by {
        if j < kw.len() {
            assert(m[j] == kw[j]);
        } else if j > kw.len() {
            assert(m[j] == x[j - kw.len() - 1]);
        }
    }
    lemma_index_of(m, '\n', line.len() as int);
    if x.len() > 0 {
        assert(m[line.len() - 1] == x.last());
    }
    assert(first_line(m) =~= line);
    assert forall|j: int| 0 <= j < kw.len() implies line[j] != ':' by {
        assert(line[j] == kw[j]);
    }
    lemma_index_of(line, ':', kw.len() as int);
    assert(line.subrange(0, kw.len() as int) =~= kw);
    assert(line.subrange(kw.len() as int + 1, line.len() as int) =~= x);
}

/// `fix` stands for a fix, `feat` and `feature` for a feature, and any other
/// keyword for itself.
pub proof fn lemma_keyword_categories(kw: Seq<char>)
    ensures
        keyword_category("fix"@) == CategoryView::Fix,
        keyword_category("feat"@) == CategoryView::Feature,
        keyword_category("feature"@) == CategoryView::Feature,
        (kw != "fix"@ && kw != "feat"@ && kw != "feature"@) ==> keyword_category(kw)
            == CategoryView::Other(kw),
{
    reveal_strlit("fix");
    reveal_strlit("feat");
    reveal_strlit("feature");
    assert("feat"@.len() != "fix"@.len());
    assert("feature"@.len() != "fix"@.len());
}

/// The category that a keyword stands for: `fix` is a fix, `feat` and
/// `feature` a feature, anything else is kept as written.
pub fn category_of_keyword(keyword: &str) -> (r: CommitCategory)
    ensures
        r@ == keyword_category(keyword@),
{
    if str_equal(keyword, "fix") {
        CommitCategory::Fix
    } else if str_equal(keyword, "feat") || str_equal(keyword, "feature") {
        CommitCategory::Feature
    } else {
        CommitCategory::Other(keyword.to_owned())
    }
}

/// Classifies a message by its first line: `None` where that line holds no
/// colon, else the category of the keyword before the first colon and the
/// trimmed text after it.
pub fn classify(message: &str) -> (r: Result<Option<(CommitCategory, String)>, CommitError>)
    ensures
        r is Err <==> message@.len() == 0,
        r matches Ok(o) ==> (o is Some <==> is_conventional(message@)),
        r matches Ok(Some((c, t))) ==> c@ == category_of(message@) && t@ == title_of(message@),
{
    let n = message.unicode_len();
    if n == 0 {
        return Err(CommitError::EmptyMessage);
    }
    let e = find_char(message, '\n');
    let len = if e < n && e > 0 && message.get_char(e - 1) == '\r' {
        e - 1
    } else {
        e
    };
    let line = message.substring_char(0, len);
    assert(line@ == first_line(message@));
    let p = find_char(line, ':');
    if p == len {
        return Ok(None);
    }
    let keyword = line.substring_char(0, p);
    let rest = line.substring_char(p + 1, len);
    let title = trim(rest).to_owned();
    Ok(Some((category_of_keyword(keyword), title)))
}

/// Classifies a forge commit by its message, keeping the commit as the source.
pub fn parse_commit(commit: &RawCommit) -> (r: Result<Option<ClassifiedCommit>, CommitError>)
    ensures
        r is Err <==> commit.message@.len() == 0,
        r matches Ok(o) ==> (o is Some <==> is_conventional(commit.message@)),
        r matches Ok(Some(c)) ==> {
            &&& c.category@ == category_of(commit.message@)
            &&& c.title@ == title_of(commit.message@)
            &&& c.source == *commit
            &&& !c.breaking
            &&& c.scope@.len() == 0
        },
{
    match classify(commit.message.as_str()) {
        Err(e) => Err(e),
        Ok(None) => Ok(None),
        Ok(Some((category, title))) => Ok(
            Some(
                ClassifiedCommit {
                    breaking: false,
                    source: commit.clone(),
                    title,
                    scope: String::new(),
                    category,
                },
            ),
        ),
    }
}

} // verus!
