//! Repository identifiers of the form `owner/repo`.
use vstd::prelude::*;
use vstd::string::*;
use crate::text::{find_char, index_of};

verus! {

/// A repository identifier that is not of the form `owner/repo`.
pub enum RepoIdError {
    NotOwnerRepo,
}

/// Position of the slash in an identifier.
pub open spec fn slash_index(s: Seq<char>) -> int {
    index_of(s, '/')
}

/// Whether an identifier holds exactly one slash.
pub open spec fn is_owner_repo(s: Seq<char>) -> bool {
    &&& slash_index(s) < s.len()
    &&& index_of(s.subrange(slash_index(s) + 1, s.len() as int), '/') == s.len() - slash_index(s) - 1
}

/// Splits `owner/repo` at its slash; an identifier with no slash or more than
/// one is refused.
pub fn get_owner_repo(repo: &str) -> (r: Result<(String, String), RepoIdError>)
    ensures
        r is Ok <==> is_owner_repo(repo@),
        r matches Ok((owner, name)) ==> owner@ == repo@.subrange(0, slash_index(repo@)) && name@
            == repo@.subrange(slash_index(repo@) + 1, repo@.len() as int),
{
    let n = repo.unicode_len();
    let p = find_char(repo, '/');
    if p == n {
        return Err(RepoIdError::NotOwnerRepo);
    }
    let rest = repo.substring_char(p + 1, n);
    if find_char(rest, '/') < rest.unicode_len() {
        return Err(RepoIdError::NotOwnerRepo);
    }
    Ok((repo.substring_char(0, p).to_owned(), rest.to_owned()))
}

} // verus!
