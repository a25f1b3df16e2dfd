//! The record under which a key-value store keeps a repository.

use crate::models::repo::{Repo, RepoView};
use crate::text::{decimal, decimal_string, pair_views};
use vstd::prelude::*;

verus! {

/// The fields of a repository's record, in the order in which they are
/// written: owner, address, language, default branch, and the four counts
/// as decimal numerals.
pub open spec fn store_record(repo: RepoView) -> Seq<(Seq<char>, Seq<char>)> {
    seq![
        ("owner"@, repo.owner_login),
        ("url"@, repo.html_url),
        ("language"@, repo.language),
        ("default_branch"@, repo.default_branch),
        ("stars"@, decimal(repo.stars)),
        ("forks_count"@, decimal(repo.forks_count)),
        ("open_issues_count"@, decimal(repo.open_issues_count)),
        ("fork_commit_count"@, decimal(repo.fork_commit_count)),
    ]
}

/// The key of a repository's record: its name.
pub fn store_key(repo: &Repo) -> (key: String)
    ensures
        key@ == repo@.name,
{
    repo.name.clone()
}

/// The fields of a repository's record.
pub fn store_fields(repo: &Repo) -> (fields: Vec<(String, String)>)
    ensures
        pair_views(fields@) == store_record(repo@),
{
    let mut fields: Vec<(String, String)> = Vec::new();
    fields.push(("owner".to_owned(), repo.owner_login.clone()));
    fields.push(("url".to_owned(), repo.html_url.clone()));
    fields.push(("language".to_owned(), repo.language.clone()));
    fields.push(("default_branch".to_owned(), repo.default_branch.clone()));
    fields.push(("stars".to_owned(), decimal_string(repo.stars)));
    fields.push(("forks_count".to_owned(), decimal_string(repo.forks_count)));
    fields.push(("open_issues_count".to_owned(), decimal_string(repo.open_issues_count)));
    fields.push(("fork_commit_count".to_owned(), decimal_string(repo.fork_commit_count)));
    fields
}

} // verus!
