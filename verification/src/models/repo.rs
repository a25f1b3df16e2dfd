//! Repositories, and how a search record decodes into one.

use crate::json::{as_str, as_u64, json_of, jsons_of, member, Json};
use serde_json::Value;
use vstd::prelude::*;

verus! {

/// A repository of the platform with its derived activity figures.
#[derive(Debug, PartialEq, Eq)]
pub struct Repo {
    pub name: String,
    pub owner_login: String,
    pub html_url: String,
    pub language: String,
    pub default_branch: String,
    pub stars: u64,
    pub forks_count: u64,
    pub open_issues_count: u64,
    /// The most edited files with their edit counts, most edited first.
    pub top_modified_files: Vec<(String, u32)>,
    /// Recent commits over the repository's forks.
    pub fork_commit_count: u64,
}

/// The mathematical content of a [`Repo`].
pub struct RepoView {
    pub name: Seq<char>,
    pub owner_login: Seq<char>,
    pub html_url: Seq<char>,
    pub language: Seq<char>,
    pub default_branch: Seq<char>,
    pub stars: nat,
    pub forks_count: nat,
    pub open_issues_count: nat,
    pub top_modified_files: Seq<(Seq<char>, nat)>,
    pub fork_commit_count: nat,
}

/// The required field that a record lacks, or holds with the wrong type.
#[derive(Clone, Copy, Debug, PartialEq, Eq, Structural)]
pub enum MissingField {
    Name,
    OwnerLogin,
    HtmlUrl,
    DefaultBranch,
    Stars,
    Forks,
    OpenIssues,
}

/// File names with their edit counts, as mathematical values.
pub open spec fn file_counts(files: Seq<(String, u32)>) -> Seq<(Seq<char>, nat)> {
    files.map_values(|file: (String, u32)| (file.0@, file.1 as nat))
}

/// Whether edit counts never rise along a list of files.
pub open spec fn descending(files: Seq<(Seq<char>, nat)>) -> bool {
    forall|i: int, j: int| 0 <= i <= j < files.len() ==> files[i].1 >= files[j].1
}

impl View for Repo {
    type V = RepoView;

    open spec fn view(&self) -> RepoView {
        RepoView {
            name: self.name@,
            owner_login: self.owner_login@,
            html_url: self.html_url@,
            language: self.language@,
            default_branch: self.default_branch@,
            stars: self.stars as nat,
            forks_count: self.forks_count as nat,
            open_issues_count: self.open_issues_count as nat,
            top_modified_files: file_counts(self.top_modified_files@),
            fork_commit_count: self.fork_commit_count as nat,
        }
    }
}

impl RepoView {
    /// The invariant of a repository: at most three top files, most edited
    /// first.
    pub open spec fn wf(self) -> bool {
        self.top_modified_files.len() <= 3 && descending(self.top_modified_files)
    }
}

/// The views of a sequence of repositories.
pub open spec fn repo_views(repos: Seq<Repo>) -> Seq<RepoView> {
    repos.map_values(|repo: Repo| repo@)
}

/// The language label of a record without a usable one.
pub open spec fn unknown_language() -> Seq<char> {
    "Unknown"@
}

/// The name of a record: its member `name`, when that is a string.
pub open spec fn record_name(doc: Json) -> Option<Seq<char>> {
    doc.member("name"@).as_text()
}

/// The owner login of a record: the member `login` of its member `owner`,
/// when that is a string.
pub open spec fn record_owner_login(doc: Json) -> Option<Seq<char>> {
    doc.member("owner"@).member("login"@).as_text()
}

/// The address of a record: its member `html_url`, when that is a string.
pub open spec fn record_html_url(doc: Json) -> Option<Seq<char>> {
    doc.member("html_url"@).as_text()
}

/// The language label of a record: the member `language` when it is a
/// string, and "Unknown" otherwise.
pub open spec fn record_language(doc: Json) -> Seq<char> {
    match doc.member("language"@).as_text() {
        Some(label) => label,
        None => unknown_language(),
    }
}

/// The default branch of a record: its member `default_branch`, when that is
/// a string.
pub open spec fn record_default_branch(doc: Json) -> Option<Seq<char>> {
    doc.member("default_branch"@).as_text()
}

/// The stars of a record: its member `stargazers_count`, when that is a
/// number held as a non-negative integer below 2^64.
pub open spec fn record_stars(doc: Json) -> Option<u64> {
    doc.member("stargazers_count"@).as_unsigned()
}

/// The forks of a record: its member `forks_count`, read like the stars.
pub open spec fn record_forks(doc: Json) -> Option<u64> {
    doc.member("forks_count"@).as_unsigned()
}

/// The open issues of a record: its member `open_issues_count`, read like
/// the stars.
pub open spec fn record_open_issues(doc: Json) -> Option<u64> {
    doc.member("open_issues_count"@).as_unsigned()
}

/// The first required field that a record lacks, in the order name, owner
/// login, URL, default branch, stars, forks, open issues; `None` when the
/// record has them all.
pub open spec fn missing_field(doc: Json) -> Option<MissingField> {
    if record_name(doc) is None {
        Some(MissingField::Name)
    } else if record_owner_login(doc) is None {
        Some(MissingField::OwnerLogin)
    } else if record_html_url(doc) is None {
        Some(MissingField::HtmlUrl)
    } else if record_default_branch(doc) is None {
        Some(MissingField::DefaultBranch)
    } else if record_stars(doc) is None {
        Some(MissingField::Stars)
    } else if record_forks(doc) is None {
        Some(MissingField::Forks)
    } else if record_open_issues(doc) is None {
        Some(MissingField::OpenIssues)
    } else {
        None
    }
}

/// The repository that a complete record denotes. Its derived figures start
/// empty.
pub open spec fn record_repo(doc: Json) -> RepoView {
    RepoView {
        name: record_name(doc)->Some_0,
        owner_login: record_owner_login(doc)->Some_0,
        html_url: record_html_url(doc)->Some_0,
        language: record_language(doc),
        default_branch: record_default_branch(doc)->Some_0,
        stars: record_stars(doc)->Some_0 as nat,
        forks_count: record_forks(doc)->Some_0 as nat,
        open_issues_count: record_open_issues(doc)->Some_0 as nat,
        top_modified_files: Seq::empty(),
        fork_commit_count: 0,
    }
}

/// What a record decodes to: the repository it denotes, or the first
/// required field it lacks.
pub open spec fn repo_record(doc: Json) -> Result<RepoView, MissingField> {
    match missing_field(doc) {
        Some(field) => Err(field),
        None => Ok(record_repo(doc)),
    }
}

/// The repositories that a sequence of records decodes to: records that
/// lack a required field are left out, the others keep their order.
pub open spec fn repo_records(docs: Seq<Json>) -> Seq<RepoView>
    decreases docs.len(),
{
    if docs.len() == 0 {
        Seq::empty()
    } else {
        match repo_record(docs.last()) {
            Ok(repo) => repo_records(docs.drop_last()).push(repo),
            Err(_) => repo_records(docs.drop_last()),
        }
    }
}

/// Decodes one record, naming the first required field that it lacks.
pub fn decode_repo(json: &Value) -> (decoded: Result<Repo, MissingField>)
    ensures
        match decoded {
            Ok(repo) => repo_record(json_of(*json)) == Ok::<RepoView, MissingField>(repo@),
            Err(field) => repo_record(json_of(*json)) == Err::<RepoView, MissingField>(field),
        },
{
    let name = match as_str(member(json, "name")) {
        Some(text) => text.to_owned(),
        None => { return Err(MissingField::Name); },
    };
    let owner_login = match as_str(member(member(json, "owner"), "login")) {
        Some(text) => text.to_owned(),
        None => { return Err(MissingField::OwnerLogin); },
    };
    let html_url = match as_str(member(json, "html_url")) {
        Some(text) => text.to_owned(),
        None => { return Err(MissingField::HtmlUrl); },
    };
    let language = match as_str(member(json, "language")) {
        Some(text) => text.to_owned(),
        None => "Unknown".to_owned(),
    };
    let default_branch = match as_str(member(json, "default_branch")) {
        Some(text) => text.to_owned(),
        None => { return Err(MissingField::DefaultBranch); },
    };
    let stars = match as_u64(member(json, "stargazers_count")) {
        Some(count) => count,
        None => { return Err(MissingField::Stars); },
    };
    let forks_count = match as_u64(member(json, "forks_count")) {
        Some(count) => count,
        None => { return Err(MissingField::Forks); },
    };
    let open_issues_count = match as_u64(member(json, "open_issues_count")) {
        Some(count) => count,
        None => { return Err(MissingField::OpenIssues); },
    };
    let repo = Repo {
        name,
        owner_login,
        html_url,
        language,
        default_branch,
        stars,
        forks_count,
        open_issues_count,
        top_modified_files: Vec::new(),
        fork_commit_count: 0,
    };
    assert(repo@.top_modified_files =~= Seq::empty());
    Ok(repo)
}

/// Decodes one record; a record that lacks a required field gives `None`.
pub fn parse_repo(json: &Value) -> (parsed: Option<Repo>)
    ensures
        match parsed {
            Some(repo) => repo_record(json_of(*json)) == Ok::<RepoView, MissingField>(repo@),
            None => repo_record(json_of(*json)) is Err,
        },
{
    match decode_repo(json) {
        Ok(repo) => Some(repo),
        Err(_) => None,
    }
}

/// Decodes the records of a listing, leaving out those that lack a required
/// field and keeping the order of the others.
pub fn parse_repos(json_array: Vec<Value>) -> (repos: Vec<Repo>)
    ensures
        repo_views(repos@) == repo_records(jsons_of(json_array@)),
{
    let ghost docs = jsons_of(json_array@);
    let mut repos: Vec<Repo> = Vec::new();
    let mut i: usize = 0;
    while i < json_array.len()
        invariant
            i <= json_array.len(),
            docs == jsons_of(json_array@),
            repo_views(repos@) == repo_records(docs.take(i as int)),
        decreases json_array.len() - i,
    {
        proof {
            assert(docs.take(i + 1).drop_last() =~= docs.take(i as int));
        }
        match parse_repo(&json_array[i]) {
            Some(repo) => {
                repos.push(repo);
            },
            None => {},
        }
        i += 1;
    }
    proof {
        assert(docs.take(i as int) =~= docs);
    }
    repos
}

/// A record that lacks any required field decodes to nothing.
pub proof fn lemma_incomplete_record_rejected(doc: Json)
    requires
        record_name(doc) is None || record_owner_login(doc) is None || record_html_url(doc) is None
            || record_default_branch(doc) is None || record_stars(doc) is None || record_forks(
            doc,
        ) is None || record_open_issues(doc) is None,
    ensures
        repo_record(doc) is Err,
{
}

/// A record with every required field decodes to a repository whose fields
/// are those of the record; without a string under `language` its language
/// is "Unknown".
pub proof fn lemma_complete_record_accepted(doc: Json)
    requires
        record_name(doc) is Some,
        record_owner_login(doc) is Some,
        record_html_url(doc) is Some,
        record_default_branch(doc) is Some,
        record_stars(doc) is Some,
        record_forks(doc) is Some,
        record_open_issues(doc) is Some,
    ensures
        repo_record(doc) matches Ok(repo) && {
            &&& Some(repo.name) == record_name(doc)
            &&& Some(repo.owner_login) == record_owner_login(doc)
            &&& Some(repo.html_url) == record_html_url(doc)
            &&& Some(repo.default_branch) == record_default_branch(doc)
            &&& repo.stars == record_stars(doc)->Some_0
            &&& repo.forks_count == record_forks(doc)->Some_0
            &&& repo.open_issues_count == record_open_issues(doc)->Some_0
            &&& doc.member("language"@).as_text() is None ==> repo.language == "Unknown"@
            &&& doc.member("language"@).as_text() matches Some(label) ==> repo.language == label
            &&& repo.top_modified_files.len() == 0
            &&& repo.fork_commit_count == 0
            &&& repo.wf()
        },
{
}

/// The number of records that lack a required field.
pub open spec fn rejected_count(docs: Seq<Json>) -> nat
    decreases docs.len(),
{
    if docs.len() == 0 {
        0
    } else {
        rejected_count(docs.drop_last()) + if repo_record(docs.last()) is Err {
            1nat
        } else {
            0nat
        }
    }
}

/// Of `n` records of which `k` lack a required field, `n - k` are decoded.
pub proof fn lemma_repo_records_count(docs: Seq<Json>)
    ensures
        repo_records(docs).len() + rejected_count(docs) == docs.len(),
    decreases docs.len(),
{
    if docs.len() > 0 {
        lemma_repo_records_count(docs.drop_last());
    }
}

/// Decoding keeps the order of the records: the repositories of a listing
/// are those of any leading part followed by those of the rest.
pub proof fn lemma_repo_records_concat(front: Seq<Json>, back: Seq<Json>)
    ensures
        repo_records(front + back) == repo_records(front) + repo_records(back),
    decreases back.len(),
{
    if back.len() > 0 {
        lemma_repo_records_concat(front, back.drop_last());
        assert((front + back).drop_last() =~= front + back.drop_last());
    }
}

/// The repositories of a listing are those of its complete records, one for
/// each and in the order of the records.
pub proof fn lemma_repo_records_are_the_complete_ones(docs: Seq<Json>)
    ensures
        repo_records(docs) == docs.filter(|doc: Json| repo_record(doc) is Ok).map_values(
            |doc: Json| record_repo(doc),
        ),
    decreases docs.len(),
{
    reveal(Seq::filter);
    if docs.len() > 0 {
        lemma_repo_records_are_the_complete_ones(docs.drop_last());
    }
}

/// One record gives one repository when it is complete and none when it is
/// not.
pub proof fn lemma_repo_records_single(doc: Json)
    ensures
        repo_records(seq![doc]) == match repo_record(doc) {
            Ok(repo) => seq![repo],
            Err(_) => Seq::<RepoView>::empty(),
        },
{
    assert(repo_records(seq![doc].drop_last()) =~= Seq::<RepoView>::empty());
}

} // verus!
