//! The requests that the platform's REST interface takes, and the decoding
//! of its responses.
//!
//! Nothing here sends a request. A caller builds the address with one of the
//! `*_url` functions, performs the request, and hands the status code and the
//! body to the matching `decode_*` function.

use crate::json::{as_array, json_of, json_parse, jsons_of, member, parse_value, Json};
use crate::text::{decimal, decimal_string, pair_views};
use serde_json::Value;
use vstd::prelude::*;
use vstd::string::StringExecFns;

verus! {

/// How many repositories a search asks for.
pub const MAX_REPOS: u64 = 10;

/// How many forks a fork listing asks for.
pub const MAX_FORKS: u64 = 20;

/// Why a request gave no usable answer.
#[derive(Debug, PartialEq, Eq)]
pub enum FetchError {
    /// No response arrived.
    Transport { message: String },
    /// The response carries a status code outside 200 to 299.
    Status { code: u16, body: String },
    /// The body is not JSON, or not JSON of the expected shape.
    Schema,
}

/// The mathematical content of a [`FetchError`].
pub enum FetchErrorView {
    Transport { message: Seq<char> },
    Status { code: u16, body: Seq<char> },
    Schema,
}

impl View for FetchError {
    type V = FetchErrorView;

    open spec fn view(&self) -> FetchErrorView {
        match self {
            FetchError::Transport { message } => FetchErrorView::Transport { message: message@ },
            FetchError::Status { code, body } => FetchErrorView::Status {
                code: *code,
                body: body@,
            },
            FetchError::Schema => FetchErrorView::Schema,
        }
    }
}

impl FetchErrorView {
    /// Whether the error is the status "not found".
    pub open spec fn is_not_found(self) -> bool {
        self matches FetchErrorView::Status { code, .. } && code == 404
    }
}

impl FetchError {
    /// Whether the error is the status 404, which a deleted or private
    /// repository gives.
    pub fn is_not_found(&self) -> (not_found: bool)
        ensures
            not_found == self@.is_not_found(),
    {
        match self {
            FetchError::Status { code, .. } => *code == 404,
            _ => false,
        }
    }
}

/// The address under which every repository of the platform is found.
pub open spec fn repos_root() -> Seq<char> {
    "https://api.github.com/repos/"@
}

/// The address of the repository `owner/repo_name`.
pub open spec fn repo_address(owner: Seq<char>, repo_name: Seq<char>) -> Seq<char> {
    repos_root() + owner + "/"@ + repo_name
}

/// The address of the repository search.
pub open spec fn top_repos_address() -> Seq<char> {
    "https://api.github.com/search/repositories"@
}

/// The query of a search for the most starred repositories of a language.
pub open spec fn top_repos_parameters(language: Seq<char>) -> Seq<(Seq<char>, Seq<char>)> {
    seq![
        ("q"@, "language:"@ + language),
        ("sort"@, "stars"@),
        ("order"@, "desc"@),
        ("per_page"@, decimal(MAX_REPOS as nat)),
    ]
}

/// The address of the listing of a repository's newest forks, twenty at most.
pub open spec fn forks_address(owner: Seq<char>, repo_name: Seq<char>) -> Seq<char> {
    repo_address(owner, repo_name) + "/forks?per_page="@ + decimal(MAX_FORKS as nat)
        + "&sort=newest"@
}

/// The address of the listing of a repository's latest commits, `count` at
/// most.
pub open spec fn commits_address(owner: Seq<char>, repo_name: Seq<char>, count: nat) -> Seq<
    char,
> {
    repo_address(owner, repo_name) + "/commits?per_page="@ + decimal(count)
}

/// The address of the detail of the commit `sha`.
pub open spec fn commit_details_address(
    owner: Seq<char>,
    repo_name: Seq<char>,
    sha: Seq<char>,
) -> Seq<char> {
    repo_address(owner, repo_name) + "/commits/"@ + sha
}

/// The address of the full file tree of `branch`.
pub open spec fn repo_tree_address(
    owner: Seq<char>,
    repo_name: Seq<char>,
    branch: Seq<char>,
) -> Seq<char> {
    repo_address(owner, repo_name) + "/git/trees/"@ + branch + "?recursive=1"@
}

fn repo_url(owner: &str, repo_name: &str) -> (url: String)
    ensures
        url@ == repo_address(owner@, repo_name@),
{
    let mut url = "https://api.github.com/repos/".to_owned();
    url.append(owner);
    url.append("/");
    url.append(repo_name);
    url
}

/// The address of the repository search.
pub fn top_repos_url() -> (url: String)
    ensures
        url@ == top_repos_address(),
{
    "https://api.github.com/search/repositories".to_owned()
}

/// The query parameters of a search for the most starred repositories of
/// `language`.
pub fn top_repos_query(language: &str) -> (parameters: Vec<(String, String)>)
    ensures
        pair_views(parameters@) == top_repos_parameters(language@),
{
    let mut scope = "language:".to_owned();
    scope.append(language);
    let mut parameters: Vec<(String, String)> = Vec::new();
    parameters.push(("q".to_owned(), scope));
    parameters.push(("sort".to_owned(), "stars".to_owned()));
    parameters.push(("order".to_owned(), "desc".to_owned()));
    parameters.push(("per_page".to_owned(), decimal_string(MAX_REPOS)));
    parameters
}

/// The address of the listing of a repository's newest forks.
pub fn forks_url(owner: &str, repo_name: &str) -> (url: String)
    ensures
        url@ == forks_address(owner@, repo_name@),
{
    let mut url = repo_url(owner, repo_name);
    url.append("/forks?per_page=");
    url.append(decimal_string(MAX_FORKS).as_str());
    url.append("&sort=newest");
    url
}

/// The address of the listing of a repository's `count` latest commits.
pub fn commits_url(owner: &str, repo_name: &str, count: u32) -> (url: String)
    ensures
        url@ == commits_address(owner@, repo_name@, count as nat),
{
    let mut url = repo_url(owner, repo_name);
    url.append("/commits?per_page=");
    url.append(decimal_string(count as u64).as_str());
    url
}

/// The address of the detail of one commit.
pub fn commit_details_url(owner: &str, repo_name: &str, sha: &str) -> (url: String)
    ensures
        url@ == commit_details_address(owner@, repo_name@, sha@),
{
    let mut url = repo_url(owner, repo_name);
    url.append("/commits/");
    url.append(sha);
    url
}

/// The address of the full file tree of a branch.
pub fn repo_tree_url(owner: &str, repo_name: &str, branch: &str) -> (url: String)
    ensures
        url@ == repo_tree_address(owner@, repo_name@, branch@),
{
    let mut url = repo_url(owner, repo_name);
    url.append("/git/trees/");
    url.append(branch);
    url.append("?recursive=1");
    url
}

/// Whether a status code reports success.
pub open spec fn is_success(status: u16) -> bool {
    200 <= status < 300
}

/// What a response holds: the document of its body when the status reports
/// success and the body is JSON, and an error otherwise. A status that
/// reports failure comes first.
pub open spec fn response_document(status: u16, body: Seq<char>) -> Result<
    Json,
    FetchErrorView,
> {
    if !is_success(status) {
        Err(FetchErrorView::Status { code: status, body })
    } else {
        match json_parse(body) {
            Some(doc) => Ok(doc),
            None => Err(FetchErrorView::Schema),
        }
    }
}

/// The elements of a document that has to be an array.
pub open spec fn listed(doc: Json) -> Result<Seq<Json>, FetchErrorView> {
    match doc.as_items() {
        Some(items) => Ok(items),
        None => Err(FetchErrorView::Schema),
    }
}

/// Passes the elements of a document on, or the error in its place.
pub open spec fn listed_in(
    response: Result<Json, FetchErrorView>,
    key: Option<Seq<char>>,
) -> Result<Seq<Json>, FetchErrorView> {
    match response {
        Ok(doc) => match key {
            Some(name) => listed(doc.member(name)),
            None => listed(doc),
        },
        Err(error) => Err(error),
    }
}

/// Whether a decoded listing is what the contract names.
pub open spec fn listing_matches(
    decoded: Result<Vec<Value>, FetchError>,
    expected: Result<Seq<Json>, FetchErrorView>,
) -> bool {
    match decoded {
        Ok(items) => expected == Ok::<Seq<Json>, FetchErrorView>(jsons_of(items@)),
        Err(error) => expected == Err::<Seq<Json>, FetchErrorView>(error@),
    }
}

/// Whether a decoded document is what the contract names.
pub open spec fn document_matches(
    decoded: Result<Value, FetchError>,
    expected: Result<Json, FetchErrorView>,
) -> bool {
    match decoded {
        Ok(value) => expected == Ok::<Json, FetchErrorView>(json_of(value)),
        Err(error) => expected == Err::<Json, FetchErrorView>(error@),
    }
}

/// The elements of a value that has to be an array.
pub fn listing_of(document: &Value) -> (decoded: Result<Vec<Value>, FetchError>)
    ensures
        listing_matches(decoded, listed(json_of(*document))),
{
    match as_array(document) {
        Some(elements) => {
            let items = elements.clone();
            assert(jsons_of(items@) =~= jsons_of(elements@));
            Ok(items)
        },
        None => Err(FetchError::Schema),
    }
}

/// The repositories of a search result: the elements of its member `items`.
pub fn top_repos_in(document: &Value) -> (decoded: Result<Vec<Value>, FetchError>)
    ensures
        listing_matches(decoded, listed(json_of(*document).member("items"@))),
{
    listing_of(member(document, "items"))
}

/// The entries of a file tree: the elements of its member `tree`.
pub fn repo_tree_in(document: &Value) -> (decoded: Result<Vec<Value>, FetchError>)
    ensures
        listing_matches(decoded, listed(json_of(*document).member("tree"@))),
{
    listing_of(member(document, "tree"))
}

/// Decodes a response: a status outside 200 to 299 is an error that carries
/// the code and the body; a body that is not JSON is a schema error.
pub fn decode_body(status: u16, body: &str) -> (decoded: Result<Value, FetchError>)
    ensures
        document_matches(decoded, response_document(status, body@)),
{
    if status < 200 || status >= 300 {
        return Err(FetchError::Status { code: status, body: body.to_owned() });
    }
    match parse_value(body) {
        Ok(value) => Ok(value),
        Err(_) => Err(FetchError::Schema),
    }
}

/// Decodes the response to a repository search.
pub fn decode_top_repos(status: u16, body: &str) -> (decoded: Result<Vec<Value>, FetchError>)
    ensures
        listing_matches(decoded, listed_in(response_document(status, body@), Some("items"@))),
{
    match decode_body(status, body) {
        Ok(document) => top_repos_in(&document),
        Err(error) => Err(error),
    }
}

/// Decodes the response to a listing of forks or of commits.
pub fn decode_listing(status: u16, body: &str) -> (decoded: Result<Vec<Value>, FetchError>)
    ensures
        listing_matches(decoded, listed_in(response_document(status, body@), None)),
{
    match decode_body(status, body) {
        Ok(document) => listing_of(&document),
        Err(error) => Err(error),
    }
}

/// Decodes the response to a request for one commit's detail.
pub fn decode_commit_details(status: u16, body: &str) -> (decoded: Result<Value, FetchError>)
    ensures
        document_matches(decoded, response_document(status, body@)),
{
    decode_body(status, body)
}

/// Decodes the response to a request for a file tree.
pub fn decode_repo_tree(status: u16, body: &str) -> (decoded: Result<Vec<Value>, FetchError>)
    ensures
        listing_matches(decoded, listed_in(response_document(status, body@), Some("tree"@))),
{
    match decode_body(status, body) {
        Ok(document) => repo_tree_in(&document),
        Err(error) => Err(error),
    }
}

/// A response whose status reports failure is an error that names the status
/// and the body, whatever the body holds.
pub proof fn lemma_failure_status_is_error(status: u16, body: Seq<char>)
    requires
        !is_success(status),
    ensures
        response_document(status, body) == Err::<Json, FetchErrorView>(
            FetchErrorView::Status { code: status, body },
        ),
        listed_in(response_document(status, body), None) is Err,
{
}

} // verus!
