//! Telling genuine source repositories from documentation, and choosing the
//! one repository of a batch to clone.

use crate::api::FetchError;
use crate::json::jsons_of;
use crate::models::tree::{
    parse_tree, tree_records, tree_views, EntryKind, TreeEntry, TreeEntryView,
};
use crate::text::{ends_with, is_suffix, text_views};
use serde_json::Value;
use vstd::prelude::*;
use vstd::string::StringExecFns;

verus! {

/// The least share of code files, in percent, that makes a repository
/// genuine source.
pub const SOURCE_THRESHOLD: u64 = 70;

/// The endings of code files.
pub open spec fn code_extensions() -> Seq<Seq<char>> {
    seq![".rs"@, ".java"@, ".c"@, ".cpp"@, ".h"@]
}

/// Whether a path ends with one of `extensions`.
pub open spec fn recognized(path: Seq<char>, extensions: Seq<Seq<char>>) -> bool {
    exists|k: int| 0 <= k < extensions.len() && is_suffix(#[trigger] extensions[k], path)
}

/// Whether an entry is a file.
pub open spec fn is_file(entry: TreeEntryView) -> bool {
    entry.kind == EntryKind::File
}

/// Whether an entry is a file whose path ends with one of `extensions`.
pub open spec fn is_code(entry: TreeEntryView, extensions: Seq<Seq<char>>) -> bool {
    is_file(entry) && recognized(entry.path, extensions)
}

/// The number of files in a tree.
pub open spec fn file_total(tree: Seq<TreeEntryView>) -> nat
    decreases tree.len(),
{
    if tree.len() == 0 {
        0
    } else {
        file_total(tree.drop_last()) + if is_file(tree.last()) {
            1nat
        } else {
            0nat
        }
    }
}

/// The number of code files in a tree.
pub open spec fn code_total(tree: Seq<TreeEntryView>, extensions: Seq<Seq<char>>) -> nat
    decreases tree.len(),
{
    if tree.len() == 0 {
        0
    } else {
        code_total(tree.drop_last(), extensions) + if is_code(tree.last(), extensions) {
            1nat
        } else {
            0nat
        }
    }
}

/// The share of code files among the files of a tree, in whole percent,
/// rounded down. A tree without files has none.
pub open spec fn code_percentage(tree: Seq<TreeEntryView>, extensions: Seq<Seq<char>>) -> Option<
    nat,
> {
    if file_total(tree) == 0 {
        None
    } else {
        Some(code_total(tree, extensions) * 100 / file_total(tree))
    }
}

/// Whether a tree is genuine source: it has files, and at least 70 percent
/// of them are code files. A tree without files is not.
pub open spec fn is_source(tree: Seq<TreeEntryView>, extensions: Seq<Seq<char>>) -> bool {
    match code_percentage(tree, extensions) {
        Some(percentage) => percentage >= SOURCE_THRESHOLD,
        None => false,
    }
}

/// Code files are files: there are never more of them than files, nor more
/// files than entries.
pub proof fn lemma_totals_bounded(tree: Seq<TreeEntryView>, extensions: Seq<Seq<char>>)
    ensures
        code_total(tree, extensions) <= file_total(tree) <= tree.len(),
    decreases tree.len(),
{
    if tree.len() > 0 {
        lemma_totals_bounded(tree.drop_last(), extensions);
    }
}

/// The threshold is inclusive: a tree is genuine source exactly when it has
/// files and its code files, taken a hundred times, reach seventy times its
/// files.
pub proof fn lemma_source_threshold(tree: Seq<TreeEntryView>, extensions: Seq<Seq<char>>)
    ensures
        is_source(tree, extensions) <==> file_total(tree) > 0 && code_total(tree, extensions)
            * 100 >= 70 * file_total(tree),
        file_total(tree) == 0 ==> !is_source(tree, extensions),
{
    let files = file_total(tree) as int;
    let code = code_total(tree, extensions) as int;
    if files > 0 {
        lemma_floor_reaches(code * 100, files, 70);
    }
}

/// A quotient rounded down reaches `bound` exactly when the dividend reaches
/// `bound` times the divisor.
proof fn lemma_floor_reaches(dividend: int, divisor: int, bound: int)
    requires
        dividend >= 0,
        divisor > 0,
        bound >= 0,
    ensures
        dividend / divisor >= bound <==> dividend >= bound * divisor,
{
    vstd::arithmetic::div_mod::lemma_fundamental_div_mod(dividend, divisor);
    let quotient = dividend / divisor;
    if quotient >= bound {
        assert(quotient * divisor >= bound * divisor) by (nonlinear_arith)
            requires
                quotient >= bound,
                divisor > 0,
        ;
        assert(divisor * quotient == quotient * divisor) by (nonlinear_arith);
    } else {
        assert((quotient + 1) * divisor <= bound * divisor) by (nonlinear_arith)
            requires
                quotient + 1 <= bound,
                divisor > 0,
        ;
        assert((quotient + 1) * divisor == divisor * quotient + divisor) by (nonlinear_arith);
    }
}

/// The endings of code files.
pub fn default_extensions() -> (extensions: Vec<String>)
    ensures
        text_views(extensions@) == code_extensions(),
{
    let mut extensions: Vec<String> = Vec::new();
    extensions.push(".rs".to_owned());
    extensions.push(".java".to_owned());
    extensions.push(".c".to_owned());
    extensions.push(".cpp".to_owned());
    extensions.push(".h".to_owned());
    extensions
}

/// Whether `path` ends with one of `extensions`.
pub fn has_code_extension(path: &str, extensions: &Vec<String>) -> (found: bool)
    ensures
        found == recognized(path@, text_views(extensions@)),
{
    let ghost endings = text_views(extensions@);
    let mut k: usize = 0;
    while k < extensions.len()
        invariant
            k <= extensions.len(),
            endings == text_views(extensions@),
            forall|j: int| 0 <= j < k ==> !is_suffix(#[trigger] endings[j], path@),
        decreases extensions.len() - k,
    {
        if ends_with(path, extensions[k].as_str()) {
            assert(is_suffix(endings[k as int], path@));
            return true;
        }
        k += 1;
    }
    false
}

/// Classifies a tree with a table of code file endings of the caller's
/// choice.
pub fn classify_with(tree: &Vec<TreeEntry>, extensions: &Vec<String>) -> (source: bool)
    ensures
        source == is_source(tree_views(tree@), text_views(extensions@)),
{
    let ghost entries = tree_views(tree@);
    let ghost endings = text_views(extensions@);
    let mut total_files: usize = 0;
    let mut code_files: usize = 0;
    let mut i: usize = 0;
    while i < tree.len()
        invariant
            i <= tree.len(),
            entries == tree_views(tree@),
            endings == text_views(extensions@),
            total_files == file_total(entries.take(i as int)),
            code_files == code_total(entries.take(i as int), endings),
            code_files <= total_files <= i,
        decreases tree.len() - i,
    {
        proof {
            assert(entries.take(i + 1).drop_last() =~= entries.take(i as int));
        }
        match tree[i].kind {
            EntryKind::File => {
                total_files += 1;
                if has_code_extension(tree[i].path.as_str(), extensions) {
                    code_files += 1;
                }
            },
            EntryKind::Other => {},
        }
        i += 1;
    }
    proof {
        assert(entries.take(i as int) =~= entries);
    }
    if total_files == 0 {
        return false;
    }
    let percentage: u128 = (code_files as u128 * 100) / (total_files as u128);
    percentage >= SOURCE_THRESHOLD as u128
}

/// Classifies a tree: whether at least 70 percent of its files are code
/// files.
pub fn classify(tree: &Vec<TreeEntry>) -> (source: bool)
    ensures
        source == is_source(tree_views(tree@), code_extensions()),
{
    let extensions = default_extensions();
    classify_with(tree, &extensions)
}

/// Classifies the repository whose tree listing is `tree`.
pub fn analyze_repo(tree: &Vec<Value>) -> (source: bool)
    ensures
        source == is_source(tree_records(jsons_of(tree@)), code_extensions()),
{
    let entries = parse_tree(tree);
    classify(&entries)
}

/// Where the clone of a repository goes: a directory named by the language
/// and the repository.
pub open spec fn clone_location(language: Seq<char>, repo_name: Seq<char>) -> Seq<char> {
    "repo_cloned/"@ + language + "_"@ + repo_name
}

/// The directory that the clone of a repository goes to.
pub fn clone_path(language: &str, repo_name: &str) -> (path: String)
    ensures
        path@ == clone_location(language@, repo_name@),
{
    let mut path = "repo_cloned/".to_owned();
    path.append(language);
    path.append("_");
    path.append(repo_name);
    path
}

/// Where the choice of the repository to clone stands. The candidates of a
/// batch are numbered from 0 in batch order.
#[derive(Clone, Copy, Debug, PartialEq, Eq, Structural)]
pub enum Selection {
    /// The tree of this candidate is to be fetched and classified.
    Inspecting(usize),
    /// This candidate is genuine source and is to be cloned.
    Cloning(usize),
    /// This candidate was cloned; no other is looked at.
    Cloned(usize),
    /// No candidate is left.
    Exhausted,
}

/// What became of one candidate.
#[derive(Clone, Copy, Debug, PartialEq, Eq, Structural)]
pub enum Attempt {
    /// Its tree was classified as not genuine source.
    NotSource,
    /// Its tree could not be had.
    AnalysisFailed,
    /// It is genuine source, and cloning it failed.
    CloneFailed,
    /// It is genuine source and was cloned.
    Cloned,
}

/// What the verdict on a tree says: whether it is genuine source, or `None`
/// when the tree could not be had.
pub open spec fn verdict_view(verdict: Result<bool, FetchError>) -> Option<bool> {
    match verdict {
        Ok(source) => Some(source),
        Err(_) => None,
    }
}

impl Selection {
    /// The choice before any candidate of a batch of `candidates` was looked
    /// at.
    pub open spec fn initial(candidates: usize) -> Selection {
        if candidates > 0 {
            Selection::Inspecting(0)
        } else {
            Selection::Exhausted
        }
    }

    /// The choice when candidate `index` is given up.
    pub open spec fn past(index: usize, candidates: usize) -> Selection {
        if index + 1 < candidates {
            Selection::Inspecting((index + 1) as usize)
        } else {
            Selection::Exhausted
        }
    }

    /// The choice after the verdict on the inspected candidate: genuine
    /// source is cloned next, anything else gives the candidate up. A choice
    /// that inspects no candidate stays as it is.
    pub open spec fn analysed(self, candidates: usize, verdict: Option<bool>) -> Selection {
        match self {
            Selection::Inspecting(index) => if verdict == Some(true) {
                Selection::Cloning(index)
            } else {
                Selection::past(index, candidates)
            },
            _ => self,
        }
    }

    /// The choice after the attempt to clone: success ends the choice, a
    /// failure gives the candidate up. A choice that clones no candidate
    /// stays as it is.
    pub open spec fn cloned(self, candidates: usize, succeeded: bool) -> Selection {
        match self {
            Selection::Cloning(index) => if succeeded {
                Selection::Cloned(index)
            } else {
                Selection::past(index, candidates)
            },
            _ => self,
        }
    }

    /// The choice after one candidate was dealt with.
    pub open spec fn attempted(self, candidates: usize, attempt: Attempt) -> Selection {
        match attempt {
            Attempt::NotSource => self.analysed(candidates, Some(false)),
            Attempt::AnalysisFailed => self.analysed(candidates, None),
            Attempt::CloneFailed => self.analysed(candidates, Some(true)).cloned(candidates, false),
            Attempt::Cloned => self.analysed(candidates, Some(true)).cloned(candidates, true),
        }
    }

    /// The choice after a run of candidates was dealt with, in batch order.
    pub open spec fn attempted_all(self, candidates: usize, attempts: Seq<Attempt>) -> Selection
        decreases attempts.len(),
    {
        if attempts.len() == 0 {
            self
        } else {
            self.attempted_all(candidates, attempts.drop_last()).attempted(
                candidates,
                attempts.last(),
            )
        }
    }

    /// Starts the choice among `candidates` repositories.
    pub fn start(candidates: usize) -> (selection: Selection)
        ensures
            selection == Selection::initial(candidates),
    {
        if candidates > 0 {
            Selection::Inspecting(0)
        } else {
            Selection::Exhausted
        }
    }

    fn give_up(index: usize, candidates: usize) -> (selection: Selection)
        ensures
            selection == Selection::past(index, candidates),
    {
        if candidates > 0 && index < candidates - 1 {
            Selection::Inspecting(index + 1)
        } else {
            Selection::Exhausted
        }
    }

    /// Takes the verdict on the inspected candidate. The second result is
    /// the failure to report, if the tree could not be had.
    pub fn on_analysis(self, candidates: usize, verdict: Result<bool, FetchError>) -> (next: (
        Selection,
        Option<FetchError>,
    ))
        ensures
            next.0 == self.analysed(candidates, verdict_view(verdict)),
            match next.1 {
                Some(error) => verdict == Err::<bool, FetchError>(error),
                None => verdict is Ok,
            },
    {
        let (source, report) = match verdict {
            Ok(source) => (source, None),
            Err(error) => (false, Some(error)),
        };
        let selection = match self {
            Selection::Inspecting(index) => if source {
                Selection::Cloning(index)
            } else {
                Selection::give_up(index, candidates)
            },
            _ => self,
        };
        (selection, report)
    }

    /// Takes the outcome of the attempt to clone.
    pub fn on_clone(self, candidates: usize, succeeded: bool) -> (next: Selection)
        ensures
            next == self.cloned(candidates, succeeded),
    {
        match self {
            Selection::Cloning(index) => if succeeded {
                Selection::Cloned(index)
            } else {
                Selection::give_up(index, candidates)
            },
            _ => self,
        }
    }
}

/// The choice goes through the candidates in batch order and ends at the
/// first one that is genuine source and was cloned: every candidate before
/// it was not cloned, and none after it is looked at. When none was cloned
/// the candidates run out.
pub proof fn lemma_first_success_wins(candidates: usize, attempts: Seq<Attempt>)
    requires
        attempts.len() == candidates,
    ensures
        match Selection::initial(candidates).attempted_all(candidates, attempts) {
            Selection::Cloned(index) => {
                &&& index < candidates
                &&& attempts[index as int] == Attempt::Cloned
                &&& forall|j: int| 0 <= j < index ==> attempts[j] != Attempt::Cloned
            },
            Selection::Exhausted => forall|j: int|
                0 <= j < candidates ==> attempts[j] != Attempt::Cloned,
            _ => false,
        },
{
    lemma_selection_run(candidates, attempts, candidates as int);
    assert(attempts.take(candidates as int) =~= attempts);
}

/// After the first `done` candidates the choice stands at the first of them
/// that was cloned, or at candidate `done`, or has run out with the batch.
proof fn lemma_selection_run(candidates: usize, attempts: Seq<Attempt>, done: int)
    requires
        attempts.len() == candidates,
        0 <= done <= candidates,
    ensures
        match Selection::initial(candidates).attempted_all(candidates, attempts.take(done)) {
            Selection::Cloned(index) => {
                &&& index < done
                &&& attempts[index as int] == Attempt::Cloned
                &&& forall|j: int| 0 <= j < index ==> attempts[j] != Attempt::Cloned
            },
            Selection::Inspecting(index) => {
                &&& index == done
                &&& done < candidates
                &&& forall|j: int| 0 <= j < done ==> attempts[j] != Attempt::Cloned
            },
            Selection::Exhausted => {
                &&& done == candidates
                &&& forall|j: int| 0 <= j < done ==> attempts[j] != Attempt::Cloned
            },
            Selection::Cloning(_) => false,
        },
    decreases done,
{
    if done > 0 {
        lemma_selection_run(candidates, attempts, done - 1);
        assert(attempts.take(done).drop_last() =~= attempts.take(done - 1));
    }
}

} // verus!
