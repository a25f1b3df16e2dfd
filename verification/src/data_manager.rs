//! Figures over a batch of repositories.

use crate::models::repo::{descending, file_counts, Repo};
use crate::text::{decimal, decimal_string, join, text_views};
use vstd::prelude::*;
use vstd::string::StringExecFns;

verus! {

/// A figure of a repository that a batch adds up.
#[derive(Clone, Copy, Debug, PartialEq, Eq, Structural)]
pub enum Figure {
    Stars,
    Forks,
    ForkCommits,
    OpenIssues,
}

/// The value of a figure in one repository.
pub open spec fn figure_of(repo: Repo, figure: Figure) -> nat {
    match figure {
        Figure::Stars => repo.stars as nat,
        Figure::Forks => repo.forks_count as nat,
        Figure::ForkCommits => repo.fork_commit_count as nat,
        Figure::OpenIssues => repo.open_issues_count as nat,
    }
}

/// The sum of a figure over a batch.
pub open spec fn total(repos: Seq<Repo>, figure: Figure) -> nat
    decreases repos.len(),
{
    if repos.len() == 0 {
        0
    } else {
        total(repos.drop_last(), figure) + figure_of(repos.last(), figure)
    }
}

/// The sum over a batch is the sum over a leading part plus the sum over the
/// rest.
pub proof fn lemma_total_concat(front: Seq<Repo>, back: Seq<Repo>, figure: Figure)
    ensures
        total(front + back, figure) == total(front, figure) + total(back, figure),
    decreases back.len(),
{
    if back.len() > 0 {
        lemma_total_concat(front, back.drop_last(), figure);
        assert((front + back).drop_last() =~= front + back.drop_last());
    }
}

/// Taking one repository out of a batch lowers the sum by its figure.
pub proof fn lemma_total_remove(repos: Seq<Repo>, at: int, figure: Figure)
    requires
        0 <= at < repos.len(),
    ensures
        total(repos, figure) == total(repos.remove(at), figure) + figure_of(repos[at], figure),
{
    let front = repos.take(at);
    let back = repos.skip(at + 1);
    assert(repos =~= front + seq![repos[at]] + back);
    lemma_total_concat(front + seq![repos[at]], back, figure);
    lemma_total_concat(front, seq![repos[at]], figure);
    lemma_total_concat(front, back, figure);
    assert(total(seq![repos[at]], figure) == figure_of(repos[at], figure)) by {
        assert(seq![repos[at]].drop_last() =~= Seq::<Repo>::empty());
        assert(total(Seq::<Repo>::empty(), figure) == 0);
    }
}

/// The sum over a batch does not depend on the order of its repositories.
pub proof fn lemma_total_any_order(left: Seq<Repo>, right: Seq<Repo>, figure: Figure)
    requires
        left.to_multiset() == right.to_multiset(),
    ensures
        total(left, figure) == total(right, figure),
    decreases left.len(),
{
    broadcast use vstd::seq_lib::to_multiset_len;

    assert(left.len() == right.len()) by {
        assert(right.to_multiset().len() == right.len());
    }
    if left.len() > 0 {
        let repo = left.last();
        assert(left.to_multiset().count(repo) > 0) by {
            vstd::seq_lib::to_multiset_contains(left, repo);
        }
        vstd::seq_lib::to_multiset_contains(right, repo);
        let at = choose|at: int| 0 <= at < right.len() && right[at] == repo;
        vstd::seq_lib::to_multiset_remove(left, left.len() - 1);
        vstd::seq_lib::to_multiset_remove(right, at);
        lemma_total_any_order(left.drop_last(), right.remove(at), figure);
        lemma_total_remove(right, at, figure);
    }
}

/// The sum over a leading part of a batch never exceeds the sum over the
/// batch.
proof fn lemma_total_prefix(repos: Seq<Repo>, n: int, figure: Figure)
    requires
        0 <= n <= repos.len(),
    ensures
        total(repos.take(n), figure) <= total(repos, figure),
{
    assert(repos =~= repos.take(n) + repos.skip(n));
    lemma_total_concat(repos.take(n), repos.skip(n), figure);
}

fn figure_value(repo: &Repo, figure: Figure) -> (value: u64)
    ensures
        value == figure_of(*repo, figure),
{
    match figure {
        Figure::Stars => repo.stars,
        Figure::Forks => repo.forks_count,
        Figure::ForkCommits => repo.fork_commit_count,
        Figure::OpenIssues => repo.open_issues_count,
    }
}

/// Adds a figure up over a batch; `None` when the sum does not fit in 64
/// bits.
pub fn checked_total(repos: &[Repo], figure: Figure) -> (sum: Option<u64>)
    ensures
        match sum {
            Some(value) => value == total(repos@, figure),
            None => total(repos@, figure) > u64::MAX,
        },
{
    let mut sum: u64 = 0;
    let mut i: usize = 0;
    while i < repos.len()
        invariant
            i <= repos.len(),
            sum == total(repos@.take(i as int), figure),
        decreases repos.len() - i,
    {
        proof {
            assert(repos@.take(i + 1).drop_last() =~= repos@.take(i as int));
        }
        match sum.checked_add(figure_value(&repos[i], figure)) {
            Some(next) => {
                sum = next;
            },
            None => {
                proof {
                    lemma_total_prefix(repos@, i + 1, figure);
                }
                return None;
            },
        }
        i += 1;
    }
    proof {
        assert(repos@.take(i as int) =~= repos@);
    }
    Some(sum)
}

fn sum_figure(repos: &[Repo], figure: Figure) -> (sum: u64)
    requires
        total(repos@, figure) <= u64::MAX,
    ensures
        sum == total(repos@, figure),
{
    match checked_total(repos, figure) {
        Some(sum) => sum,
        None => 0,
    }
}

/// The stars of a batch.
pub fn compute_stars(repos: &[Repo]) -> (sum: u64)
    requires
        total(repos@, Figure::Stars) <= u64::MAX,
    ensures
        sum == total(repos@, Figure::Stars),
{
    sum_figure(repos, Figure::Stars)
}

/// The forks of a batch.
pub fn compute_forks(repos: &[Repo]) -> (sum: u64)
    requires
        total(repos@, Figure::Forks) <= u64::MAX,
    ensures
        sum == total(repos@, Figure::Forks),
{
    sum_figure(repos, Figure::Forks)
}

/// The recent commits over the forks of a batch.
pub fn compute_fork_commits(repos: &[Repo]) -> (sum: u64)
    requires
        total(repos@, Figure::ForkCommits) <= u64::MAX,
    ensures
        sum == total(repos@, Figure::ForkCommits),
{
    sum_figure(repos, Figure::ForkCommits)
}

/// The open issues of a batch.
pub fn compute_open_issues(repos: &[Repo]) -> (sum: u64)
    requires
        total(repos@, Figure::OpenIssues) <= u64::MAX,
    ensures
        sum == total(repos@, Figure::OpenIssues),
{
    sum_figure(repos, Figure::OpenIssues)
}

/// How many files the presentation of a repository shows.
pub const TOP_FILES: usize = 3;

/// The leading files of a repository for presentation: its first three top
/// files, or all of them when it has fewer. A repository that keeps its
/// invariant is shown with its top files unchanged.
pub fn compute_top_three(repo: &Repo) -> (top: Vec<(String, u32)>)
    ensures
        top@.len() <= 3,
        top@ == repo.top_modified_files@.take(
            if repo.top_modified_files@.len() < 3 {
                repo.top_modified_files@.len() as int
            } else {
                3
            },
        ),
        repo@.wf() ==> file_counts(top@) == repo@.top_modified_files,
        repo@.wf() ==> descending(file_counts(top@)),
{
    let files = &repo.top_modified_files;
    let shown: usize = if files.len() < TOP_FILES {
        files.len()
    } else {
        TOP_FILES
    };
    let mut top: Vec<(String, u32)> = Vec::new();
    let mut i: usize = 0;
    while i < shown
        invariant
            i <= shown <= files@.len(),
            top@ == files@.take(i as int),
        decreases shown - i,
    {
        let name = files[i].0.clone();
        let count = files[i].1;
        top.push((name, count));
        i += 1;
    }
    proof {
        if repo@.wf() {
            assert(files@.take(shown as int) =~= files@);
        }
    }
    top
}

/// The files that the presentation of a repository shows: the first three
/// of its top files.
pub open spec fn shown_files(files: Seq<(Seq<char>, nat)>) -> Seq<(Seq<char>, nat)> {
    files.take(
        if files.len() < 3 {
            files.len() as int
        } else {
            3
        },
    )
}

/// The line for the file that stands at `position`, counted from 1.
pub open spec fn file_line(position: nat, file: (Seq<char>, nat)) -> Seq<char> {
    "File name "@ + decimal(position) + ": "@ + file.0 + ", Modifications: "@ + decimal(file.1)
}

/// The lines for a list of files, numbered from 1.
pub open spec fn file_lines(files: Seq<(Seq<char>, nat)>) -> Seq<Seq<char>> {
    Seq::new(files.len(), |i: int| file_line((i + 1) as nat, files[i]))
}

/// The lines for one repository: its name, then its shown files.
pub open spec fn repo_lines(repo: Repo) -> Seq<Seq<char>> {
    seq!["Repo name: "@ + repo@.name] + file_lines(shown_files(repo@.top_modified_files))
}

/// The lines for the repositories of a batch, in batch order.
pub open spec fn batch_lines(repos: Seq<Repo>) -> Seq<Seq<char>>
    decreases repos.len(),
{
    if repos.len() == 0 {
        Seq::empty()
    } else {
        batch_lines(repos.drop_last()) + repo_lines(repos.last())
    }
}

/// The lines that open the report on a batch.
pub open spec fn report_head(repos: Seq<Repo>, language: Seq<char>) -> Seq<Seq<char>> {
    seq![
        "Language: "@ + language,
        "Total stars: "@ + decimal(total(repos, Figure::Stars)),
        "Total forks: "@ + decimal(total(repos, Figure::Forks)),
        "Top-3 Most modified file per repo"@,
    ]
}

/// The lines that close the report on a batch.
pub open spec fn report_foot(repos: Seq<Repo>) -> Seq<Seq<char>> {
    seq![
        "New commits in forked repos: "@ + decimal(total(repos, Figure::ForkCommits)),
        "Open issues in top-10 repos: "@ + decimal(total(repos, Figure::OpenIssues)),
        "--------------------------------------------"@,
    ]
}

/// The report on a batch, line by line.
pub open spec fn stat_report(repos: Seq<Repo>, language: Seq<char>) -> Seq<Seq<char>> {
    report_head(repos, language) + batch_lines(repos) + report_foot(repos)
}

/// Whether the four sums over a batch fit in 64 bits each.
pub open spec fn totals_fit(repos: Seq<Repo>) -> bool {
    &&& total(repos, Figure::Stars) <= u64::MAX
    &&& total(repos, Figure::Forks) <= u64::MAX
    &&& total(repos, Figure::ForkCommits) <= u64::MAX
    &&& total(repos, Figure::OpenIssues) <= u64::MAX
}

fn file_line_text(position: usize, name: &str, count: u32) -> (line: String)
    ensures
        line@ == file_line(position as nat, (name@, count as nat)),
{
    let mut line = "File name ".to_owned();
    line.append(decimal_string(position as u64).as_str());
    line.append(": ");
    line.append(name);
    line.append(", Modifications: ");
    line.append(decimal_string(count as u64).as_str());
    line
}

/// Appends the lines for one repository.
fn push_repo_lines(lines: &mut Vec<String>, repo: &Repo)
    ensures
        text_views(final(lines)@) == text_views(old(lines)@) + repo_lines(*repo),
{
    let ghost start = text_views(lines@);
    let ghost shown = shown_files(repo@.top_modified_files);
    let top = compute_top_three(repo);
    let title = join("Repo name: ", repo.name.as_str());
    lines.push(title);
    let mut i: usize = 0;
    while i < top.len()
        invariant
            i <= top.len(),
            top@.len() <= 3,
            file_counts(top@) == shown,
            text_views(lines@) == start + seq!["Repo name: "@ + repo@.name] + file_lines(
                shown,
            ).take(i as int),
        decreases top.len() - i,
    {
        let ghost before = lines@;
        let line = file_line_text(i + 1, top[i].0.as_str(), top[i].1);
        lines.push(line);
        proof {
            assert(text_views(lines@) =~= text_views(before).push(line@));
        }
        i += 1;
    }
}

/// The report on a batch, line by line: the language, the sums of stars and
/// of forks, for each repository its name and its shown files, then the sums
/// of fork commits and of open issues.
pub fn stat_lines(repos: &[Repo], language: &str) -> (lines: Vec<String>)
    requires
        totals_fit(repos@),
    ensures
        text_views(lines@) == stat_report(repos@, language@),
{
    let total_stars = compute_stars(repos);
    let total_forks = compute_forks(repos);
    let total_fork_commits = compute_fork_commits(repos);
    let total_open_issues = compute_open_issues(repos);
    let mut lines: Vec<String> = Vec::new();
    lines.push(join("Language: ", language));
    lines.push(join("Total stars: ", decimal_string(total_stars).as_str()));
    lines.push(join("Total forks: ", decimal_string(total_forks).as_str()));
    lines.push("Top-3 Most modified file per repo".to_owned());
    let mut i: usize = 0;
    while i < repos.len()
        invariant
            i <= repos.len(),
            text_views(lines@) == report_head(repos@, language@) + batch_lines(
                repos@.take(i as int),
            ),
        decreases repos.len() - i,
    {
        proof {
            assert(repos@.take(i + 1).drop_last() =~= repos@.take(i as int));
        }
        push_repo_lines(&mut lines, &repos[i]);
        i += 1;
    }
    proof {
        assert(repos@.take(i as int) =~= repos@);
    }
    let commits_line = join(
        "New commits in forked repos: ",
        decimal_string(total_fork_commits).as_str(),
    );
    let issues_line = join(
        "Open issues in top-10 repos: ",
        decimal_string(total_open_issues).as_str(),
    );
    let rule = "--------------------------------------------".to_owned();
    lines.push(commits_line);
    lines.push(issues_line);
    lines.push(rule);
    lines
}

/// Whether the four sums over a batch fit in 64 bits each.
pub fn batch_fits(repos: &[Repo]) -> (fits: bool)
    ensures
        fits == totals_fit(repos@),
{
    checked_total(repos, Figure::Stars).is_some() && checked_total(
        repos,
        Figure::Forks,
    ).is_some() && checked_total(repos, Figure::ForkCommits).is_some() && checked_total(
        repos,
        Figure::OpenIssues,
    ).is_some()
}

} // verus!
