use hw1::data_manager::{
    batch_fits, checked_total, compute_fork_commits, compute_forks, compute_open_issues,
    compute_stars, compute_top_three, stat_lines, Figure, TOP_FILES,
};
use hw1::models::repo::Repo;
use hw1::storage::{store_fields, store_key};

fn repo(name: &str, stars: u64, forks: u64, issues: u64, fork_commits: u64) -> Repo {
    Repo {
        name: name.to_string(),
        owner_login: format!("{}-owner", name),
        html_url: format!("https://example.org/{}", name),
        language: "Rust".to_string(),
        default_branch: "main".to_string(),
        stars,
        forks_count: forks,
        open_issues_count: issues,
        top_modified_files: Vec::new(),
        fork_commit_count: fork_commits,
    }
}

fn batch() -> Vec<Repo> {
    vec![
        repo("a", 1, 10, 100, 1000),
        repo("b", 2, 20, 200, 2000),
        repo("c", 3, 30, 300, 3000),
        repo("d", 4, 40, 400, 4000),
    ]
}

fn files(entries: &[(&str, u32)]) -> Vec<(String, u32)> {
    entries.iter().map(|(name, count)| (name.to_string(), *count)).collect()
}

#[test]
fn sums_add_each_figure() {
    let repos = batch();
    assert_eq!(compute_stars(&repos), 10);
    assert_eq!(compute_forks(&repos), 100);
    assert_eq!(compute_open_issues(&repos), 1000);
    assert_eq!(compute_fork_commits(&repos), 10000);
}

#[test]
fn sums_of_nothing_are_zero() {
    assert_eq!(compute_stars(&[]), 0);
    assert_eq!(compute_forks(&[]), 0);
    assert_eq!(compute_open_issues(&[]), 0);
    assert_eq!(compute_fork_commits(&[]), 0);
}

#[test]
fn sums_do_not_depend_on_order() {
    let repos = batch();
    let mut turned = batch();
    turned.reverse();
    turned.swap(0, 2);
    assert_eq!(compute_stars(&repos), compute_stars(&turned));
    assert_eq!(compute_forks(&repos), compute_forks(&turned));
    assert_eq!(compute_open_issues(&repos), compute_open_issues(&turned));
    assert_eq!(compute_fork_commits(&repos), compute_fork_commits(&turned));
}

#[test]
fn sums_over_parts_add_up() {
    let repos = batch();
    for cut in 0..=repos.len() {
        let (front, back) = repos.split_at(cut);
        assert_eq!(compute_stars(front) + compute_stars(back), 10);
        assert_eq!(compute_forks(front) + compute_forks(back), 100);
        assert_eq!(compute_open_issues(front) + compute_open_issues(back), 1000);
        assert_eq!(compute_fork_commits(front) + compute_fork_commits(back), 10000);
    }
}

#[test]
fn checked_total_tells_overflow() {
    let repos = vec![repo("a", u64::MAX - 1, 1, 0, 7), repo("b", 1, 2, 0, 8)];
    assert_eq!(checked_total(&repos, Figure::Stars), Some(u64::MAX));
    assert_eq!(checked_total(&repos, Figure::Forks), Some(3));
    assert_eq!(checked_total(&repos, Figure::OpenIssues), Some(0));
    assert_eq!(checked_total(&repos, Figure::ForkCommits), Some(15));
    assert!(batch_fits(&repos));
    let repos = vec![repo("a", u64::MAX, 1, 0, 0), repo("b", 1, 2, 0, 0)];
    assert_eq!(checked_total(&repos, Figure::Stars), None);
    assert_eq!(checked_total(&repos, Figure::Forks), Some(3));
    assert!(!batch_fits(&repos));
    let repos = vec![repo("a", 0, 0, 1, u64::MAX), repo("b", 0, 0, 1, u64::MAX)];
    assert!(!batch_fits(&repos));
}

#[test]
fn top_three_shows_at_most_three() {
    assert_eq!(TOP_FILES, 3);
    let mut shown = repo("a", 0, 0, 0, 0);
    assert!(compute_top_three(&shown).is_empty());
    shown.top_modified_files = files(&[("x", 4), ("y", 2)]);
    assert_eq!(compute_top_three(&shown), files(&[("x", 4), ("y", 2)]));
    shown.top_modified_files = files(&[("x", 4), ("y", 2), ("z", 2)]);
    assert_eq!(compute_top_three(&shown), files(&[("x", 4), ("y", 2), ("z", 2)]));
    shown.top_modified_files = files(&[("x", 4), ("y", 2), ("z", 2), ("w", 1), ("v", 1)]);
    assert_eq!(compute_top_three(&shown), files(&[("x", 4), ("y", 2), ("z", 2)]));
}

#[test]
fn report_lines() {
    let mut first = repo("alpha", 100, 2, 5, 6);
    first.top_modified_files = files(&[("main.rs", 5), ("lib.rs", 2)]);
    let second = repo("beta", 23, 40, 1, 0);
    let mut third = repo("gamma", 1, 0, 0, 4);
    third.top_modified_files = files(&[("a", 9), ("b", 8), ("c", 7), ("d", 6)]);
    let lines = stat_lines(&[first, second, third], "Rust");
    let expected = vec![
        "Language: Rust",
        "Total stars: 124",
        "Total forks: 42",
        "Top-3 Most modified file per repo",
        "Repo name: alpha",
        "File name 1: main.rs, Modifications: 5",
        "File name 2: lib.rs, Modifications: 2",
        "Repo name: beta",
        "Repo name: gamma",
        "File name 1: a, Modifications: 9",
        "File name 2: b, Modifications: 8",
        "File name 3: c, Modifications: 7",
        "New commits in forked repos: 10",
        "Open issues in top-10 repos: 6",
        "--------------------------------------------",
    ];
    assert_eq!(lines, expected);
}

#[test]
fn report_on_an_empty_batch() {
    let lines = stat_lines(&[], "C++");
    let expected = vec![
        "Language: C++",
        "Total stars: 0",
        "Total forks: 0",
        "Top-3 Most modified file per repo",
        "New commits in forked repos: 0",
        "Open issues in top-10 repos: 0",
        "--------------------------------------------",
    ];
    assert_eq!(lines, expected);
}

#[test]
fn store_record_fields() {
    let mut kept = repo("demo", 100, 2, 5, 6);
    kept.language = "Java".to_string();
    kept.default_branch = "trunk".to_string();
    assert_eq!(store_key(&kept), "demo");
    let expected: Vec<(String, String)> = [
        ("owner", "demo-owner"),
        ("url", "https://example.org/demo"),
        ("language", "Java"),
        ("default_branch", "trunk"),
        ("stars", "100"),
        ("forks_count", "2"),
        ("open_issues_count", "5"),
        ("fork_commit_count", "6"),
    ]
    .iter()
    .map(|(field, value)| (field.to_string(), value.to_string()))
    .collect();
    assert_eq!(store_fields(&kept), expected);
}
