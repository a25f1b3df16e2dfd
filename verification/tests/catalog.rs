use hw1::models::fork::{parse_fork, parse_forks};
use hw1::models::repo::{decode_repo, parse_repo, parse_repos, MissingField};
use serde_json::Value;

fn object(members: Vec<(&str, Value)>) -> Value {
    let mut map = serde_json::Map::new();
    for (key, value) in members {
        map.insert(key.to_string(), value);
    }
    Value::Object(map)
}

fn text(value: &str) -> Value {
    Value::String(value.to_string())
}

fn number(value: u64) -> Value {
    Value::from(value)
}

fn complete(name: &str) -> Vec<(&'static str, Value)> {
    vec![
        ("name", text(name)),
        ("owner", object(vec![("login", text("octo"))])),
        ("html_url", text("https://example.org/octo")),
        ("language", text("C")),
        ("default_branch", text("trunk")),
        ("stargazers_count", number(12)),
        ("forks_count", number(3)),
        ("open_issues_count", number(4)),
    ]
}

fn without(name: &str, key: &str) -> Value {
    object(complete(name).into_iter().filter(|(k, _)| *k != key).collect())
}

fn with(name: &str, key: &'static str, value: Value) -> Value {
    let mut members: Vec<(&str, Value)> =
        complete(name).into_iter().filter(|(k, _)| *k != key).collect();
    members.push((key, value));
    object(members)
}

#[test]
fn decode_repo_reads_every_field() {
    let repo = decode_repo(&object(complete("alpha"))).unwrap();
    assert_eq!(repo.name, "alpha");
    assert_eq!(repo.owner_login, "octo");
    assert_eq!(repo.html_url, "https://example.org/octo");
    assert_eq!(repo.language, "C");
    assert_eq!(repo.default_branch, "trunk");
    assert_eq!(repo.stars, 12);
    assert_eq!(repo.forks_count, 3);
    assert_eq!(repo.open_issues_count, 4);
    assert!(repo.top_modified_files.is_empty());
    assert_eq!(repo.fork_commit_count, 0);
}

#[test]
fn decode_repo_names_the_missing_field() {
    assert_eq!(decode_repo(&without("a", "name")).unwrap_err(), MissingField::Name);
    assert_eq!(decode_repo(&without("a", "owner")).unwrap_err(), MissingField::OwnerLogin);
    assert_eq!(decode_repo(&without("a", "html_url")).unwrap_err(), MissingField::HtmlUrl);
    assert_eq!(
        decode_repo(&without("a", "default_branch")).unwrap_err(),
        MissingField::DefaultBranch
    );
    assert_eq!(decode_repo(&without("a", "stargazers_count")).unwrap_err(), MissingField::Stars);
    assert_eq!(decode_repo(&without("a", "forks_count")).unwrap_err(), MissingField::Forks);
    assert_eq!(
        decode_repo(&without("a", "open_issues_count")).unwrap_err(),
        MissingField::OpenIssues
    );
}

#[test]
fn decode_repo_names_the_first_missing_field() {
    let record = object(vec![("name", text("only-a-name"))]);
    assert_eq!(decode_repo(&record).unwrap_err(), MissingField::OwnerLogin);
    assert_eq!(decode_repo(&object(vec![])).unwrap_err(), MissingField::Name);
    assert_eq!(decode_repo(&Value::Null).unwrap_err(), MissingField::Name);
    assert_eq!(decode_repo(&text("alpha")).unwrap_err(), MissingField::Name);
}

#[test]
fn decode_repo_rejects_fields_of_the_wrong_type() {
    assert_eq!(decode_repo(&with("a", "name", number(7))).unwrap_err(), MissingField::Name);
    assert_eq!(
        decode_repo(&with("a", "owner", text("octo"))).unwrap_err(),
        MissingField::OwnerLogin
    );
    assert_eq!(
        decode_repo(&with("a", "owner", object(vec![("login", number(1))]))).unwrap_err(),
        MissingField::OwnerLogin
    );
    assert_eq!(
        decode_repo(&with("a", "stargazers_count", text("12"))).unwrap_err(),
        MissingField::Stars
    );
    assert_eq!(
        decode_repo(&with("a", "forks_count", Value::from(-3))).unwrap_err(),
        MissingField::Forks
    );
    assert_eq!(
        decode_repo(&with("a", "open_issues_count", Value::from(2.5))).unwrap_err(),
        MissingField::OpenIssues
    );
    assert_eq!(
        decode_repo(&with("a", "default_branch", Value::Bool(true))).unwrap_err(),
        MissingField::DefaultBranch
    );
}

#[test]
fn language_defaults_to_unknown() {
    let absent = decode_repo(&without("a", "language")).unwrap();
    assert_eq!(absent.language, "Unknown");
    assert_eq!(absent.name, "a");
    assert_eq!(absent.stars, 12);
    let null = decode_repo(&with("a", "language", Value::Null)).unwrap();
    assert_eq!(null.language, "Unknown");
    let wrong = decode_repo(&with("a", "language", number(3))).unwrap();
    assert_eq!(wrong.language, "Unknown");
    assert_eq!(wrong.default_branch, "trunk");
}

#[test]
fn parse_repo_agrees_with_decode_repo() {
    assert_eq!(parse_repo(&object(complete("alpha"))), decode_repo(&object(complete("alpha"))).ok());
    assert_eq!(parse_repo(&without("alpha", "forks_count")), None);
}

#[test]
fn parse_repos_skips_invalid_and_keeps_order() {
    let records = vec![object(complete("A")), object(vec![("name", text("broken"))]), object(complete("B"))];
    let repos = parse_repos(records);
    let names: Vec<&str> = repos.iter().map(|repo| repo.name.as_str()).collect();
    assert_eq!(names, vec!["A", "B"]);
}

#[test]
fn parse_repos_yields_n_minus_k() {
    let mut records = Vec::new();
    let mut expected = Vec::new();
    for i in 0..9u64 {
        let name = format!("r{}", i);
        if i % 3 == 1 {
            records.push(without(&name, "html_url"));
        } else {
            records.push(object(complete(&name)));
            expected.push(name);
        }
    }
    let repos = parse_repos(records);
    assert_eq!(repos.len(), 9 - 3);
    let names: Vec<String> = repos.into_iter().map(|repo| repo.name).collect();
    assert_eq!(names, expected);
}

#[test]
fn parse_repos_of_parts_is_parse_repos_of_whole() {
    let front = vec![object(complete("A")), without("x", "name")];
    let back = vec![without("y", "owner"), object(complete("B")), object(complete("C"))];
    let mut whole = front.clone();
    whole.extend(back.clone());
    let mut joined = parse_repos(front);
    joined.extend(parse_repos(back));
    assert_eq!(parse_repos(whole), joined);
    assert!(parse_repos(Vec::new()).is_empty());
}

#[test]
fn parse_fork_needs_two_strings() {
    let fork = parse_fork(&object(vec![
        ("name", text("spoon")),
        ("owner", object(vec![("login", text("knife"))])),
        ("stargazers_count", number(1)),
    ]))
    .unwrap();
    assert_eq!(fork.name, "spoon");
    assert_eq!(fork.owner_login, "knife");
    assert!(parse_fork(&object(vec![("name", number(1)), ("owner", object(vec![("login", text("k"))]))])).is_none());
    assert!(parse_fork(&object(vec![("name", text("s")), ("owner", text("k"))])).is_none());
    assert!(parse_fork(&Value::Array(vec![])).is_none());
}

#[test]
fn parse_forks_drops_entries_silently() {
    let listing = vec![
        Value::Null,
        object(vec![("name", text("one")), ("owner", object(vec![("login", text("u1"))]))]),
        object(vec![("name", text("two"))]),
        object(vec![("name", text("three")), ("owner", object(vec![("login", text("u3"))]))]),
    ];
    let forks = parse_forks(listing);
    assert_eq!(forks.len(), 2);
    assert_eq!((forks[0].name.as_str(), forks[0].owner_login.as_str()), ("one", "u1"));
    assert_eq!((forks[1].name.as_str(), forks[1].owner_login.as_str()), ("three", "u3"));
}
