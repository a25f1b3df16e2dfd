//! A second opinion on a repository, from the names of its files alone:
//! code files speak for genuine source, names of tutorials, examples and
//! readmes against it.
//!
//! This heuristic is independent of the share of code files that
//! [`crate::inspect_repo::classify`] goes by, which remains the rule for
//! choosing the repository to clone.

use crate::inspect_repo::{code_extensions, default_extensions, has_code_extension, recognized};
use crate::text::{contains, lowercase, occurs_in, text_views, to_lowercase};
use vstd::prelude::*;

verus! {

/// The words that mark a file as documentation.
pub open spec fn doc_keywords() -> Seq<Seq<char>> {
    seq!["tutorial"@, "example"@, "readme"@]
}

/// Whether one of `keywords` occurs in a name.
pub open spec fn flagged(name: Seq<char>, keywords: Seq<Seq<char>>) -> bool {
    exists|k: int| 0 <= k < keywords.len() && occurs_in(#[trigger] keywords[k], name)
}

/// Whether some name ends like a code file.
pub open spec fn any_code(names: Seq<Seq<char>>) -> bool {
    exists|i: int| 0 <= i < names.len() && recognized(#[trigger] names[i], code_extensions())
}

/// Whether some name holds a word that marks documentation.
pub open spec fn any_flagged(names: Seq<Seq<char>>) -> bool {
    exists|i: int| 0 <= i < names.len() && flagged(#[trigger] names[i], doc_keywords())
}

/// Whether names in lower case look like those of genuine source: some name
/// ends like a code file, and none holds a word that marks documentation.
pub open spec fn names_look_like_source(lowered: Seq<Seq<char>>) -> bool {
    any_code(lowered) && !any_flagged(lowered)
}

/// The lower-case forms of file names.
pub open spec fn lowered_names(files: Seq<String>) -> Seq<Seq<char>> {
    files.map_values(|file: String| lowercase(file@))
}

/// The words that mark a file as documentation.
pub fn default_keywords() -> (keywords: Vec<String>)
    ensures
        text_views(keywords@) == doc_keywords(),
{
    let mut keywords: Vec<String> = Vec::new();
    keywords.push("tutorial".to_owned());
    keywords.push("example".to_owned());
    keywords.push("readme".to_owned());
    assert(text_views(keywords@) =~= doc_keywords());
    keywords
}

/// Whether one of `keywords` occurs in `name`.
pub fn has_keyword(name: &str, keywords: &Vec<String>) -> (found: bool)
    ensures
        found == flagged(name@, text_views(keywords@)),
{
    let ghost words = text_views(keywords@);
    let mut k: usize = 0;
    while k < keywords.len()
        invariant
            k <= keywords.len(),
            words == text_views(keywords@),
            forall|j: int| 0 <= j < k ==> !occurs_in(#[trigger] words[j], name@),
        decreases keywords.len() - k,
    {
        if contains(name, keywords[k].as_str()) {
            assert(occurs_in(words[k as int], name@));
            return true;
        }
        k += 1;
    }
    false
}

/// Judges file names that are already in lower case.
pub fn lowered_look_like_source(lowered: &[String]) -> (source: bool)
    ensures
        source == names_look_like_source(text_views(lowered@)),
{
    let extensions = default_extensions();
    let keywords = default_keywords();
    let ghost names = text_views(lowered@);
    let mut has_code = false;
    let mut not_source = false;
    let mut i: usize = 0;
    while i < lowered.len()
        invariant
            i <= lowered.len(),
            names == text_views(lowered@),
            text_views(extensions@) == code_extensions(),
            text_views(keywords@) == doc_keywords(),
            has_code == any_code(names.take(i as int)),
            not_source == any_flagged(names.take(i as int)),
        decreases lowered.len() - i,
    {
        let ghost seen = names.take(i as int);
        let ghost more = names.take(i + 1);
        let code = has_code_extension(lowered[i].as_str(), &extensions);
        let marked = has_keyword(lowered[i].as_str(), &keywords);
        proof {
            assert(more[i as int] == names[i as int]);
            assert(forall|j: int| 0 <= j < i ==> seen[j] == more[j]);
            if any_code(seen) {
                let j = choose|j: int|
                    0 <= j < seen.len() && recognized(#[trigger] seen[j], code_extensions());
                assert(recognized(more[j], code_extensions()));
            }
            if any_flagged(seen) {
                let j = choose|j: int|
                    0 <= j < seen.len() && flagged(#[trigger] seen[j], doc_keywords());
                assert(flagged(more[j], doc_keywords()));
            }
            if any_code(more) && !code {
                let j = choose|j: int|
                    0 <= j < more.len() && recognized(#[trigger] more[j], code_extensions());
                assert(recognized(seen[j], code_extensions()));
            }
            if any_flagged(more) && !marked {
                let j = choose|j: int|
                    0 <= j < more.len() && flagged(#[trigger] more[j], doc_keywords());
                assert(flagged(seen[j], doc_keywords()));
            }
        }
        if code {
            has_code = true;
        }
        if marked {
            not_source = true;
        }
        i += 1;
    }
    proof {
        assert(names.take(i as int) =~= names);
    }
    has_code && !not_source
}

/// Judges a repository by the names of its files, whatever their case: some
/// name ends like a code file, and none holds "tutorial", "example" or
/// "readme".
pub fn looks_like_source(files: &[String]) -> (source: bool)
    ensures
        source == names_look_like_source(lowered_names(files@)),
{
    let mut lowered: Vec<String> = Vec::new();
    let mut i: usize = 0;
    while i < files.len()
        invariant
            i <= files.len(),
            text_views(lowered@) == lowered_names(files@).take(i as int),
        decreases files.len() - i,
    {
        let ghost before = lowered@;
        let name = to_lowercase(files[i].as_str());
        lowered.push(name);
        proof {
            assert(text_views(lowered@) =~= text_views(before).push(name@));
            assert(lowered_names(files@).take(i + 1) =~= lowered_names(files@).take(
                i as int,
            ).push(lowercase(files@[i as int]@)));
        }
        i += 1;
    }
    proof {
        assert(lowered_names(files@).take(i as int) =~= lowered_names(files@));
    }
    lowered_look_like_source(lowered.as_slice())
}

} // verus!
