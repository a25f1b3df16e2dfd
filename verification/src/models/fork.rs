//! Forks of a repository, as a fork listing names them.

use crate::json::{as_str, json_of, jsons_of, member, Json};
use serde_json::Value;
use vstd::prelude::*;

verus! {

/// A fork: the repository name and the login of its owner.
#[derive(Debug, PartialEq, Eq)]
pub struct Fork {
    pub name: String,
    pub owner_login: String,
}

/// The mathematical content of a [`Fork`].
pub struct ForkView {
    pub name: Seq<char>,
    pub owner_login: Seq<char>,
}

impl View for Fork {
    type V = ForkView;

    open spec fn view(&self) -> ForkView {
        ForkView { name: self.name@, owner_login: self.owner_login@ }
    }
}

/// The views of a sequence of forks.
pub open spec fn fork_views(forks: Seq<Fork>) -> Seq<ForkView> {
    forks.map_values(|fork: Fork| fork@)
}

/// The fork that a listing entry denotes: its members `name` and
/// `owner.login`, both strings. An entry without either denotes none.
pub open spec fn fork_record(doc: Json) -> Option<ForkView> {
    match (doc.member("name"@).as_text(), doc.member("owner"@).member("login"@).as_text()) {
        (Some(name), Some(owner_login)) => Some(ForkView { name, owner_login }),
        _ => None,
    }
}

/// The forks that a listing denotes: entries that denote none are left out,
/// the others keep their order.
pub open spec fn fork_records(docs: Seq<Json>) -> Seq<ForkView>
    decreases docs.len(),
{
    if docs.len() == 0 {
        Seq::empty()
    } else {
        match fork_record(docs.last()) {
            Some(fork) => fork_records(docs.drop_last()).push(fork),
            None => fork_records(docs.drop_last()),
        }
    }
}

/// Decodes one entry of a fork listing.
pub fn parse_fork(json: &Value) -> (parsed: Option<Fork>)
    ensures
        match parsed {
            Some(fork) => fork_record(json_of(*json)) == Some(fork@),
            None => fork_record(json_of(*json)) is None,
        },
{
    let name = match as_str(member(json, "name")) {
        Some(text) => text.to_owned(),
        None => { return None; },
    };
    let owner_login = match as_str(member(member(json, "owner"), "login")) {
        Some(text) => text.to_owned(),
        None => { return None; },
    };
    Some(Fork { name, owner_login })
}

/// Decodes a fork listing, leaving out the entries that denote no fork and
/// keeping the order of the others.
pub fn parse_forks(json_array: Vec<Value>) -> (forks: Vec<Fork>)
    ensures
        fork_views(forks@) == fork_records(jsons_of(json_array@)),
{
    let ghost docs = jsons_of(json_array@);
    let mut forks: Vec<Fork> = Vec::new();
    let mut i: usize = 0;
    while i < json_array.len()
        invariant
            i <= json_array.len(),
            docs == jsons_of(json_array@),
            fork_views(forks@) == fork_records(docs.take(i as int)),
        decreases json_array.len() - i,
    {
        proof {
            assert(docs.take(i + 1).drop_last() =~= docs.take(i as int));
        }
        match parse_fork(&json_array[i]) {
            Some(fork) => {
                forks.push(fork);
            },
            None => {},
        }
        i += 1;
    }
    proof {
        assert(docs.take(i as int) =~= docs);
    }
    forks
}

/// A listing never yields more forks than it has entries.
pub proof fn lemma_fork_records_len(docs: Seq<Json>)
    ensures
        fork_records(docs).len() <= docs.len(),
    decreases docs.len(),
{
    if docs.len() > 0 {
        lemma_fork_records_len(docs.drop_last());
    }
}

} // verus!
