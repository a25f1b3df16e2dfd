//! Entries of a repository's file tree.

use crate::json::{as_str, json_of, jsons_of, member, Json};
use crate::text::same_text;
use serde_json::Value;
use vstd::prelude::*;

verus! {

/// What a tree entry is.
#[derive(Clone, Copy, Debug, PartialEq, Eq, Structural)]
pub enum EntryKind {
    /// A file, which the platform calls a blob.
    File,
    /// Anything else, such as a directory.
    Other,
}

/// An entry of a file tree.
#[derive(Debug, PartialEq, Eq)]
pub struct TreeEntry {
    pub kind: EntryKind,
    /// The path of the entry; empty when the listing gives none.
    pub path: String,
}

/// The mathematical content of a [`TreeEntry`].
pub struct TreeEntryView {
    pub kind: EntryKind,
    pub path: Seq<char>,
}

impl View for TreeEntry {
    type V = TreeEntryView;

    open spec fn view(&self) -> TreeEntryView {
        TreeEntryView { kind: self.kind, path: self.path@ }
    }
}

/// The views of a sequence of tree entries.
pub open spec fn tree_views(tree: Seq<TreeEntry>) -> Seq<TreeEntryView> {
    tree.map_values(|entry: TreeEntry| entry@)
}

/// The tree entry that a listing element denotes: a file when its member
/// `type` is the string "blob", with the path that its member `path` holds
/// when that is a string.
pub open spec fn tree_record(doc: Json) -> TreeEntryView {
    TreeEntryView {
        kind: if doc.member("type"@).as_text() == Some("blob"@) {
            EntryKind::File
        } else {
            EntryKind::Other
        },
        path: match doc.member("path"@).as_text() {
            Some(path) => path,
            None => Seq::empty(),
        },
    }
}

/// The tree entries that a listing denotes, in order.
pub open spec fn tree_records(docs: Seq<Json>) -> Seq<TreeEntryView> {
    docs.map_values(|doc: Json| tree_record(doc))
}

/// Decodes one element of a tree listing.
pub fn parse_tree_entry(json: &Value) -> (entry: TreeEntry)
    ensures
        entry@ == tree_record(json_of(*json)),
{
    let kind = match as_str(member(json, "type")) {
        Some(label) => if same_text(label, "blob") {
            EntryKind::File
        } else {
            EntryKind::Other
        },
        None => EntryKind::Other,
    };
    let path = match as_str(member(json, "path")) {
        Some(path) => path.to_owned(),
        None => String::new(),
    };
    TreeEntry { kind, path }
}

/// Decodes a tree listing.
pub fn parse_tree(json_array: &Vec<Value>) -> (tree: Vec<TreeEntry>)
    ensures
        tree_views(tree@) == tree_records(jsons_of(json_array@)),
{
    let mut tree: Vec<TreeEntry> = Vec::new();
    let mut i: usize = 0;
    while i < json_array.len()
        invariant
            i <= json_array.len(),
            tree_views(tree@) == tree_records(jsons_of(json_array@)).take(i as int),
        decreases json_array.len() - i,
    {
        let ghost records = tree_records(jsons_of(json_array@));
        let entry = parse_tree_entry(&json_array[i]);
        tree.push(entry);
        proof {
            assert(records.take(i + 1) =~= records.take(i as int).push(records[i as int]));
        }
        i += 1;
    }
    tree
}

} // verus!
