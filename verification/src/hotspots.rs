//! Hotspot files: the files that the recent commits of a repository touched
//! most.
//!
//! A scan starts from the commit listing and then takes, commit by commit,
//! the outcome of asking for that commit's detail. The caller makes the
//! requests; the scan counts the touched files and says what to report.

use crate::api::{FetchError, FetchErrorView};
use crate::histogram::{
    lemma_tallied_concat, lemma_top_files, room, tallied, tidy, top_files, Histogram,
};
use crate::json::{as_array, as_str, json_of, jsons_of, member, Json};
use crate::models::repo::{file_counts, Repo, RepoView};
use crate::text::text_views;
use serde_json::Value;
use vstd::prelude::*;

verus! {

/// How many commits a hotspot scan asks for.
pub const HOTSPOT_COMMITS: u32 = 50;

/// The identifier of a listed commit: its member `sha`, when that is a
/// string.
pub open spec fn commit_sha(doc: Json) -> Option<Seq<char>> {
    doc.member("sha"@).as_text()
}

/// The identifiers of a commit listing, in order; entries without one are
/// left out.
pub open spec fn commit_shas(docs: Seq<Json>) -> Seq<Seq<char>>
    decreases docs.len(),
{
    if docs.len() == 0 {
        Seq::empty()
    } else {
        match commit_sha(docs.last()) {
            Some(sha) => commit_shas(docs.drop_last()).push(sha),
            None => commit_shas(docs.drop_last()),
        }
    }
}

/// The name of a touched file: its member `filename`, and "unknown" when
/// that is no string.
pub open spec fn touched_name(file: Json) -> Seq<char> {
    match file.member("filename"@).as_text() {
        Some(name) => name,
        None => "unknown"@,
    }
}

/// The names of the files that a commit touched: one for each element of
/// the detail's member `files`, and none when that is no array.
pub open spec fn touched_files(detail: Json) -> Seq<Seq<char>> {
    match detail.member("files"@).as_items() {
        Some(files) => files.map_values(|file: Json| touched_name(file)),
        None => Seq::empty(),
    }
}

/// The edits that the outcome of asking for a commit's detail brings: the
/// files that the commit touched, and none when the request failed.
pub open spec fn edits_of(outcome: Result<Json, FetchErrorView>) -> Seq<Seq<char>> {
    match outcome {
        Ok(detail) => touched_files(detail),
        Err(_) => Seq::empty(),
    }
}

/// The edits that a run of outcomes brings, in order.
pub open spec fn all_edits(outcomes: Seq<Result<Json, FetchErrorView>>) -> Seq<Seq<char>>
    decreases outcomes.len(),
{
    if outcomes.len() == 0 {
        Seq::empty()
    } else {
        all_edits(outcomes.drop_last()) + edits_of(outcomes.last())
    }
}

/// The mathematical content of the outcome of asking for a commit's detail.
pub open spec fn detail_view(outcome: Result<Value, FetchError>) -> Result<Json, FetchErrorView> {
    match outcome {
        Ok(detail) => Ok(json_of(detail)),
        Err(error) => Err(error@),
    }
}

/// A scan over the recent commits of one repository.
#[derive(Debug)]
pub struct HotspotScan {
    shas: Vec<String>,
    next: usize,
    histogram: Histogram,
}

/// The mathematical content of a [`HotspotScan`].
pub struct HotspotScanView {
    /// The identifiers of the listed commits, in order.
    pub shas: Seq<Seq<char>>,
    /// How many commits have had their outcome recorded.
    pub next: nat,
    /// The edits counted so far.
    pub histogram: Seq<(Seq<char>, nat)>,
}

impl HotspotScanView {
    /// The invariant of a scan: its histogram is tidy.
    pub open spec fn wf(self) -> bool {
        tidy(self.histogram)
    }

    /// The scan of a listing before any outcome.
    pub open spec fn start(listing: Seq<Json>) -> HotspotScanView {
        HotspotScanView { shas: commit_shas(listing), next: 0, histogram: Seq::empty() }
    }

    /// Whether a commit still waits for its outcome.
    pub open spec fn is_pending(self) -> bool {
        self.next < self.shas.len()
    }

    /// The scan after the outcome for the pending commit: the files of a
    /// detail are counted, a failure counts nothing.
    pub open spec fn after(self, outcome: Result<Json, FetchErrorView>) -> HotspotScanView {
        HotspotScanView {
            shas: self.shas,
            next: self.next + 1,
            histogram: tallied(self.histogram, edits_of(outcome)),
        }
    }

    /// The scan after a run of outcomes, one per commit in order.
    pub open spec fn after_all(self, outcomes: Seq<Result<Json, FetchErrorView>>) -> HotspotScanView
        decreases outcomes.len(),
    {
        if outcomes.len() == 0 {
            self
        } else {
            self.after_all(outcomes.drop_last()).after(outcomes.last())
        }
    }
}

impl View for HotspotScan {
    type V = HotspotScanView;

    closed spec fn view(&self) -> HotspotScanView {
        HotspotScanView {
            shas: text_views(self.shas@),
            next: self.next as nat,
            histogram: self.histogram@,
        }
    }
}

/// The identifiers of a commit listing.
fn listed_shas(listing: &Vec<Value>) -> (shas: Vec<String>)
    ensures
        text_views(shas@) == commit_shas(jsons_of(listing@)),
{
    let ghost docs = jsons_of(listing@);
    let mut shas: Vec<String> = Vec::new();
    let mut i: usize = 0;
    while i < listing.len()
        invariant
            i <= listing.len(),
            docs == jsons_of(listing@),
            text_views(shas@) == commit_shas(docs.take(i as int)),
        decreases listing.len() - i,
    {
        proof {
            assert(docs.take(i + 1).drop_last() =~= docs.take(i as int));
        }
        match as_str(member(&listing[i], "sha")) {
            Some(sha) => {
                shas.push(sha.to_owned());
            },
            None => {},
        }
        i += 1;
    }
    proof {
        assert(docs.take(i as int) =~= docs);
    }
    shas
}

impl HotspotScan {
    /// Starts a scan from the outcome of the commit listing. A failed
    /// listing starts none: its error comes back for the caller to report.
    pub fn begin(listing: Result<Vec<Value>, FetchError>) -> (started: Result<
        HotspotScan,
        FetchError,
    >)
        ensures
            match started {
                Ok(scan) => listing is Ok && scan@ == HotspotScanView::start(
                    jsons_of(listing->Ok_0@),
                ) && scan@.wf(),
                Err(error) => listing == Err::<Vec<Value>, FetchError>(error),
            },
    {
        match listing {
            Ok(entries) => Ok(
                HotspotScan { shas: listed_shas(&entries), next: 0, histogram: Histogram::new() },
            ),
            Err(error) => Err(error),
        }
    }

    /// The identifier of the commit whose detail is to be asked for next, if
    /// any is left.
    pub fn pending(&self) -> (sha: Option<&str>)
        ensures
            match sha {
                Some(sha) => self@.is_pending() && sha@ == self@.shas[self@.next as int],
                None => !self@.is_pending(),
            },
    {
        if self.next < self.shas.len() {
            Some(self.shas[self.next].as_str())
        } else {
            None
        }
    }

    /// The edits counted so far, file by file in the order in which the
    /// files were first met.
    pub fn counted(&self) -> (files: Vec<(String, u32)>)
        ensures
            file_counts(files@) == self@.histogram,
    {
        self.histogram.entries()
    }

    /// Whether every count stays within 32 bits when `outcome` is recorded.
    pub open spec fn room_for(&self, outcome: Result<Json, FetchErrorView>) -> bool {
        room(self@.histogram, edits_of(outcome).len())
    }

    /// Whether every count stays within 32 bits when `outcome` is recorded.
    pub fn has_room(&self, outcome: &Result<Value, FetchError>) -> (fits: bool)
        ensures
            fits == self.room_for(detail_view(*outcome)),
    {
        match outcome {
            Ok(detail) => match as_array(member(detail, "files")) {
                Some(files) => {
                    self.histogram.has_room(files.len())
                },
                None => self.histogram.has_room(0),
            },
            Err(_) => self.histogram.has_room(0),
        }
    }

    /// Records the outcome for the pending commit and moves on to the next.
    /// Every file that a detail names is counted once more; a failure counts
    /// nothing and leaves the histogram as it is. The result is the failure,
    /// for the caller to report.
    pub fn record(&mut self, outcome: Result<Value, FetchError>) -> (report: Option<FetchError>)
        requires
            old(self)@.wf(),
            old(self)@.is_pending(),
            old(self).room_for(detail_view(outcome)),
        ensures
            final(self)@ == old(self)@.after(detail_view(outcome)),
            final(self)@.wf(),
            match report {
                Some(error) => outcome == Err::<Value, FetchError>(error),
                None => outcome is Ok,
            },
    {
        assert(self.next < self.shas.len());
        self.next = self.next + 1;
        match outcome {
            Ok(detail) => {
                match as_array(member(&detail, "files")) {
                    Some(files) => {
                        let ghost before = self.histogram@;
                        let ghost edits = touched_files(json_of(detail));
                        let mut i: usize = 0;
                        while i < files.len()
                            invariant
                                i <= files.len(),
                                edits == jsons_of(files@).map_values(
                                    |file: Json| touched_name(file),
                                ),
                                self.histogram@ == tallied(before, edits.take(i as int)),
                                tidy(self.histogram@),
                                self.histogram.room_for((files.len() - i) as nat),
                                self.shas == old(self).shas,
                                self.next == old(self).next + 1,
                            decreases files.len() - i,
                        {
                            proof {
                                assert(edits.take(i + 1).drop_last() =~= edits.take(i as int));
                            }
                            match as_str(member(&files[i], "filename")) {
                                Some(name) => self.histogram.bump(name),
                                None => self.histogram.bump("unknown"),
                            }
                            i += 1;
                        }
                        proof {
                            assert(edits.take(i as int) =~= edits);
                        }
                    },
                    None => {},
                }
                None
            },
            Err(error) => Some(error),
        }
    }

    /// Records the outcome as [`HotspotScan::record`] does, where a commit
    /// is pending and every count stays within 32 bits. Where not, the scan
    /// stays as it is and the outcome comes back.
    pub fn try_record(&mut self, outcome: Result<Value, FetchError>) -> (recorded: Result<
        Option<FetchError>,
        Result<Value, FetchError>,
    >)
        requires
            old(self)@.wf(),
        ensures
            final(self)@.wf(),
            match recorded {
                Ok(report) => {
                    &&& old(self)@.is_pending()
                    &&& old(self).room_for(detail_view(outcome))
                    &&& final(self)@ == old(self)@.after(detail_view(outcome))
                    &&& match report {
                        Some(error) => outcome == Err::<Value, FetchError>(error),
                        None => outcome is Ok,
                    }
                },
                Err(back) => {
                    &&& !(old(self)@.is_pending() && old(self).room_for(detail_view(outcome)))
                    &&& final(self)@ == old(self)@
                    &&& back == outcome
                },
            },
    {
        if self.next < self.shas.len() && self.has_room(&outcome) {
            Ok(self.record(outcome))
        } else {
            Err(outcome)
        }
    }

    /// Ends the scan: the repository's top files become the three most
    /// edited files of the histogram, and nothing else of the repository
    /// changes.
    pub fn finish(self, repo: &mut Repo)
        ensures
            final(repo)@ == (RepoView {
                top_modified_files: top_files(self@.histogram),
                ..old(repo)@
            }),
            final(repo)@.wf(),
    {
        proof {
            lemma_top_files(self@.histogram);
        }
        repo.top_modified_files = self.histogram.top_three();
    }
}

/// A run of outcomes counts the edits that each of them brings, in order,
/// and nothing else.
pub proof fn lemma_hotspot_scan_counts(
    scan: HotspotScanView,
    outcomes: Seq<Result<Json, FetchErrorView>>,
)
    ensures
        scan.after_all(outcomes).histogram == tallied(scan.histogram, all_edits(outcomes)),
        scan.after_all(outcomes).next == scan.next + outcomes.len(),
        scan.after_all(outcomes).shas == scan.shas,
    decreases outcomes.len(),
{
    if outcomes.len() > 0 {
        lemma_hotspot_scan_counts(scan, outcomes.drop_last());
        lemma_tallied_concat(
            scan.histogram,
            all_edits(outcomes.drop_last()),
            edits_of(outcomes.last()),
        );
    }
}

/// The edits of a run of outcomes are those of its leading part followed by
/// those of the rest.
pub proof fn lemma_all_edits_concat(
    front: Seq<Result<Json, FetchErrorView>>,
    back: Seq<Result<Json, FetchErrorView>>,
)
    ensures
        all_edits(front + back) == all_edits(front) + all_edits(back),
    decreases back.len(),
{
    if back.len() > 0 {
        lemma_all_edits_concat(front, back.drop_last());
        assert((front + back).drop_last() =~= front + back.drop_last());
    }
}

/// A commit whose detail could not be had changes nothing of what the other
/// commits count.
pub proof fn lemma_failed_detail_is_skipped(
    before: Seq<Result<Json, FetchErrorView>>,
    failure: FetchErrorView,
    after: Seq<Result<Json, FetchErrorView>>,
)
    ensures
        all_edits(before + seq![Err(failure)] + after) == all_edits(before) + all_edits(after),
{
    let failed: Seq<Result<Json, FetchErrorView>> = seq![Err(failure)];
    lemma_all_edits_concat(before + failed, after);
    lemma_all_edits_concat(before, failed);
    assert(all_edits(failed) =~= Seq::<Seq<char>>::empty()) by {
        assert(all_edits(failed.drop_last()) =~= Seq::<Seq<char>>::empty());
    }
}

} // verus!
