//! Fork activity: the recent commits over a repository's forks.
//!
//! A scan starts from the fork listing and then takes, fork by fork, the
//! outcome of asking for that fork's latest commits. The caller makes the
//! requests; the scan decides what each outcome adds and what to report.

use crate::api::{FetchError, FetchErrorView};
use crate::json::{jsons_of, Json};
use crate::models::fork::{fork_records, fork_views, parse_forks, Fork, ForkView};
use crate::models::repo::{Repo, RepoView};
use serde_json::Value;
use vstd::prelude::*;

verus! {

/// How many commits are asked for per fork.
pub const FORK_COMMITS: u32 = 10;

/// A scan over the forks of one repository.
#[derive(Debug)]
pub struct ForkScan {
    forks: Vec<Fork>,
    next: usize,
    total: u64,
}

/// The mathematical content of a [`ForkScan`].
pub struct ForkScanView {
    /// The forks of the listing, in order.
    pub forks: Seq<ForkView>,
    /// How many forks have had their outcome recorded.
    pub next: nat,
    /// The commits counted so far.
    pub total: nat,
}

/// What the outcome of asking for a fork's commits adds to the total: the
/// number of commits listed, and nothing when the request failed.
pub open spec fn contribution(outcome: Result<Seq<Json>, FetchErrorView>) -> nat {
    match outcome {
        Ok(commits) => commits.len(),
        Err(_) => 0,
    }
}

/// The failure that an outcome asks to report: any error but "not found",
/// which a deleted or private fork gives and which is passed over silently.
pub open spec fn reportable(outcome: Result<Seq<Json>, FetchErrorView>) -> Option<
    FetchErrorView,
> {
    match outcome {
        Ok(_) => None,
        Err(error) => if error.is_not_found() {
            None
        } else {
            Some(error)
        },
    }
}

/// What all of `outcomes` add to the total.
pub open spec fn contributions(outcomes: Seq<Result<Seq<Json>, FetchErrorView>>) -> nat
    decreases outcomes.len(),
{
    if outcomes.len() == 0 {
        0
    } else {
        contributions(outcomes.drop_last()) + contribution(outcomes.last())
    }
}

/// The mathematical content of an outcome.
pub open spec fn outcome_view(outcome: Result<Vec<Value>, FetchError>) -> Result<
    Seq<Json>,
    FetchErrorView,
> {
    match outcome {
        Ok(commits) => Ok(jsons_of(commits@)),
        Err(error) => Err(error@),
    }
}

impl ForkScanView {
    /// The invariant of a scan: it has recorded no more outcomes than there
    /// are forks.
    pub open spec fn wf(self) -> bool {
        self.next <= self.forks.len()
    }

    /// The scan of a listing before any outcome.
    pub open spec fn start(listing: Seq<Json>) -> ForkScanView {
        ForkScanView { forks: fork_records(listing), next: 0, total: 0 }
    }

    /// Whether a fork still waits for its outcome.
    pub open spec fn is_pending(self) -> bool {
        self.next < self.forks.len()
    }

    /// The scan after the outcome for the pending fork.
    pub open spec fn after(self, outcome: Result<Seq<Json>, FetchErrorView>) -> ForkScanView {
        ForkScanView {
            forks: self.forks,
            next: self.next + 1,
            total: self.total + contribution(outcome),
        }
    }

    /// The scan after a run of outcomes, one per fork in order.
    pub open spec fn after_all(
        self,
        outcomes: Seq<Result<Seq<Json>, FetchErrorView>>,
    ) -> ForkScanView
        decreases outcomes.len(),
    {
        if outcomes.len() == 0 {
            self
        } else {
            self.after_all(outcomes.drop_last()).after(outcomes.last())
        }
    }
}

impl View for ForkScan {
    type V = ForkScanView;

    closed spec fn view(&self) -> ForkScanView {
        ForkScanView {
            forks: fork_views(self.forks@),
            next: self.next as nat,
            total: self.total as nat,
        }
    }
}

impl ForkScan {
    /// Starts a scan from the outcome of the fork listing. A failed listing
    /// starts none: its error comes back for the caller to report.
    pub fn begin(listing: Result<Vec<Value>, FetchError>) -> (started: Result<
        ForkScan,
        FetchError,
    >)
        ensures
            match started {
                Ok(scan) => listing is Ok && scan@ == ForkScanView::start(
                    jsons_of(listing->Ok_0@),
                ) && scan@.wf(),
                Err(error) => listing == Err::<Vec<Value>, FetchError>(error),
            },
    {
        match listing {
            Ok(entries) => Ok(ForkScan { forks: parse_forks(entries), next: 0, total: 0 }),
            Err(error) => Err(error),
        }
    }

    /// The fork whose commits are to be asked for next, if any is left.
    pub fn pending(&self) -> (fork: Option<&Fork>)
        ensures
            match fork {
                Some(fork) => self@.is_pending() && fork@ == self@.forks[self@.next as int],
                None => !self@.is_pending(),
            },
    {
        if self.next < self.forks.len() {
            Some(&self.forks[self.next])
        } else {
            None
        }
    }

    /// The commits counted so far.
    pub fn total(&self) -> (total: u64)
        ensures
            total == self@.total,
    {
        self.total
    }

    /// Whether the total stays within 64 bits when `outcome` is recorded.
    pub open spec fn room_for(&self, outcome: Result<Seq<Json>, FetchErrorView>) -> bool {
        self@.total + contribution(outcome) <= u64::MAX
    }

    /// Whether the total stays within 64 bits when `outcome` is recorded.
    pub fn has_room(&self, outcome: &Result<Vec<Value>, FetchError>) -> (fits: bool)
        ensures
            fits == self.room_for(outcome_view(*outcome)),
    {
        match outcome {
            Ok(commits) => commits.len() as u64 <= u64::MAX - self.total,
            Err(_) => true,
        }
    }

    /// Records the outcome for the pending fork and moves on to the next.
    /// Listed commits are added to the total; a failure adds nothing and
    /// leaves what was counted before as it is. The result is the failure to
    /// report, if there is one: any error but "not found".
    pub fn record(&mut self, outcome: Result<Vec<Value>, FetchError>) -> (report: Option<
        FetchError,
    >)
        requires
            old(self)@.is_pending(),
            old(self).room_for(outcome_view(outcome)),
        ensures
            final(self)@ == old(self)@.after(outcome_view(outcome)),
            final(self)@.wf(),
            match report {
                Some(error) => reportable(outcome_view(outcome)) == Some(error@),
                None => reportable(outcome_view(outcome)) is None,
            },
    {
        assert(self.next < self.forks.len());
        self.next = self.next + 1;
        match outcome {
            Ok(commits) => {
                self.total = self.total + commits.len() as u64;
                None
            },
            Err(error) => {
                if error.is_not_found() {
                    None
                } else {
                    Some(error)
                }
            },
        }
    }

    /// Records the outcome as [`ForkScan::record`] does, where a fork is
    /// pending and the total stays within 64 bits. Where not, the scan stays
    /// as it is and the outcome comes back.
    pub fn try_record(&mut self, outcome: Result<Vec<Value>, FetchError>) -> (recorded: Result<
        Option<FetchError>,
        Result<Vec<Value>, FetchError>,
    >)
        ensures
            match recorded {
                Ok(report) => {
                    &&& old(self)@.is_pending()
                    &&& old(self).room_for(outcome_view(outcome))
                    &&& final(self)@ == old(self)@.after(outcome_view(outcome))
                    &&& match report {
                        Some(error) => reportable(outcome_view(outcome)) == Some(error@),
                        None => reportable(outcome_view(outcome)) is None,
                    }
                },
                Err(back) => {
                    &&& !(old(self)@.is_pending() && old(self).room_for(outcome_view(outcome)))
                    &&& final(self)@ == old(self)@
                    &&& back == outcome
                },
            },
    {
        if self.next < self.forks.len() && self.has_room(&outcome) {
            Ok(self.record(outcome))
        } else {
            Err(outcome)
        }
    }

    /// Ends the scan: the repository's fork commit count becomes the total,
    /// and nothing else of the repository changes.
    pub fn finish(self, repo: &mut Repo)
        ensures
            final(repo)@ == (RepoView { fork_commit_count: self@.total, ..old(repo)@ }),
    {
        repo.fork_commit_count = self.total;
    }
}

/// A run of outcomes adds what each of them contributes, and nothing else.
pub proof fn lemma_fork_scan_total(
    scan: ForkScanView,
    outcomes: Seq<Result<Seq<Json>, FetchErrorView>>,
)
    ensures
        scan.after_all(outcomes).total == scan.total + contributions(outcomes),
        scan.after_all(outcomes).next == scan.next + outcomes.len(),
        scan.after_all(outcomes).forks == scan.forks,
    decreases outcomes.len(),
{
    if outcomes.len() > 0 {
        lemma_fork_scan_total(scan, outcomes.drop_last());
    }
}

/// What a run of outcomes contributes is what its leading part contributes
/// plus what the rest does.
pub proof fn lemma_contributions_concat(
    front: Seq<Result<Seq<Json>, FetchErrorView>>,
    back: Seq<Result<Seq<Json>, FetchErrorView>>,
)
    ensures
        contributions(front + back) == contributions(front) + contributions(back),
    decreases back.len(),
{
    if back.len() > 0 {
        lemma_contributions_concat(front, back.drop_last());
        assert((front + back).drop_last() =~= front + back.drop_last());
    }
}

/// One fork's failure changes nothing of what the other forks contribute:
/// the total is that of the outcomes before it plus that of those after it.
pub proof fn lemma_failure_is_isolated(
    before: Seq<Result<Seq<Json>, FetchErrorView>>,
    failure: FetchErrorView,
    after: Seq<Result<Seq<Json>, FetchErrorView>>,
)
    ensures
        contributions(before + seq![Err(failure)] + after) == contributions(before)
            + contributions(after),
{
    let failed: Seq<Result<Seq<Json>, FetchErrorView>> = seq![Err(failure)];
    lemma_contributions_concat(before + failed, after);
    lemma_contributions_concat(before, failed);
    assert(contributions(failed) == 0) by {
        assert(contributions(failed.drop_last()) == 0);
    }
}

} // verus!
