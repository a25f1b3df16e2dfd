//! Edit histograms: how often each file was touched, and the ranking that
//! gives the three files touched most.

use crate::models::repo::{descending, file_counts};
use crate::text::same_text;
use vstd::prelude::*;

verus! {

/// The names of a histogram's entries, in order.
pub open spec fn names(hist: Seq<(Seq<char>, nat)>) -> Seq<Seq<char>> {
    hist.map_values(|entry: (Seq<char>, nat)| entry.0)
}

/// Whether a histogram has an entry for `name`.
pub open spec fn has_name(hist: Seq<(Seq<char>, nat)>, name: Seq<char>) -> bool {
    exists|i: int| 0 <= i < hist.len() && (#[trigger] hist[i]).0 == name
}

/// Where the entry for `name` stands.
pub open spec fn place(hist: Seq<(Seq<char>, nat)>, name: Seq<char>) -> int {
    choose|i: int| 0 <= i < hist.len() && (#[trigger] hist[i]).0 == name
}

/// How often `name` was counted: the count of its entry, and 0 without one.
pub open spec fn count_in(hist: Seq<(Seq<char>, nat)>, name: Seq<char>) -> nat {
    if has_name(hist, name) {
        hist[place(hist, name)].1
    } else {
        0
    }
}

/// The invariant of a histogram: no name has two entries, and every entry
/// counts at least one edit.
pub open spec fn tidy(hist: Seq<(Seq<char>, nat)>) -> bool {
    &&& forall|i: int, j: int|
        0 <= i < hist.len() && 0 <= j < hist.len() && i != j ==> (#[trigger] hist[i]).0 != (
        #[trigger] hist[j]).0
    &&& forall|i: int| 0 <= i < hist.len() ==> (#[trigger] hist[i]).1 >= 1
}

/// Whether `edits` more edits of any one file, met before or not, leave its
/// count within 32 bits.
pub open spec fn room(hist: Seq<(Seq<char>, nat)>, edits: nat) -> bool {
    &&& edits <= u32::MAX
    &&& forall|k: int| 0 <= k < hist.len() ==> (#[trigger] hist[k]).1 + edits <= u32::MAX
}

/// A histogram after one more edit of `name`: the count of its entry rises
/// by one; a name without an entry gets one at the end, with count 1.
pub open spec fn bumped(hist: Seq<(Seq<char>, nat)>, name: Seq<char>) -> Seq<(Seq<char>, nat)> {
    if has_name(hist, name) {
        hist.update(place(hist, name), (name, hist[place(hist, name)].1 + 1))
    } else {
        hist.push((name, 1))
    }
}

/// A histogram after the edits of `edits`, taken in order.
pub open spec fn tallied(hist: Seq<(Seq<char>, nat)>, edits: Seq<Seq<char>>) -> Seq<
    (Seq<char>, nat),
>
    decreases edits.len(),
{
    if edits.len() == 0 {
        hist
    } else {
        bumped(tallied(hist, edits.drop_last()), edits.last())
    }
}

/// How often `name` occurs among `edits`.
pub open spec fn occurrences(edits: Seq<Seq<char>>, name: Seq<char>) -> nat
    decreases edits.len(),
{
    if edits.len() == 0 {
        0
    } else {
        occurrences(edits.drop_last(), name) + if edits.last() == name {
            1nat
        } else {
            0nat
        }
    }
}

/// One edit keeps a histogram tidy, raises the count of the edited name by
/// one and changes no other count.
pub proof fn lemma_bumped(hist: Seq<(Seq<char>, nat)>, name: Seq<char>)
    requires
        tidy(hist),
    ensures
        tidy(bumped(hist, name)),
        forall|other: Seq<char>|
            #[trigger] count_in(bumped(hist, name), other) == count_in(hist, other) + if other
                == name {
                1nat
            } else {
                0nat
            },
{
    let after = bumped(hist, name);
    assert forall|other: Seq<char>|
        #[trigger] count_in(after, other) == count_in(hist, other) + if other == name {
            1nat
        } else {
            0nat
        } by {
        if has_name(hist, other) {
            let there = place(hist, other);
            assert(after[there].0 == other);
        } else if other == name {
            assert(after[hist.len() as int].0 == name);
        }
    }
}

/// A run of edits keeps a histogram tidy and raises each count by the number
/// of times its name was edited: no count ever falls.
pub proof fn lemma_tallied(hist: Seq<(Seq<char>, nat)>, edits: Seq<Seq<char>>)
    requires
        tidy(hist),
    ensures
        tidy(tallied(hist, edits)),
        forall|name: Seq<char>|
            #[trigger] count_in(tallied(hist, edits), name) == count_in(hist, name) + occurrences(
                edits,
                name,
            ),
    decreases edits.len(),
{
    if edits.len() > 0 {
        lemma_tallied(hist, edits.drop_last());
        lemma_bumped(tallied(hist, edits.drop_last()), edits.last());
    }
}

/// Edits taken in two runs give what they give in one.
pub proof fn lemma_tallied_concat(
    hist: Seq<(Seq<char>, nat)>,
    first: Seq<Seq<char>>,
    second: Seq<Seq<char>>,
)
    ensures
        tallied(hist, first + second) == tallied(tallied(hist, first), second),
    decreases second.len(),
{
    if second.len() > 0 {
        lemma_tallied_concat(hist, first, second.drop_last());
        assert((first + second).drop_last() =~= first + second.drop_last());
    }
}

/// Whether entry `i` comes no later than entry `j` in the ranking: it has the
/// larger count, or the same count and stands no later in the histogram.
pub open spec fn leads(hist: Seq<(Seq<char>, nat)>, i: int, j: int) -> bool {
    hist[i].1 > hist[j].1 || (hist[i].1 == hist[j].1 && i <= j)
}

/// Whether entry `i` comes first in the ranking.
pub open spec fn is_leader(hist: Seq<(Seq<char>, nat)>, i: int) -> bool {
    0 <= i < hist.len() && forall|j: int| 0 <= j < hist.len() ==> leads(hist, i, j)
}

/// The entry that comes first in the ranking: the earliest one among those
/// with the largest count.
pub open spec fn leader(hist: Seq<(Seq<char>, nat)>) -> int {
    choose|i: int| is_leader(hist, i)
}

/// The first `limit` entries of the ranking: by count, largest first, and
/// among equal counts in the order of the histogram.
pub open spec fn ranked(hist: Seq<(Seq<char>, nat)>, limit: nat) -> Seq<(Seq<char>, nat)>
    decreases limit,
{
    if limit == 0 || hist.len() == 0 {
        Seq::empty()
    } else {
        seq![hist[leader(hist)]] + ranked(hist.remove(leader(hist)), (limit - 1) as nat)
    }
}

/// The top files of a histogram: the first three of its ranking.
pub open spec fn top_files(hist: Seq<(Seq<char>, nat)>) -> Seq<(Seq<char>, nat)> {
    ranked(hist, 3)
}

/// At most one entry comes first in the ranking.
pub proof fn lemma_leader_unique(hist: Seq<(Seq<char>, nat)>, i: int, j: int)
    requires
        is_leader(hist, i),
        is_leader(hist, j),
    ensures
        i == j,
{
    assert(leads(hist, i, j));
    assert(leads(hist, j, i));
}

/// A histogram with an entry has one that comes first in the ranking.
pub proof fn lemma_leader_exists(hist: Seq<(Seq<char>, nat)>)
    requires
        hist.len() > 0,
    ensures
        is_leader(hist, leader(hist)),
    decreases hist.len(),
{
    if hist.len() == 1 {
        assert(is_leader(hist, 0));
    } else {
        let front = hist.drop_last();
        lemma_leader_exists(front);
        let best = leader(front);
        let end = hist.len() - 1;
        if hist[end].1 > hist[best].1 {
            assert forall|j: int| 0 <= j < hist.len() implies leads(hist, end, j) by {
                if j < end {
                    assert(leads(front, best, j));
                }
            }
            assert(is_leader(hist, end));
        } else {
            assert forall|j: int| 0 <= j < hist.len() implies leads(hist, best, j) by {
                if j < end {
                    assert(leads(front, best, j));
                }
            }
            assert(is_leader(hist, best));
        }
    }
}

/// The ranking holds `limit` entries, or all when there are fewer.
pub proof fn lemma_ranked_len(hist: Seq<(Seq<char>, nat)>, limit: nat)
    ensures
        ranked(hist, limit).len() == if hist.len() < limit {
            hist.len()
        } else {
            limit
        },
    decreases limit,
{
    if limit > 0 && hist.len() > 0 {
        lemma_leader_exists(hist);
        lemma_ranked_len(hist.remove(leader(hist)), (limit - 1) as nat);
    }
}

/// Every entry of the ranking is an entry of the histogram.
pub proof fn lemma_ranked_members(hist: Seq<(Seq<char>, nat)>, limit: nat)
    ensures
        forall|k: int|
            0 <= k < ranked(hist, limit).len() ==> hist.contains(#[trigger] ranked(hist, limit)[k]),
    decreases limit,
{
    if limit > 0 && hist.len() > 0 {
        lemma_leader_exists(hist);
        let at = leader(hist);
        let rest = hist.remove(at);
        lemma_ranked_members(rest, (limit - 1) as nat);
        let tail = ranked(rest, (limit - 1) as nat);
        assert forall|k: int| 0 <= k < ranked(hist, limit).len() implies hist.contains(
            #[trigger] ranked(hist, limit)[k],
        ) by {
            if k == 0 {
                assert(hist[at] == ranked(hist, limit)[0]);
            } else {
                assert(ranked(hist, limit)[k] == tail[k - 1]);
                assert(rest.contains(tail[k - 1]));
                let r = choose|r: int| 0 <= r < rest.len() && rest[r] == tail[k - 1];
                if r < at {
                    assert(hist[r] == rest[r]);
                } else {
                    assert(hist[r + 1] == rest[r]);
                }
            }
        }
    }
}

/// Counts never rise along the ranking.
pub proof fn lemma_ranked_descending(hist: Seq<(Seq<char>, nat)>, limit: nat)
    ensures
        descending(ranked(hist, limit)),
    decreases limit,
{
    if limit > 0 && hist.len() > 0 {
        lemma_leader_exists(hist);
        let at = leader(hist);
        let rest = hist.remove(at);
        let tail = ranked(rest, (limit - 1) as nat);
        lemma_ranked_descending(rest, (limit - 1) as nat);
        lemma_ranked_members(hist, limit);
        let all = ranked(hist, limit);
        assert forall|i: int, j: int| 0 <= i <= j < all.len() implies all[i].1 >= all[j].1 by {
            if i == 0 {
                assert(hist.contains(all[j]));
                let r = choose|r: int| 0 <= r < hist.len() && hist[r] == all[j];
                assert(leads(hist, at, r));
            } else {
                assert(all[i] == tail[i - 1]);
                assert(all[j] == tail[j - 1]);
            }
        }
    }
}

/// A list that is already ranked, and no longer than the limit, is its own
/// ranking.
pub proof fn lemma_ranked_fixed(files: Seq<(Seq<char>, nat)>, limit: nat)
    requires
        descending(files),
        files.len() <= limit,
    ensures
        ranked(files, limit) == files,
    decreases limit,
{
    if files.len() == 0 {
        assert(ranked(files, limit) =~= files);
    } else {
        assert(is_leader(files, 0));
        lemma_leader_exists(files);
        lemma_leader_unique(files, 0, leader(files));
        let rest = files.remove(0);
        assert(descending(rest)) by {
            assert forall|i: int, j: int| 0 <= i <= j < rest.len() implies rest[i].1
                >= rest[j].1 by {
                assert(rest[i] == files[i + 1]);
                assert(rest[j] == files[j + 1]);
            }
        }
        lemma_ranked_fixed(rest, (limit - 1) as nat);
        assert(seq![files[0]] + rest =~= files);
    }
}

/// The top files are at most three, most edited first, and deriving the top
/// files of the top files changes nothing.
pub proof fn lemma_top_files(hist: Seq<(Seq<char>, nat)>)
    ensures
        top_files(hist).len() <= 3,
        top_files(hist).len() == if hist.len() < 3 {
            hist.len()
        } else {
            3
        },
        descending(top_files(hist)),
        top_files(top_files(hist)) == top_files(hist),
        forall|k: int|
            0 <= k < top_files(hist).len() ==> hist.contains(#[trigger] top_files(hist)[k]),
{
    lemma_ranked_len(hist, 3);
    lemma_ranked_descending(hist, 3);
    lemma_ranked_fixed(top_files(hist), 3);
    lemma_ranked_members(hist, 3);
}

/// How often recent commits touched each file, in the order in which the
/// files were first met.
#[derive(Debug)]
pub struct Histogram {
    entries: Vec<(String, u32)>,
}

impl View for Histogram {
    type V = Seq<(Seq<char>, nat)>;

    closed spec fn view(&self) -> Seq<(Seq<char>, nat)> {
        file_counts(self.entries@)
    }
}

impl Histogram {
    /// A histogram without entries.
    pub fn new() -> (hist: Histogram)
        ensures
            hist@ == Seq::<(Seq<char>, nat)>::empty(),
            tidy(hist@),
    {
        Histogram { entries: Vec::new() }
    }

    /// The number of files met so far.
    pub fn len(&self) -> (n: usize)
        ensures
            n == self@.len(),
    {
        self.entries.len()
    }

    /// The entries, in the order in which the files were first met.
    pub fn entries(&self) -> (files: Vec<(String, u32)>)
        ensures
            file_counts(files@) == self@,
    {
        copy_files(&self.entries)
    }

    /// How often `name` was counted.
    pub fn count(&self, name: &str) -> (count: u32)
        requires
            tidy(self@),
        ensures
            count == count_in(self@, name@),
    {
        match find_name(&self.entries, name) {
            Some(at) => self.entries[at].1,
            None => 0,
        }
    }

    /// Whether `edits` more edits of any one file leave its count within 32
    /// bits.
    pub fn has_room(&self, edits: usize) -> (fits: bool)
        ensures
            fits == self.room_for(edits as nat),
    {
        if edits > u32::MAX as usize {
            return false;
        }
        let mut i: usize = 0;
        while i < self.entries.len()
            invariant
                i <= self.entries.len(),
                edits <= u32::MAX,
                forall|k: int| 0 <= k < i ==> (#[trigger] self@[k]).1 + edits <= u32::MAX,
            decreases self.entries.len() - i,
        {
            let count: u32 = self.entries[i].1;
            assert(self@[i as int].1 == count);
            if edits > (u32::MAX - count) as usize {
                return false;
            }
            i += 1;
        }
        true
    }

    /// Whether `edits` more edits of any one file, met before or not, leave
    /// its count within 32 bits.
    pub open spec fn room_for(&self, edits: nat) -> bool {
        room(self@, edits)
    }

    /// Counts one more edit of `name`.
    pub fn bump(&mut self, name: &str)
        requires
            tidy(old(self)@),
            old(self).room_for(1),
        ensures
            final(self)@ == bumped(old(self)@, name@),
            tidy(final(self)@),
            forall|edits: nat| old(self).room_for(edits + 1) ==> final(self).room_for(edits),
    {
        let ghost before = self@;
        proof {
            lemma_bumped(before, name@);
        }
        match find_name(&self.entries, name) {
            Some(at) => {
                let count: u32 = self.entries[at].1;
                assert(before[at as int].1 == count);
                let owned = self.entries[at].0.clone();
                self.entries.set(at, (owned, count + 1));
                assert(self@ =~= bumped(before, name@));
            },
            None => {
                self.entries.push((name.to_owned(), 1));
                assert(self@ =~= bumped(before, name@));
            },
        }
        assert forall|edits: nat| old(self).room_for(edits + 1) implies self.room_for(edits) by {
            assert forall|k: int| 0 <= k < self@.len() implies (#[trigger] self@[k]).1 + edits
                <= u32::MAX by {
                if k < before.len() {
                    assert(before[k].1 + edits + 1 <= u32::MAX);
                }
            }
        }
    }

    /// The three most edited files, most edited first; files with equal
    /// counts stand in the order in which they were first met.
    pub fn top_three(&self) -> (top: Vec<(String, u32)>)
        ensures
            file_counts(top@) == top_files(self@),
    {
        let mut rest = copy_files(&self.entries);
        let mut top: Vec<(String, u32)> = Vec::new();
        let mut round: usize = 0;
        assert(file_counts(top@) + ranked(file_counts(rest@), 3) =~= top_files(self@));
        while round < 3 && rest.len() > 0
            invariant
                round <= 3,
                file_counts(top@) + ranked(file_counts(rest@), (3 - round) as nat) == top_files(
                    self@,
                ),
            decreases 3 - round,
        {
            let ghost hist = file_counts(rest@);
            let ghost shown = file_counts(top@);
            let at = leading_index(&rest);
            proof {
                lemma_leader_exists(hist);
                lemma_leader_unique(hist, at as int, leader(hist));
            }
            let entry = rest.remove(at);
            top.push(entry);
            round += 1;
            proof {
                assert(file_counts(rest@) =~= hist.remove(at as int));
                assert(file_counts(top@) =~= shown.push(hist[at as int]));
                assert(shown.push(hist[at as int]) + ranked(
                    hist.remove(at as int),
                    (3 - round) as nat,
                ) =~= shown + (seq![hist[at as int]] + ranked(
                    hist.remove(at as int),
                    (3 - round) as nat,
                )));
            }
        }
        proof {
            assert(ranked(file_counts(rest@), (3 - round) as nat) =~= Seq::<
                (Seq<char>, nat),
            >::empty());
            assert(file_counts(top@) + Seq::<(Seq<char>, nat)>::empty() =~= file_counts(top@));
        }
        top
    }
}

/// Copies a list of files with their counts.
fn copy_files(files: &Vec<(String, u32)>) -> (copy: Vec<(String, u32)>)
    ensures
        copy@ == files@,
{
    let mut copy: Vec<(String, u32)> = Vec::new();
    let mut i: usize = 0;
    while i < files.len()
        invariant
            i <= files.len(),
            copy@ == files@.take(i as int),
        decreases files.len() - i,
    {
        let name = files[i].0.clone();
        let count: u32 = files[i].1;
        copy.push((name, count));
        i += 1;
    }
    copy
}

/// Finds the entry for `name`.
fn find_name(files: &Vec<(String, u32)>, name: &str) -> (found: Option<usize>)
    requires
        tidy(file_counts(files@)),
    ensures
        match found {
            Some(at) => has_name(file_counts(files@), name@) && at == place(
                file_counts(files@),
                name@,
            ),
            None => !has_name(file_counts(files@), name@),
        },
{
    let ghost hist = file_counts(files@);
    let mut i: usize = 0;
    while i < files.len()
        invariant
            i <= files.len(),
            hist == file_counts(files@),
            tidy(hist),
            forall|k: int| 0 <= k < i ==> (#[trigger] hist[k]).0 != name@,
        decreases files.len() - i,
    {
        if same_text(files[i].0.as_str(), name) {
            assert(hist[i as int].0 == name@);
            assert(place(hist, name@) == i);
            return Some(i);
        }
        i += 1;
    }
    None
}

/// Finds the entry that comes first in the ranking.
fn leading_index(files: &Vec<(String, u32)>) -> (at: usize)
    requires
        files@.len() > 0,
    ensures
        is_leader(file_counts(files@), at as int),
{
    let ghost hist = file_counts(files@);
    let mut best: usize = 0;
    let mut i: usize = 1;
    while i < files.len()
        invariant
            1 <= i <= files.len(),
            best < i,
            hist == file_counts(files@),
            forall|j: int| 0 <= j < i ==> leads(hist, best as int, j),
        decreases files.len() - i,
    {
        if files[i].1 > files[best].1 {
            assert forall|j: int| 0 <= j < i + 1 implies leads(hist, i as int, j) by {
                if j < i {
                    assert(leads(hist, best as int, j));
                }
            }
            best = i;
        }
        i += 1;
    }
    best
}

} // verus!
