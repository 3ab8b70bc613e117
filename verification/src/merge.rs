//! Merging the files of an asset directory into the installed patterns.
//!
//! A pattern is known by the stem of its file name, so a file is installed
//! only where the destination holds no file of the same stem, whatever the
//! extension. The merge itself copies nothing: it names one file at a time,
//! and is told whether the copy succeeded.
use vstd::prelude::*;
use crate::text::{file_stem, stem_of};

verus! {

/// The names that a sequence of strings holds.
pub open spec fn names_of(v: Seq<String>) -> Seq<Seq<char>> {
    Seq::new(v.len(), |i: int| v[i]@)
}

/// Whether one of `names` has the stem `stem`.
pub open spec fn stem_taken(names: Seq<Seq<char>>, stem: Seq<char>) -> bool {
    exists|i: int| 0 <= i < names.len() && #[trigger] stem_of(names[i]) == stem
}

/// The state of a merge, as the contracts see it.
pub struct MergeView {
    /// The file names of the source directory, in the order they are handled.
    pub candidates: Seq<Seq<char>>,
    /// The names that the destination held before the merge.
    pub present: Seq<Seq<char>>,
    /// The candidates copied so far.
    pub installed: Seq<Seq<char>>,
    /// The candidates passed over because their stem was taken.
    pub skipped: Seq<Seq<char>>,
    /// The candidates whose copy failed.
    pub failed: Seq<Seq<char>>,
    /// How many candidates have been decided.
    pub cursor: nat,
    /// Whether the copy of the candidate at `cursor` was asked for and its
    /// result is still owed.
    pub awaiting: bool,
}

impl MergeView {
    /// The merge of `candidates` into a destination that holds `present`,
    /// before anything is decided.
    pub open spec fn start(candidates: Seq<Seq<char>>, present: Seq<Seq<char>>) -> MergeView {
        MergeView {
            candidates,
            present,
            installed: Seq::empty(),
            skipped: Seq::empty(),
            failed: Seq::empty(),
            cursor: 0,
            awaiting: false,
        }
    }

    /// Whether candidates are left to decide.
    pub open spec fn unfinished(self) -> bool {
        self.cursor < self.candidates.len()
    }

    /// The candidate to decide next.
    pub open spec fn current(self) -> Seq<char>
        recommends
            self.unfinished(),
    {
        self.candidates[self.cursor as int]
    }

    /// Whether the destination, as it is now, holds a file with the stem of
    /// the current candidate.
    pub open spec fn collides(self) -> bool
        recommends
            self.unfinished(),
    {
        let stem = stem_of(self.current());
        stem_taken(self.present, stem) || stem_taken(self.installed, stem)
    }

    /// Whether the result of a copy is owed.
    pub open spec fn pending(self) -> bool {
        self.awaiting && self.unfinished()
    }

    /// The state after the current candidate is passed over.
    pub open spec fn skip(self) -> MergeView
        recommends
            self.unfinished(),
    {
        MergeView {
            skipped: self.skipped.push(self.current()),
            cursor: self.cursor + 1,
            awaiting: false,
            ..self
        }
    }

    /// The state after the copy of the current candidate is asked for.
    pub open spec fn ask(self) -> MergeView {
        MergeView { awaiting: true, ..self }
    }

    /// The state after the owed copy succeeded (`copied`) or failed. Where
    /// no result is owed the state stays as it is.
    pub open spec fn settle(self, copied: bool) -> MergeView {
        if !self.pending() {
            self
        } else if copied {
            MergeView {
                installed: self.installed.push(self.current()),
                cursor: self.cursor + 1,
                awaiting: false,
                ..self
            }
        } else {
            MergeView {
                failed: self.failed.push(self.current()),
                cursor: self.cursor + 1,
                awaiting: false,
                ..self
            }
        }
    }

    /// The state after every candidate whose stem is taken is passed over,
    /// up to the first one that has to be copied: its copy is then asked
    /// for.
    pub open spec fn seek(self) -> MergeView
        decreases self.candidates.len() - self.cursor,
    {
        if self.awaiting || !self.unfinished() {
            self
        } else if self.collides() {
            self.skip().seek()
        } else {
            self.ask()
        }
    }

    /// The state at the end of the merge, where exactly the copies of the
    /// names in `refused` fail.
    pub open spec fn finish(self, refused: Seq<Seq<char>>) -> MergeView
        decreases self.candidates.len() - self.cursor,
    {
        if !self.unfinished() {
            self
        } else if !self.awaiting && self.collides() {
            self.skip().finish(refused)
        } else {
            self.ask().settle(!refused.contains(self.current())).finish(refused)
        }
    }
}

/// A file name together with its stem.
struct Entry {
    name: String,
    stem: String,
}

impl Entry {
    #[verifier::type_invariant]
    spec fn stem_matches(self) -> bool {
        self.stem@ == stem_of(self.name@)
    }

    fn new(name: String) -> (e: Entry)
        ensures
            e.name@ == name@,
    {
        let stem = file_stem(name.as_str());
        Entry { name, stem }
    }
}

/// The names of a sequence of entries.
spec fn entry_names(v: Seq<Entry>) -> Seq<Seq<char>> {
    Seq::new(v.len(), |i: int| v[i].name@)
}

/// Whether one of `entries` has the stem `stem`.
fn holds_stem(entries: &Vec<Entry>, stem: &String) -> (found: bool)
    ensures
        found == stem_taken(entry_names(entries@), stem@),
{
    let mut i: usize = 0;
    while i < entries.len()
        invariant
            i <= entries.len(),
            forall|j: int| 0 <= j < i ==> stem_of(#[trigger] entries@[j].name@) != stem@,
        decreases entries.len() - i,
    {
        let entry = &entries[i];
        proof {
            use_type_invariant(entry);
        }
        if entry.stem == *stem {
            assert(stem_of(entry_names(entries@)[i as int]) == stem@);
            return true;
        }
        i += 1;
    }
    assert forall|j: int| 0 <= j < entry_names(entries@).len() implies stem_of(
        #[trigger] entry_names(entries@)[j],
    ) != stem@ by {
    }
    false
}

/// A merge in progress.
pub struct Merger {
    candidates: Vec<String>,
    present: Vec<Entry>,
    installed: Vec<Entry>,
    skipped: Vec<String>,
    failed: Vec<String>,
    cursor: usize,
    awaiting: bool,
}

impl View for Merger {
    type V = MergeView;

    closed spec fn view(&self) -> MergeView {
        MergeView {
            candidates: names_of(self.candidates@),
            present: entry_names(self.present@),
            installed: entry_names(self.installed@),
            skipped: names_of(self.skipped@),
            failed: names_of(self.failed@),
            cursor: self.cursor as nat,
            awaiting: self.awaiting,
        }
    }
}

impl Merger {
    /// Begins the merge of the files `candidates` into a destination that
    /// holds the names `present`.
    pub fn new(candidates: Vec<String>, present: Vec<String>) -> (m: Merger)
        ensures
            m@ == MergeView::start(names_of(candidates@), names_of(present@)),
    {
        let mut entries: Vec<Entry> = Vec::new();
        let mut i: usize = 0;
        while i < present.len()
            invariant
                i <= present.len(),
                entries.len() == i,
                entry_names(entries@) == names_of(present@).subrange(0, i as int),
            decreases present.len() - i,
        {
            let name = present[i].clone();
            let ghost before = entries@;
            let entry = Entry::new(name);
            entries.push(entry);
            i += 1;
            assert forall|j: int| 0 <= j < i implies entry_names(entries@)[j] == names_of(
                present@,
            )[j] by {
                if j < i - 1 {
                    assert(entry_names(before)[j] == names_of(present@).subrange(0, i - 1)[j]);
                }
            }
        }
        assert(entry_names(entries@) =~= names_of(present@));
        let m = Merger {
            candidates,
            present: entries,
            installed: Vec::new(),
            skipped: Vec::new(),
            failed: Vec::new(),
            cursor: 0,
            awaiting: false,
        };
        assert(m@.installed =~= Seq::empty());
        assert(m@.failed =~= Seq::empty());
        m
    }

    /// Passes over the candidates whose stem the destination already holds
    /// and names the first one that has to be copied, or `None` where no
    /// candidate is left. The result of that copy is then owed to `record`;
    /// until it is given, the same candidate is named again.
    pub fn next_copy(&mut self) -> (name: Option<String>)
        ensures
            final(self)@ == old(self)@.seek(),
            match name {
                Some(n) => final(self)@.pending() && n@ == final(self)@.current(),
                None => !final(self)@.unfinished(),
            },
    {
        if self.awaiting {
            return if self.cursor < self.candidates.len() {
                Some(self.candidates[self.cursor].clone())
            } else {
                None
            };
        }
        while self.cursor < self.candidates.len()
            invariant
                !self.awaiting,
                self@.seek() == old(self)@.seek(),
            decreases self.candidates.len() - self.cursor,
        {
            let name = self.candidates[self.cursor].clone();
            let stem = file_stem(name.as_str());
            let ghost before = self@;
            if holds_stem(&self.present, &stem) || holds_stem(&self.installed, &stem) {
                self.skipped.push(name);
                self.cursor = self.cursor + 1;
                assert(self@.skipped =~= before.skip().skipped);
            } else {
                self.awaiting = true;
                return Some(name);
            }
        }
        None
    }

    /// Records whether the copy that `next_copy` asked for succeeded. Where
    /// no copy was asked for, nothing changes.
    pub fn record(&mut self, copied: bool)
        ensures
            final(self)@ == old(self)@.settle(copied),
    {
        if self.awaiting && self.cursor < self.candidates.len() {
            let name = self.candidates[self.cursor].clone();
            if copied {
                self.installed.push(Entry::new(name));
            } else {
                self.failed.push(name);
            }
            self.cursor = self.cursor + 1;
            self.awaiting = false;
            assert(self@.installed =~= old(self)@.settle(copied).installed);
            assert(self@.failed =~= old(self)@.settle(copied).failed);
        }
    }

    /// The candidate whose copy was asked for and whose result is owed, if
    /// there is one.
    pub fn awaited(&self) -> (name: Option<String>)
        ensures
            match name {
                Some(n) => self@.pending() && n@ == self@.current(),
                None => !self@.pending(),
            },
    {
        if self.awaiting && self.cursor < self.candidates.len() {
            Some(self.candidates[self.cursor].clone())
        } else {
            None
        }
    }

    /// Whether every candidate has been decided.
    pub fn is_finished(&self) -> (done: bool)
        ensures
            done == !self@.unfinished(),
    {
        self.cursor >= self.candidates.len()
    }

    /// The number of files copied so far.
    pub fn outcome(&self) -> (count: usize)
        ensures
            count == self@.installed.len(),
    {
        self.installed.len()
    }
}

/// Whether `names` holds `name`.
fn holds_name(names: &Vec<String>, name: &String) -> (found: bool)
    ensures
        found == names_of(names@).contains(name@),
{
    let mut i: usize = 0;
    while i < names.len()
        invariant
            i <= names.len(),
            forall|j: int| 0 <= j < i ==> names@[j]@ != name@,
        decreases names.len() - i,
    {
        if names[i] == *name {
            assert(names_of(names@)[i as int] == name@);
            return true;
        }
        i += 1;
    }
    assert forall|j: int| 0 <= j < names_of(names@).len() implies names_of(names@)[j]
        != name@ by {
    }
    false
}

/// Seeking decides candidates only by passing them over: the end of the
/// merge is the same before and after it.
pub proof fn lemma_seek_then_finish(v: MergeView, refused: Seq<Seq<char>>)
    ensures
        v.seek().finish(refused) == v.finish(refused),
        v.seek().candidates == v.candidates,
        v.seek().cursor >= v.cursor,
    decreases v.candidates.len() - v.cursor,
{
    if !v.awaiting && v.unfinished() && v.collides() {
        lemma_seek_then_finish(v.skip(), refused);
    }
}

impl Merger {
    /// Carries the merge to its end against a rehearsed file system, in
    /// which exactly the copies of the names in `refused` fail.
    pub fn run_with(&mut self, refused: &Vec<String>)
        ensures
            final(self)@ == old(self)@.finish(names_of(refused@)),
    {
        loop
            invariant
                self@.finish(names_of(refused@)) == old(self)@.finish(names_of(refused@)),
            ensures
                !self@.unfinished(),
            decreases self@.candidates.len() - self@.cursor,
        {
            proof {
                lemma_seek_then_finish(self@, names_of(refused@));
            }
            match self.next_copy() {
                Some(name) => {
                    let fails = holds_name(refused, &name);
                    self.record(!fails);
                },
                None => {
                    break ;
                },
            }
        }
    }

    /// The names of the files copied so far, in the order they were copied.
    pub fn installed(&self) -> (names: Vec<String>)
        ensures
            names_of(names@) == self@.installed,
    {
        let mut names: Vec<String> = Vec::new();
        let mut i: usize = 0;
        while i < self.installed.len()
            invariant
                i <= self.installed.len(),
                names.len() == i,
                forall|j: int| 0 <= j < i ==> names@[j]@ == self.installed@[j].name@,
            decreases self.installed.len() - i,
        {
            names.push(self.installed[i].name.clone());
            i += 1;
        }
        names
    }

    /// The names of the files passed over so far because their stem was
    /// taken.
    pub fn skipped(&self) -> (names: &Vec<String>)
        ensures
            names_of(names@) == self@.skipped,
    {
        &self.skipped
    }

    /// The names of the files whose copy failed so far.
    pub fn failed(&self) -> (names: &Vec<String>)
        ensures
            names_of(names@) == self@.failed,
    {
        &self.failed
    }
}

/// Whether every candidate of `v` from `from` on has a stem that the
/// destination of `v` holds.
pub open spec fn all_taken_from(v: MergeView, from: int) -> bool {
    forall|i: int|
        from <= i < v.candidates.len() ==> stem_taken(v.present, stem_of(#[trigger] v.candidates[i]))
            || stem_taken(v.installed, stem_of(v.candidates[i]))
}

/// Whether none of the candidates of `v` from `from` on has a stem that the
/// destination of `v` holds.
pub open spec fn none_taken_from(v: MergeView, from: int) -> bool {
    forall|i: int|
        from <= i < v.candidates.len() ==> !stem_taken(
            v.present,
            stem_of(#[trigger] v.candidates[i]),
        ) && !stem_taken(v.installed, stem_of(v.candidates[i]))
}

/// Whether no two of `names` share a stem.
pub open spec fn distinct_stems(names: Seq<Seq<char>>) -> bool {
    forall|i: int, j: int|
        0 <= i < j < names.len() ==> stem_of(#[trigger] names[i]) != stem_of(#[trigger] names[j])
}

/// Whether every one of `names` can be copied.
pub open spec fn none_refused(names: Seq<Seq<char>>, refused: Seq<Seq<char>>) -> bool {
    forall|i: int| 0 <= i < names.len() ==> !refused.contains(#[trigger] names[i])
}

/// A merge decides every candidate once: at its end each candidate is
/// installed, skipped or failed, and neither the candidates nor what the
/// destination held before have changed.
pub proof fn lemma_finish_accounts(v: MergeView, refused: Seq<Seq<char>>)
    requires
        v.installed.len() + v.skipped.len() + v.failed.len() == v.cursor,
        v.cursor <= v.candidates.len(),
    ensures
        !v.finish(refused).unfinished(),
        v.finish(refused).candidates == v.candidates,
        v.finish(refused).present == v.present,
        v.finish(refused).installed.len() + v.finish(refused).skipped.len() + v.finish(
            refused,
        ).failed.len() == v.candidates.len(),
    decreases v.candidates.len() - v.cursor,
{
    if !v.unfinished() {
    } else if !v.awaiting && v.collides() {
        lemma_finish_accounts(v.skip(), refused);
    } else {
        lemma_finish_accounts(v.ask().settle(!refused.contains(v.current())), refused);
    }
}

/// Where the destination holds the stem of every candidate that is left,
/// the rest of the merge copies nothing and fails on nothing: it passes
/// over all of them.
pub proof fn lemma_taken_stems_are_skipped(v: MergeView, refused: Seq<Seq<char>>)
    requires
        !v.awaiting,
        v.cursor <= v.candidates.len(),
        all_taken_from(v, v.cursor as int),
    ensures
        v.finish(refused).installed == v.installed,
        v.finish(refused).failed == v.failed,
        v.finish(refused).skipped == v.skipped + v.candidates.subrange(
            v.cursor as int,
            v.candidates.len() as int,
        ),
    decreases v.candidates.len() - v.cursor,
{
    if v.unfinished() {
        lemma_taken_stems_are_skipped(v.skip(), refused);
    }
}

/// Where no two candidates share a stem, the destination holds none of the
/// stems that are left, and every copy succeeds, the rest of the merge
/// copies every candidate that is left.
pub proof fn lemma_fresh_stems_are_installed(v: MergeView, refused: Seq<Seq<char>>)
    requires
        !v.awaiting,
        v.cursor <= v.candidates.len(),
        distinct_stems(v.candidates),
        none_taken_from(v, v.cursor as int),
        none_refused(v.candidates, refused),
    ensures
        v.finish(refused).installed == v.installed + v.candidates.subrange(
            v.cursor as int,
            v.candidates.len() as int,
        ),
        v.finish(refused).failed == v.failed,
        v.finish(refused).skipped == v.skipped,
    decreases v.candidates.len() - v.cursor,
{
    if v.unfinished() {
        let next = v.ask().settle(true);
        assert forall|i: int| next.cursor <= i < next.candidates.len() implies !stem_taken(
            next.installed,
            stem_of(#[trigger] next.candidates[i]),
        ) by {
            let stem = stem_of(next.candidates[i]);
            if stem_taken(next.installed, stem) {
                let k = choose|k: int|
                    0 <= k < next.installed.len() && #[trigger] stem_of(next.installed[k]) == stem;
                assert(k == v.installed.len() || stem_of(v.installed[k]) == stem);
            }
        }
        lemma_fresh_stems_are_installed(next, refused);
    }
}

/// Where every copy succeeds, the destination holds the stem of every
/// candidate once the merge has ended.
pub proof fn lemma_finish_takes_every_stem(v: MergeView, refused: Seq<Seq<char>>)
    requires
        v.cursor <= v.candidates.len(),
        none_refused(v.candidates, refused),
        forall|i: int|
            0 <= i < v.cursor ==> stem_taken(v.present, stem_of(#[trigger] v.candidates[i]))
                || stem_taken(v.installed, stem_of(v.candidates[i])),
    ensures
        all_taken_from(v.finish(refused), 0),
    decreases v.candidates.len() - v.cursor,
{
    if v.unfinished() {
        let next = if !v.awaiting && v.collides() {
            v.skip()
        } else {
            v.ask().settle(true)
        };
        assert forall|i: int| 0 <= i < next.cursor implies stem_taken(
            next.present,
            stem_of(#[trigger] next.candidates[i]),
        ) || stem_taken(next.installed, stem_of(next.candidates[i])) by {
            let stem = stem_of(next.candidates[i]);
            if i < v.cursor {
                if stem_taken(v.installed, stem) {
                    let k = choose|k: int|
                        0 <= k < v.installed.len() && #[trigger] stem_of(v.installed[k]) == stem;
                    assert(stem_of(next.installed[k]) == stem);
                }
            } else if !(!v.awaiting && v.collides()) {
                assert(stem_of(next.installed[v.installed.len() as int]) == stem);
            }
        }
        lemma_finish_takes_every_stem(next, refused);
    }
}

/// Merging into a destination that already holds the stem of every
/// candidate, under whatever extension, copies nothing and is no failure:
/// every candidate is passed over.
pub proof fn lemma_merge_into_taken(
    candidates: Seq<Seq<char>>,
    present: Seq<Seq<char>>,
    refused: Seq<Seq<char>>,
)
    requires
        forall|i: int|
            0 <= i < candidates.len() ==> stem_taken(present, stem_of(#[trigger] candidates[i])),
    ensures
        MergeView::start(candidates, present).finish(refused).installed.len() == 0,
        MergeView::start(candidates, present).finish(refused).failed.len() == 0,
        MergeView::start(candidates, present).finish(refused).skipped == candidates,
{
    lemma_taken_stems_are_skipped(MergeView::start(candidates, present), refused);
}

/// Merging files of pairwise different stems into a destination that holds
/// none of these stems, an empty one for instance, copies every one of them
/// where no copy fails.
pub proof fn lemma_merge_into_fresh(
    candidates: Seq<Seq<char>>,
    present: Seq<Seq<char>>,
    refused: Seq<Seq<char>>,
)
    requires
        distinct_stems(candidates),
        forall|i: int|
            0 <= i < candidates.len() ==> !stem_taken(present, stem_of(#[trigger] candidates[i])),
        none_refused(candidates, refused),
    ensures
        MergeView::start(candidates, present).finish(refused).installed == candidates,
        MergeView::start(candidates, present).finish(refused).skipped.len() == 0,
        MergeView::start(candidates, present).finish(refused).failed.len() == 0,
{
    lemma_fresh_stems_are_installed(MergeView::start(candidates, present), refused);
}

/// Merging the same files a second time, into the destination as a first
/// merge without failed copies left it, copies nothing and fails on
/// nothing.
pub proof fn lemma_merge_again(
    candidates: Seq<Seq<char>>,
    present: Seq<Seq<char>>,
    refused: Seq<Seq<char>>,
    refused_again: Seq<Seq<char>>,
)
    requires
        none_refused(candidates, refused),
    ensures
        ({
            let first = MergeView::start(candidates, present).finish(refused);
            let second = MergeView::start(candidates, present + first.installed).finish(
                refused_again,
            );
            second.installed.len() == 0 && second.failed.len() == 0 && second.skipped
                == candidates
        }),
{
    let v = MergeView::start(candidates, present);
    let first = v.finish(refused);
    lemma_finish_accounts(v, refused);
    lemma_finish_takes_every_stem(v, refused);
    let left = present + first.installed;
    assert forall|i: int| 0 <= i < candidates.len() implies stem_taken(
        left,
        stem_of(#[trigger] candidates[i]),
    ) by {
        let stem = stem_of(candidates[i]);
        if stem_taken(present, stem) {
            let k = choose|k: int| 0 <= k < present.len() && #[trigger] stem_of(present[k]) == stem;
            assert(stem_of(left[k]) == stem);
        } else {
            let k = choose|k: int|
                0 <= k < first.installed.len() && #[trigger] stem_of(first.installed[k]) == stem;
            assert(stem_of(left[present.len() + k]) == stem);
        }
    }
    lemma_merge_into_taken(candidates, left, refused_again);
}

/// A copy is asked for only where the destination holds no file with the
/// stem of the candidate: nothing that is installed is overwritten.
pub proof fn lemma_seek_never_clobbers(v: MergeView)
    requires
        !v.awaiting,
    ensures
        v.seek().pending() ==> !v.seek().collides(),
    decreases v.candidates.len() - v.cursor,
{
    if v.unfinished() && v.collides() {
        lemma_seek_never_clobbers(v.skip());
    }
}

} // verus!
