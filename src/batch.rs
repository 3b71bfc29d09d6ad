use vstd::prelude::*;
use crate::models::Entry;
use crate::progress::{ProgressState, ProgressView};
use crate::selection::{names_distinct, select_targets, target_views, targets_of, DownloadTarget};
use crate::text::{join_path, lemma_path_in_injective, path_in};

verus! {

/// Why one download unit failed.
#[derive(Debug)]
pub enum UnitError {
    /// The content could not be fetched.
    Transport(String),
    /// The content could not be written to local storage.
    Filesystem(String),
}

impl UnitError {
    /// An equal copy of this error.
    pub fn duplicate(&self) -> (r: UnitError)
        ensures
            r == *self,
    {
        match self {
            UnitError::Transport(m) => UnitError::Transport(m.clone()),
            UnitError::Filesystem(m) => UnitError::Filesystem(m.clone()),
        }
    }
}

/// Where a download unit stands.
#[derive(Debug)]
pub enum UnitState {
    Pending,
    InFlight,
    Writing,
    Written,
    Failed(UnitError),
}

/// Where a download unit stands, with the content it fetched once it has it.
pub enum UnitStatus {
    Pending,
    InFlight,
    Writing(Seq<char>),
    Written(Seq<char>),
    Failed(UnitError),
}

/// A file to write: its full path and its content, verbatim.
#[derive(Debug)]
pub struct FileWrite {
    pub path: String,
    pub contents: String,
}

/// The state of a batch: the destination directory, the targets, the state of each
/// target's unit, the progress counter, and the files written so far by path.
pub struct BatchView {
    pub dir: Seq<char>,
    pub targets: Seq<(Seq<char>, Seq<char>)>,
    pub states: Seq<UnitStatus>,
    pub progress: ProgressView,
    pub files: Map<Seq<char>, Seq<char>>,
}

/// The number of units that have written their file.
pub open spec fn written_count(s: Seq<UnitStatus>) -> nat
    decreases s.len(),
{
    if s.len() == 0 {
        0
    } else {
        written_count(s.drop_last()) + if s.last() is Written {
            1nat
        } else {
            0nat
        }
    }
}

/// The path that unit `i` writes.
pub open spec fn unit_path(v: BatchView, i: int) -> Seq<char> {
    path_in(v.dir, v.targets[i].0)
}

/// No two units of the batch have the same file name.
pub open spec fn unit_names_distinct(v: BatchView) -> bool {
    names_distinct(v.targets)
}

/// Every unit has either written its file or failed.
pub open spec fn settled(v: BatchView) -> bool {
    forall|i: int| 0 <= i < v.states.len() ==> #[trigger] v.states[i] is Written || v.states[i] is Failed
}

/// Every unit has written its file.
pub open spec fn all_written(v: BatchView) -> bool {
    forall|i: int| 0 <= i < v.states.len() ==> #[trigger] v.states[i] is Written
}

/// The invariant of a batch, over its view: one state per target; the counter counts
/// the written units and never passes its total; each file comes from a written unit,
/// and, when names are distinct, each written unit's file holds what that unit fetched.
pub open spec fn view_wf(v: BatchView) -> bool {
    &&& v.states.len() == v.targets.len()
    &&& v.targets.len() <= v.progress.total
    &&& v.progress.completed <= v.progress.total
    &&& v.progress.completed == written_count(v.states)
    &&& forall|p: Seq<char>| #[trigger] v.files.contains_key(p) ==>
            exists|i: int| 0 <= i < v.states.len() && v.states[i] is Written && p == #[trigger] unit_path(v, i)
    &&& unit_names_distinct(v) ==> forall|i: int| 0 <= i < v.states.len() && #[trigger] v.states[i] is Written
            ==> v.files.contains_key(unit_path(v, i)) && v.files[unit_path(v, i)] == v.states[i]->Written_0
}

/// The executable state of a unit agrees with its status.
pub open spec fn state_agrees(e: UnitState, g: UnitStatus) -> bool {
    match e {
        UnitState::Pending => g is Pending,
        UnitState::InFlight => g is InFlight,
        UnitState::Writing => g is Writing,
        UnitState::Written => g is Written,
        UnitState::Failed(x) => g == UnitStatus::Failed(x),
    }
}

/// One batch of downloads: for each target a unit that goes from pending to in flight,
/// then, once its content has been fetched, to writing, and ends written or failed.
pub struct Batch {
    dir: String,
    targets: Vec<DownloadTarget>,
    states: Vec<UnitState>,
    progress: ProgressState,
    status: Ghost<Seq<UnitStatus>>,
    files: Ghost<Map<Seq<char>, Seq<char>>>,
}

impl View for Batch {
    type V = BatchView;

    closed spec fn view(&self) -> BatchView {
        BatchView {
            dir: self.dir@,
            targets: target_views(self.targets@),
            states: self.status@,
            progress: self.progress@,
            files: self.files@,
        }
    }
}

proof fn lemma_count_update(s: Seq<UnitStatus>, i: int, x: UnitStatus)
    requires
        0 <= i < s.len(),
    ensures
        written_count(s.update(i, x)) + (if s[i] is Written { 1int } else { 0int })
            == written_count(s) + (if x is Written { 1int } else { 0int }),
    decreases s.len(),
{
    if i == s.len() - 1 {
        assert(s.update(i, x).drop_last() =~= s.drop_last());
    } else {
        lemma_count_update(s.drop_last(), i, x);
        assert(s.update(i, x).drop_last() =~= s.drop_last().update(i, x));
    }
}

proof fn lemma_count_below(s: Seq<UnitStatus>, i: int)
    requires
        0 <= i < s.len(),
        !(s[i] is Written),
    ensures
        written_count(s) < s.len(),
    decreases s.len(),
{
    lemma_count_at_most(s.drop_last());
    if i < s.len() - 1 {
        lemma_count_below(s.drop_last(), i);
    }
}

proof fn lemma_count_at_most(s: Seq<UnitStatus>)
    ensures
        written_count(s) <= s.len(),
    decreases s.len(),
{
    if s.len() > 0 {
        lemma_count_at_most(s.drop_last());
    }
}

proof fn lemma_count_all(s: Seq<UnitStatus>)
    requires
        forall|i: int| 0 <= i < s.len() ==> #[trigger] s[i] is Written,
    ensures
        written_count(s) == s.len(),
    decreases s.len(),
{
    if s.len() > 0 {
        assert(s[s.len() - 1] is Written);
        lemma_count_all(s.drop_last());
    }
}

impl Batch {
    /// The executable states agree with the unit statuses, and the counter is well formed.
    pub closed spec fn inv(&self) -> bool {
        &&& self.states@.len() == self.status@.len()
        &&& forall|i: int| 0 <= i < self.states@.len() ==> state_agrees(#[trigger] self.states@[i], self.status@[i])
        &&& self.progress.wf()
    }

    /// The batch is well formed.
    pub open spec fn wf(&self) -> bool {
        self.inv() && view_wf(self@)
    }

    /// A batch over the entries of a listing whose name ends with `suffix` and that
    /// have a download location, every unit pending, to be written under `dir`. The
    /// counter announces one unit per entry of the listing.
    pub fn new(entries: &Vec<Entry>, dir: String, suffix: &str) -> (r: Batch)
        ensures
            r.wf(),
            r@.dir == dir@,
            r@.targets == targets_of(entries@, suffix@),
            forall|i: int| 0 <= i < r@.states.len() ==> #[trigger] r@.states[i] is Pending,
            r@.progress.total == entries@.len(),
            r@.progress.completed == 0,
            r@.progress.label == Seq::<char>::empty(),
            r@.files == Map::<Seq<char>, Seq<char>>::empty(),
    {
        let targets = select_targets(entries, suffix);
        let n = targets.len();
        let mut states: Vec<UnitState> = Vec::new();
        let mut i: usize = 0;
        while i < n
            invariant
                i <= n,
                states@.len() == i,
                forall|j: int| 0 <= j < i ==> #[trigger] states@[j] is Pending,
            decreases n - i,
        {
            states.push(UnitState::Pending);
            i = i + 1;
        }
        let ghost status = Seq::new(n as nat, |j: int| UnitStatus::Pending);
        proof {
            assert(targets_of(entries@, suffix@).len() <= entries@.len()) by {
                lemma_targets_len(entries@, suffix@);
            }
            assert(written_count(status) == 0) by {
                lemma_count_none(status);
            }
        }
        let progress = ProgressState::new(entries.len() as u64);
        Batch { dir, targets, states, progress, status: Ghost(status), files: Ghost(Map::empty()) }
    }

    /// The number of units.
    pub fn len(&self) -> (r: usize)
        requires
            self.wf(),
        ensures
            r == self@.targets.len(),
    {
        self.targets.len()
    }

    /// The target of unit `i`.
    pub fn target(&self, i: usize) -> (r: &DownloadTarget)
        requires
            self.wf(),
            i < self@.targets.len(),
        ensures
            r@ == self@.targets[i as int],
    {
        &self.targets[i]
    }

    /// The state of unit `i`.
    pub fn state(&self, i: usize) -> (r: &UnitState)
        requires
            self.wf(),
            i < self@.targets.len(),
        ensures
            state_agrees(*r, self@.states[i as int]),
    {
        &self.states[i]
    }

    /// The progress counter.
    pub fn progress(&self) -> (r: &ProgressState)
        ensures
            r@ == self@.progress,
    {
        &self.progress
    }

    /// Starts unit `i`: a pending unit goes in flight and the location to fetch from
    /// is returned; any other unit is left as it is and `None` comes back.
    pub fn begin(&mut self, i: usize) -> (r: Option<String>)
        requires
            old(self).wf(),
            i < old(self)@.targets.len(),
        ensures
            final(self).wf(),
            old(self)@.states[i as int] is Pending ==> r is Some && r->Some_0@ == old(self)@.targets[i as int].1
                && final(self)@ == (BatchView { states: old(self)@.states.update(i as int, UnitStatus::InFlight), ..old(self)@ }),
            !(old(self)@.states[i as int] is Pending) ==> r is None && final(self)@ == old(self)@,
    {
        match &self.states[i] {
            UnitState::Pending => {},
            _ => {
                return None;
            },
        }
        let url = self.targets[i].url.clone();
        self.states[i] = UnitState::InFlight;
        proof {
            lemma_update_keeps_wf(self@, i as int, UnitStatus::InFlight);
            self.status@ = self.status@.update(i as int, UnitStatus::InFlight);
        }
        Some(url)
    }

    /// Hands unit `i` the content it fetched: an in-flight unit starts writing and the
    /// file to write is returned, the content verbatim at the unit's path; any other
    /// unit is left as it is and `None` comes back.
    pub fn on_fetched(&mut self, i: usize, body: String) -> (r: Option<FileWrite>)
        requires
            old(self).wf(),
            i < old(self)@.targets.len(),
        ensures
            final(self).wf(),
            old(self)@.states[i as int] is InFlight ==> r is Some
                && r->Some_0.path@ == unit_path(old(self)@, i as int)
                && r->Some_0.contents@ == body@
                && final(self)@ == (BatchView { states: old(self)@.states.update(i as int, UnitStatus::Writing(body@)), ..old(self)@ }),
            !(old(self)@.states[i as int] is InFlight) ==> r is None && final(self)@ == old(self)@,
    {
        match &self.states[i] {
            UnitState::InFlight => {},
            _ => {
                return None;
            },
        }
        let path = join_path(self.dir.as_str(), self.targets[i].name.as_str());
        self.states[i] = UnitState::Writing;
        proof {
            lemma_update_keeps_wf(self@, i as int, UnitStatus::Writing(body@));
            self.status@ = self.status@.update(i as int, UnitStatus::Writing(body@));
        }
        Some(FileWrite { path, contents: body })
    }

    /// Records that unit `i` wrote its file: a writing unit becomes written, its file
    /// holds what it fetched, the counter goes up by one and shows the file's name.
    /// Any other unit is left as it is and `false` comes back.
    pub fn on_written(&mut self, i: usize) -> (r: bool)
        requires
            old(self).wf(),
            i < old(self)@.targets.len(),
        ensures
            final(self).wf(),
            r == old(self)@.states[i as int] is Writing,
            r ==> final(self)@ == (BatchView {
                states: old(self)@.states.update(i as int, UnitStatus::Written(old(self)@.states[i as int]->Writing_0)),
                progress: ProgressView {
                    completed: old(self)@.progress.completed + 1,
                    label: old(self)@.targets[i as int].0,
                    ..old(self)@.progress
                },
                files: old(self)@.files.insert(unit_path(old(self)@, i as int), old(self)@.states[i as int]->Writing_0),
                ..old(self)@
            }),
            !r ==> final(self)@ == old(self)@,
    {
        match &self.states[i] {
            UnitState::Writing => {},
            _ => {
                return false;
            },
        }
        let ghost old_v = self@;
        let ghost c = self.status@[i as int]->Writing_0;
        proof {
            lemma_count_below(self.status@, i as int);
            lemma_count_update(self.status@, i as int, UnitStatus::Written(c));
        }
        self.progress.increment();
        let label = self.targets[i].name.clone();
        self.progress.set_label(label);
        self.states[i] = UnitState::Written;
        proof {
            let p = unit_path(old_v, i as int);
            self.status@ = self.status@.update(i as int, UnitStatus::Written(c));
            self.files@ = self.files@.insert(p, c);
            let v = self@;
            assert(v.targets == old_v.targets && v.dir == old_v.dir);
            assert forall|q: Seq<char>| #[trigger] v.files.contains_key(q) implies
                exists|j: int| 0 <= j < v.states.len() && v.states[j] is Written && q == #[trigger] unit_path(v, j) by {
                if q == p {
                    assert(unit_path(v, i as int) == q);
                } else {
                    assert(old_v.files.contains_key(q));
                    let j = choose|j: int| 0 <= j < old_v.states.len() && old_v.states[j] is Written
                        && q == #[trigger] unit_path(old_v, j);
                    assert(unit_path(v, j) == q);
                }
            }
            if unit_names_distinct(v) {
                assert forall|j: int| 0 <= j < v.states.len() && #[trigger] v.states[j] is Written implies
                    v.files.contains_key(unit_path(v, j)) && v.files[unit_path(v, j)] == v.states[j]->Written_0 by {
                    if j != i {
                        assert(old_v.states[j] is Written);
                        if unit_path(v, j) == p {
                            lemma_path_in_injective(v.dir, v.targets[j].0, v.targets[i as int].0);
                        }
                    }
                }
            }
            assert(self@ =~= (BatchView {
                states: old_v.states.update(i as int, UnitStatus::Written(c)),
                progress: ProgressView { completed: old_v.progress.completed + 1, label: old_v.targets[i as int].0, ..old_v.progress },
                files: old_v.files.insert(p, c),
                ..old_v
            }));
        }
        true
    }

    /// Records that unit `i` failed: a unit in flight or writing becomes failed with
    /// `err`, and nothing else changes. Any other unit is left as it is and `false`
    /// comes back.
    pub fn on_failed(&mut self, i: usize, err: UnitError) -> (r: bool)
        requires
            old(self).wf(),
            i < old(self)@.targets.len(),
        ensures
            final(self).wf(),
            r == (old(self)@.states[i as int] is InFlight || old(self)@.states[i as int] is Writing),
            r ==> final(self)@ == (BatchView { states: old(self)@.states.update(i as int, UnitStatus::Failed(err)), ..old(self)@ }),
            !r ==> final(self)@ == old(self)@,
    {
        match &self.states[i] {
            UnitState::InFlight => {},
            UnitState::Writing => {},
            _ => {
                return false;
            },
        }
        let ghost old_v = self@;
        let ghost e = err;
        self.states[i] = UnitState::Failed(err);
        proof {
            lemma_update_keeps_wf(old_v, i as int, UnitStatus::Failed(e));
            self.status@ = self.status@.update(i as int, UnitStatus::Failed(e));
            assert(self@ =~= (BatchView { states: old_v.states.update(i as int, UnitStatus::Failed(e)), ..old_v }));
        }
        true
    }

    /// Whether every unit has written its file or failed.
    pub fn is_settled(&self) -> (r: bool)
        requires
            self.wf(),
        ensures
            r == settled(self@),
    {
        let mut i: usize = 0;
        while i < self.states.len()
            invariant
                self.wf(),
                i <= self.states@.len(),
                forall|j: int| 0 <= j < i ==> #[trigger] self@.states[j] is Written || self@.states[j] is Failed,
            decreases self.states@.len() - i,
        {
            match &self.states[i] {
                UnitState::Written => {},
                UnitState::Failed(_) => {},
                _ => {
                    assert(!(self@.states[i as int] is Written || self@.states[i as int] is Failed));
                    return false;
                },
            }
            i = i + 1;
        }
        true
    }

    /// Ends a settled batch. It succeeds when every unit wrote its file, and the
    /// counter then shows completion; else it fails with the error of the first
    /// failed unit. Files already written stay as they are either way.
    pub fn finish(&mut self) -> (r: Result<(), UnitError>)
        requires
            old(self).wf(),
            settled(old(self)@),
        ensures
            final(self).wf(),
            r is Ok <==> all_written(old(self)@),
            r is Ok ==> final(self)@ == (BatchView {
                progress: ProgressView { label: crate::progress::finished_label(), ..old(self)@.progress },
                ..old(self)@
            }),
            r is Ok ==> final(self)@.progress.completed == final(self)@.targets.len(),
            r is Err ==> final(self)@ == old(self)@,
            r is Err ==> exists|i: int| 0 <= i < old(self)@.states.len()
                && old(self)@.states[i] == UnitStatus::Failed(r->Err_0)
                && forall|j: int| 0 <= j < i ==> #[trigger] old(self)@.states[j] is Written,
    {
        let mut i: usize = 0;
        while i < self.states.len()
            invariant
                self.wf(),
                settled(self@),
                i <= self.states@.len(),
                forall|j: int| 0 <= j < i ==> #[trigger] self@.states[j] is Written,
            decreases self.states@.len() - i,
        {
            match &self.states[i] {
                UnitState::Failed(e) => {
                    let err = e.duplicate();
                    return Err(err);
                },
                _ => {},
            }
            assert(self@.states[i as int] is Written);
            i = i + 1;
        }
        proof {
            lemma_count_all(self.status@);
        }
        let ghost old_v = self@;
        self.progress.finish();
        proof {
            let v = self@;
            assert(v =~= (BatchView { progress: ProgressView { label: crate::progress::finished_label(), ..old_v.progress }, ..old_v }));
            assert forall|q: Seq<char>| #[trigger] v.files.contains_key(q) implies
                exists|j: int| 0 <= j < v.states.len() && v.states[j] is Written && q == #[trigger] unit_path(v, j) by {
                let j = choose|j: int| 0 <= j < old_v.states.len() && old_v.states[j] is Written && q == #[trigger] unit_path(old_v, j);
                assert(unit_path(v, j) == q);
            }
        }
        Ok(())
    }
}

proof fn lemma_update_keeps_wf(v: BatchView, i: int, x: UnitStatus)
    requires
        view_wf(v),
        0 <= i < v.states.len(),
        !(v.states[i] is Written),
        !(x is Written),
    ensures
        view_wf(BatchView { states: v.states.update(i, x), ..v }),
{
    let w = BatchView { states: v.states.update(i, x), ..v };
    lemma_count_update(v.states, i, x);
    assert forall|q: Seq<char>| #[trigger] w.files.contains_key(q) implies
        exists|j: int| 0 <= j < w.states.len() && w.states[j] is Written && q == #[trigger] unit_path(w, j) by {
        let j = choose|j: int| 0 <= j < v.states.len() && v.states[j] is Written && q == #[trigger] unit_path(v, j);
        assert(unit_path(w, j) == q);
    }
    if unit_names_distinct(w) {
        assert forall|j: int| 0 <= j < w.states.len() && #[trigger] w.states[j] is Written implies
            w.files.contains_key(unit_path(w, j)) && w.files[unit_path(w, j)] == w.states[j]->Written_0 by {
            assert(v.states[j] is Written);
        }
    }
}

proof fn lemma_count_none(s: Seq<UnitStatus>)
    requires
        forall|i: int| 0 <= i < s.len() ==> #[trigger] s[i] is Pending,
    ensures
        written_count(s) == 0,
    decreases s.len(),
{
    if s.len() > 0 {
        assert(s[s.len() - 1] is Pending);
        lemma_count_none(s.drop_last());
    }
}

proof fn lemma_targets_len(es: Seq<Entry>, suffix: Seq<char>)
    ensures
        targets_of(es, suffix).len() <= es.len(),
    decreases es.len(),
{
    if es.len() > 0 {
        lemma_targets_len(es.drop_last(), suffix);
    }
}

} // verus!
