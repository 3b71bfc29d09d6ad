use vstd::prelude::*;

verus! {

/// What a progress counter shows: the announced total, the units completed and the
/// label of the last update.
pub struct ProgressView {
    pub total: nat,
    pub completed: nat,
    pub label: Seq<char>,
}

/// Progress of one batch of downloads. Only `increment`, `set_label` and `finish`
/// change it, and `completed` never exceeds `total`.
#[derive(Debug)]
pub struct ProgressState {
    total: u64,
    completed: u64,
    last_label: String,
}

impl View for ProgressState {
    type V = ProgressView;

    closed spec fn view(&self) -> ProgressView {
        ProgressView { total: self.total as nat, completed: self.completed as nat, label: self.last_label@ }
    }
}

impl ProgressState {
    /// The counter never runs past the announced total.
    pub open spec fn wf(&self) -> bool {
        self@.completed <= self@.total
    }

    /// A counter that announces `total` units, none of them completed yet.
    pub fn new(total: u64) -> (r: ProgressState)
        ensures
            r@.total == total,
            r@.completed == 0,
            r@.label == Seq::<char>::empty(),
            r.wf(),
    {
        ProgressState { total, completed: 0, last_label: String::new() }
    }

    /// Counts one more completed unit.
    pub fn increment(&mut self)
        requires
            old(self).wf(),
            old(self)@.completed < old(self)@.total,
        ensures
            final(self)@.completed == old(self)@.completed + 1,
            final(self)@.total == old(self)@.total,
            final(self)@.label == old(self)@.label,
            final(self).wf(),
    {
        self.completed = self.completed + 1;
    }

    /// Replaces the label shown beside the counter.
    pub fn set_label(&mut self, label: String)
        ensures
            final(self)@.label == label@,
            final(self)@.total == old(self)@.total,
            final(self)@.completed == old(self)@.completed,
    {
        self.last_label = label;
    }

    /// Marks the batch as complete; the counts are left as they are.
    pub fn finish(&mut self)
        ensures
            final(self)@.label == finished_label(),
            final(self)@.total == old(self)@.total,
            final(self)@.completed == old(self)@.completed,
    {
        self.last_label = String::from_str(FINISHED_LABEL);
    }

    pub fn total(&self) -> (r: u64)
        ensures
            r == self@.total,
    {
        self.total
    }

    pub fn completed(&self) -> (r: u64)
        ensures
            r == self@.completed,
    {
        self.completed
    }

    pub fn last_label(&self) -> (r: &String)
        ensures
            r@ == self@.label,
    {
        &self.last_label
    }
}

/// The label shown once a batch has settled.
pub const FINISHED_LABEL: &'static str = "Download complete";

/// The characters of the label shown once a batch has settled.
pub open spec fn finished_label() -> Seq<char> {
    FINISHED_LABEL@
}

} // verus!
