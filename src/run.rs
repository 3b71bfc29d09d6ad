use vstd::prelude::*;
use crate::listing::{listing_url, listing_url_spec, FetchError};
use crate::models::{Entry, Repo};

verus! {

/// What a run waits for.
#[derive(Debug, PartialEq, Eq, Structural)]
pub enum Phase {
    /// The listing of the current repository.
    Listing,
    /// The batch download of the current repository.
    Downloading,
    /// Nothing: every repository has been processed.
    Done,
}

/// What happened to the work last asked for.
#[derive(Debug)]
pub enum Event {
    /// The listing request came back, with the entries or the reason it failed.
    Listed(Result<Vec<Entry>, FetchError>),
    /// The batch download ended, whether it succeeded or not.
    Downloaded,
}

/// The work to do next.
#[derive(Debug)]
pub enum Action {
    /// Fetch the listing at this location.
    Fetch(String),
    /// Download the matching files among these entries.
    Download(Vec<Entry>),
    /// Stop: every repository has been processed.
    Finish,
}

/// The repositories of a run, one after the other: each is listed, then, if the
/// listing was had, its files are downloaded. A failure of either step only moves
/// the run on to the next repository.
#[derive(Debug)]
pub struct Run {
    api_root: String,
    repos: Vec<Repo>,
    current: usize,
    phase: Phase,
}

/// The state of a run: the API root, the repositories, the one being processed
/// and the phase.
pub struct RunView {
    pub api_root: Seq<char>,
    pub repos: Seq<Repo>,
    pub current: nat,
    pub phase: Phase,
}

impl View for Run {
    type V = RunView;

    closed spec fn view(&self) -> RunView {
        RunView { api_root: self.api_root@, repos: self.repos@, current: self.current as nat, phase: self.phase }
    }
}

/// The work that opens repository `i`, or the end of the run after the last one.
pub open spec fn opening_action(v: RunView, i: nat, a: Action) -> bool {
    if i < v.repos.len() {
        a is Fetch && a->Fetch_0@ == listing_url_spec(v.api_root, v.repos[i as int])
    } else {
        a is Finish
    }
}

/// The state of a run that opens repository `i` of `v`.
pub open spec fn opened(v: RunView, i: nat) -> RunView {
    RunView { current: i, phase: if i < v.repos.len() { Phase::Listing } else { Phase::Done }, ..v }
}

impl Run {
    /// A run stays within its repositories, and is done exactly after the last.
    pub open spec fn wf(&self) -> bool {
        &&& self@.current <= self@.repos.len()
        &&& (self@.phase == Phase::Done <==> self@.current == self@.repos.len())
    }

    /// Opens repository `i`, or ends the run when `i` is past the last.
    fn open_at(&mut self, i: usize) -> (a: Action)
        requires
            i <= old(self)@.repos.len(),
        ensures
            final(self)@ == opened(old(self)@, i as nat),
            opening_action(old(self)@, i as nat, a),
            final(self).wf(),
    {
        self.current = i;
        if i < self.repos.len() {
            self.phase = Phase::Listing;
            Action::Fetch(listing_url(self.api_root.as_str(), &self.repos[i]))
        } else {
            self.phase = Phase::Done;
            Action::Finish
        }
    }

    /// Opens the repository after the current one.
    fn open_next(&mut self) -> (a: Action)
        requires
            old(self).wf(),
            old(self)@.phase != Phase::Done,
        ensures
            final(self)@ == opened(old(self)@, old(self)@.current + 1),
            opening_action(old(self)@, old(self)@.current + 1, a),
            final(self).wf(),
    {
        let n = self.repos.len();
        assert(self.current < n);
        self.open_at(self.current + 1)
    }

    /// Starts a run over `repos` under the API root `api_root`: the first repository
    /// is to be listed, or the run is over at once when there is none.
    pub fn start(api_root: String, repos: Vec<Repo>) -> (r: (Run, Action))
        ensures
            r.0.wf(),
            r.0@ == opened(RunView { api_root: api_root@, repos: repos@, current: 0, phase: Phase::Done }, 0),
            opening_action(r.0@, 0, r.1),
    {
        let mut run = Run { api_root, repos, current: 0, phase: Phase::Done };
        let a = run.open_at(0);
        (run, a)
    }

    /// Moves the run on after `event`. A listing that was had is downloaded; a listing
    /// that failed, or a download that ended, opens the next repository. An event
    /// that does not answer the current phase changes nothing and gives `None`.
    pub fn step(&mut self, event: Event) -> (r: Option<Action>)
        requires
            old(self).wf(),
        ensures
            final(self).wf(),
            match event {
                Event::Listed(Ok(es)) => old(self)@.phase == Phase::Listing ==> r == Some(Action::Download(es))
                    && final(self)@ == (RunView { phase: Phase::Downloading, ..old(self)@ }),
                Event::Listed(Err(_)) => old(self)@.phase == Phase::Listing ==> r is Some
                    && opening_action(old(self)@, old(self)@.current + 1, r->Some_0)
                    && final(self)@ == opened(old(self)@, old(self)@.current + 1),
                Event::Downloaded => old(self)@.phase == Phase::Downloading ==> r is Some
                    && opening_action(old(self)@, old(self)@.current + 1, r->Some_0)
                    && final(self)@ == opened(old(self)@, old(self)@.current + 1),
            },
            (event is Listed && event->Listed_0 is Err) ==> !(r is Some && r->Some_0 is Download),
            (event is Listed && old(self)@.phase != Phase::Listing) ==> r is None && final(self)@ == old(self)@,
            (event is Downloaded && old(self)@.phase != Phase::Downloading) ==> r is None && final(self)@ == old(self)@,
    {
        match event {
            Event::Listed(res) => {
                if self.phase != Phase::Listing {
                    return None;
                }
                match res {
                    Ok(es) => {
                        self.phase = Phase::Downloading;
                        Some(Action::Download(es))
                    },
                    Err(_) => {
                        Some(self.open_next())
                    },
                }
            },
            Event::Downloaded => {
                if self.phase != Phase::Downloading {
                    return None;
                }
                Some(self.open_next())
            },
        }
    }

    /// The phase of the run.
    pub fn phase(&self) -> (r: &Phase)
        ensures
            *r == self@.phase,
    {
        &self.phase
    }

    /// The position of the repository being processed.
    pub fn current(&self) -> (r: usize)
        ensures
            r == self@.current,
    {
        self.current
    }
}

} // verus!
