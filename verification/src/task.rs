//! One download task: a reserved file name stem that tries candidate after
//! candidate until one of them gives a file, or none is left.
//!
//! The task does no work itself. Its phase says what its driver has to do
//! next, and the driver reports back how that went:
//!
//! * `Waiting`: take a candidate from the pool (`acquire`).
//! * `Fetching`: fetch the bytes at the address (`fetched`, `fetch_failed`).
//! * `Writing`: write the bytes under the name (`written`, `write_failed`).
//! * `Done`, `Exhausted`: nothing; the task is over.
//!
//! A report that does not answer the phase changes nothing.

use vstd::prelude::*;
use vstd::string::*;
use crate::classify::{classified, classify, outcome, sniffed};
use crate::error::DownloadError;
use crate::pool::Pool;

verus! {

/// Where a task stands.
#[derive(Debug)]
pub enum Phase {
    /// It needs a candidate.
    Waiting,
    /// It holds the address of a candidate whose bytes are wanted.
    Fetching(String),
    /// It holds the file name under which the fetched bytes are to be
    /// written.
    Writing(String),
    /// The file of this name was written.
    Done(String),
    /// The pool was empty when a candidate was needed.
    Exhausted,
}

/// A `Phase` as plain values.
pub enum PhaseView {
    Waiting,
    Fetching(Seq<char>),
    Writing(Seq<char>),
    Done(Seq<char>),
    Exhausted,
}

impl View for Phase {
    type V = PhaseView;

    open spec fn view(&self) -> PhaseView {
        match self {
            Phase::Waiting => PhaseView::Waiting,
            Phase::Fetching(url) => PhaseView::Fetching(url@),
            Phase::Writing(name) => PhaseView::Writing(name@),
            Phase::Done(name) => PhaseView::Done(name@),
            Phase::Exhausted => PhaseView::Exhausted,
        }
    }
}

/// A download task.
#[derive(Debug)]
pub struct Task {
    stem: String,
    phase: Phase,
}

/// A `Task` as plain values.
pub struct TaskView {
    pub stem: Seq<char>,
    pub phase: PhaseView,
}

impl View for Task {
    type V = TaskView;

    closed spec fn view(&self) -> TaskView {
        TaskView { stem: self.stem@, phase: self.phase@ }
    }
}

/// The name of the file for a stem and an extension.
pub open spec fn file_name(stem: Seq<char>, extension: Seq<char>) -> Seq<char> {
    stem + seq!['.'] + extension
}

impl TaskView {
    /// A task that has not begun.
    pub open spec fn fresh(stem: Seq<char>) -> TaskView {
        TaskView { stem, phase: PhaseView::Waiting }
    }

    /// The task is over.
    pub open spec fn is_over(self) -> bool {
        self.phase is Done || self.phase is Exhausted
    }

    /// After the pool was asked for a candidate.
    pub open spec fn offered(self, candidate: Option<Seq<char>>) -> TaskView {
        match self.phase {
            PhaseView::Waiting => match candidate {
                Some(url) => TaskView { phase: PhaseView::Fetching(url), ..self },
                None => TaskView { phase: PhaseView::Exhausted, ..self },
            },
            _ => self,
        }
    }

    /// After the fetched bytes were classified.
    pub open spec fn settled(self, verdict: Result<Seq<char>, DownloadError>) -> TaskView {
        match self.phase {
            PhaseView::Fetching(_) => match verdict {
                Ok(extension) => TaskView {
                    phase: PhaseView::Writing(file_name(self.stem, extension)),
                    ..self
                },
                Err(_) => TaskView { phase: PhaseView::Waiting, ..self },
            },
            _ => self,
        }
    }

    /// After the fetch failed.
    pub open spec fn unfetched(self) -> TaskView {
        match self.phase {
            PhaseView::Fetching(_) => TaskView { phase: PhaseView::Waiting, ..self },
            _ => self,
        }
    }

    /// After the file was written.
    pub open spec fn stored(self) -> TaskView {
        match self.phase {
            PhaseView::Writing(name) => TaskView { phase: PhaseView::Done(name), ..self },
            _ => self,
        }
    }

    /// After the file could not be written.
    pub open spec fn unstored(self) -> TaskView {
        match self.phase {
            PhaseView::Writing(_) => TaskView { phase: PhaseView::Waiting, ..self },
            _ => self,
        }
    }

    /// How the task ended, once it is over.
    pub open spec fn result(self) -> Option<Result<Seq<char>, DownloadError>> {
        match self.phase {
            PhaseView::Done(name) => Some(Ok(name)),
            PhaseView::Exhausted => Some(Err(DownloadError::Overflow)),
            _ => None,
        }
    }
}

/// The name of the file for a stem and an extension.
pub fn name_file(stem: &str, extension: &str) -> (name: String)
    ensures
        name@ == file_name(stem@, extension@),
{
    proof {
        reveal_strlit(".");
    }
    let name = String::from_str(stem).concat(".").concat(extension);
    proof {
        assert("."@ =~= seq!['.']);
    }
    name
}

impl Task {
    /// A task for the file name stem `stem`. It begins by waiting for a
    /// candidate.
    pub fn new(stem: String) -> (task: Task)
        ensures
            task@ == TaskView::fresh(stem@),
    {
        Task { stem, phase: Phase::Waiting }
    }

    /// The file name stem that the files of the task are named on.
    pub fn stem(&self) -> (stem: &str)
        ensures
            stem@ == self@.stem,
    {
        self.stem.as_str()
    }

    /// Where the task stands.
    pub fn phase(&self) -> (phase: &Phase)
        ensures
            phase@ == self@.phase,
    {
        &self.phase
    }

    /// Whether the task is over.
    pub fn is_over(&self) -> (over: bool)
        ensures
            over == self@.is_over(),
    {
        match self.phase {
            Phase::Done(_) => true,
            Phase::Exhausted => true,
            _ => false,
        }
    }

    /// Reports what the pool gave: a candidate, or nothing because it was
    /// empty. A waiting task goes on to fetch the candidate, or is exhausted.
    pub fn offer(&mut self, candidate: Option<String>)
        ensures
            final(self)@ == old(self)@.offered(
                match candidate {
                    Some(url) => Some(url@),
                    None => None,
                },
            ),
    {
        match self.phase {
            Phase::Waiting => {
                match candidate {
                    Some(url) => {
                        self.phase = Phase::Fetching(url);
                    },
                    None => {
                        self.phase = Phase::Exhausted;
                    },
                }
            },
            _ => {},
        }
    }

    /// Takes the next candidate from `pool` for a waiting task.
    ///
    /// The pool is touched only where the task is waiting, and then loses
    /// exactly its front candidate, which the task now holds.
    pub fn acquire(&mut self, pool: &mut Pool)
        ensures
            old(self)@.phase is Waiting ==> {
                &&& final(self)@ == old(self)@.offered(
                    if old(pool)@.len() > 0 {
                        Some(old(pool)@[0])
                    } else {
                        None
                    },
                )
                &&& final(pool)@ == if old(pool)@.len() > 0 {
                    old(pool)@.skip(1)
                } else {
                    old(pool)@
                }
            },
            !(old(self)@.phase is Waiting) ==> final(self)@ == old(self)@ && final(pool)@ == old(
                pool,
            )@,
    {
        match self.phase {
            Phase::Waiting => {
                let candidate = pool.take();
                self.offer(candidate);
            },
            _ => {},
        }
    }

    /// Reports the verdict on the fetched bytes. A fetching task goes on to
    /// write the file under its stem and the extension found, or drops the
    /// candidate and waits for the next.
    pub fn settle(&mut self, verdict: Result<String, DownloadError>)
        ensures
            final(self)@ == old(self)@.settled(outcome(verdict)),
    {
        match self.phase {
            Phase::Fetching(_) => {
                match verdict {
                    Ok(extension) => {
                        let name = name_file(self.stem.as_str(), extension.as_str());
                        self.phase = Phase::Writing(name);
                    },
                    Err(_) => {
                        self.phase = Phase::Waiting;
                    },
                }
            },
            _ => {},
        }
    }

    /// Reports the bytes that were fetched: they are classified, and the task
    /// goes on as `settle` says.
    pub fn fetched(&mut self, bytes: &[u8])
        ensures
            final(self)@ == old(self)@.settled(classified(bytes@, sniffed(bytes@))),
    {
        match self.phase {
            Phase::Fetching(_) => {
                let verdict = classify(bytes);
                self.settle(verdict);
            },
            _ => {},
        }
    }

    /// Reports that the bytes could not be fetched. A fetching task drops the
    /// candidate and waits for the next.
    pub fn fetch_failed(&mut self)
        ensures
            final(self)@ == old(self)@.unfetched(),
    {
        match self.phase {
            Phase::Fetching(_) => {
                self.phase = Phase::Waiting;
            },
            _ => {},
        }
    }

    /// Reports that the file was written. A writing task is done.
    pub fn written(&mut self)
        ensures
            final(self)@ == old(self)@.stored(),
    {
        let mut phase = Phase::Waiting;
        core::mem::swap(&mut self.phase, &mut phase);
        self.phase = match phase {
            Phase::Writing(name) => Phase::Done(name),
            other => other,
        };
    }

    /// Reports that the file could not be written. A writing task drops the
    /// candidate and waits for the next.
    pub fn write_failed(&mut self)
        ensures
            final(self)@ == old(self)@.unstored(),
    {
        match self.phase {
            Phase::Writing(_) => {
                self.phase = Phase::Waiting;
            },
            _ => {},
        }
    }

    /// How the task ended: with the name of its file, or without one because
    /// the candidates ran out. `None` while the task is not over.
    pub fn result(&self) -> (result: Option<Result<String, DownloadError>>)
        ensures
            self@.result() == match result {
                Some(ended) => Some(outcome(ended)),
                None => None,
            },
    {
        match &self.phase {
            Phase::Done(name) => Some(Ok(name.clone())),
            Phase::Exhausted => Some(Err(DownloadError::Overflow)),
            _ => None,
        }
    }
}

} // verus!
