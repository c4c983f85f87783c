//! Read-only flags: clearing them below a path before something there is
//! written over or removed.

use crate::host::{flag_set, Answer, Ask, Progress, Reply, Request};
use vstd::prelude::*;

verus! {

/// Where the clearing of one entry stands.
#[derive(Clone, Copy, Debug, PartialEq, Eq, Structural)]
pub enum ClearStage {
    /// Looking at the entry.
    Probe,
    /// Clearing its flag.
    Clear,
}

/// The clearing of read-only flags, entry by entry, while it waits for the
/// host.
#[derive(Debug)]
pub struct ClearRun {
    entries: Vec<String>,
    at: usize,
    stage: ClearStage,
}

/// `ClearRun` as plain values.
pub struct ClearState {
    /// The entries below the path, in the order in which they were found.
    pub entries: Seq<Seq<char>>,
    /// The index of the entry that is looked at.
    pub at: int,
    pub stage: ClearStage,
}

/// The clearing from entry `at` on: the look at that entry, or, behind the
/// last entry, the end.
pub open spec fn clear_from(entries: Seq<Seq<char>>, at: int) -> Progress<ClearState, ()> {
    if 0 <= at < entries.len() {
        Progress::Ask(ClearState { entries, at, stage: ClearStage::Probe })
    } else {
        Progress::Done(())
    }
}

impl ClearState {
    /// What the clearing asks of the host.
    pub open spec fn ask(self) -> Ask {
        match self.stage {
            ClearStage::Probe => Ask::Probe { path: self.entries[self.at] },
            ClearStage::Clear => Ask::ClearReadonly { path: self.entries[self.at] },
        }
    }

    /// What follows on `answer`. The flag of an entry is cleared where the
    /// look shows one; an entry that cannot be looked at is passed over, and
    /// so is a flag that cannot be cleared. The clearing always reaches its
    /// end.
    pub open spec fn next(self, answer: Answer) -> Progress<ClearState, ()> {
        match (self.stage, answer) {
            (ClearStage::Probe, Answer::Probed(probe)) => if flag_set(probe) {
                Progress::Ask(ClearState { stage: ClearStage::Clear, ..self })
            } else {
                clear_from(self.entries, self.at + 1)
            },
            (ClearStage::Clear, Answer::Outcome(_)) => clear_from(self.entries, self.at + 1),
            _ => Progress::Ask(self),
        }
    }
}

impl View for ClearRun {
    type V = ClearState;

    closed spec fn view(&self) -> ClearState {
        ClearState { entries: self.entries.deep_view(), at: self.at as int, stage: self.stage }
    }
}

fn clear_at(entries: Vec<String>, at: usize) -> (progress: Progress<ClearRun, ()>)
    ensures
        progress@ == clear_from(entries.deep_view(), at as int),
{
    if at < entries.len() {
        Progress::Ask(ClearRun { entries, at, stage: ClearStage::Probe })
    } else {
        Progress::Done(())
    }
}

/// Starts clearing the read-only flags of `entries`: a path and everything
/// below it, as the host found them.
pub fn clear_readonly_recursive(entries: Vec<String>) -> (progress: Progress<ClearRun, ()>)
    ensures
        progress@ == clear_from(entries.deep_view(), 0),
{
    clear_at(entries, 0)
}

impl ClearRun {
    #[verifier::type_invariant]
    spec fn valid(self) -> bool {
        self.at < self.entries.len()
    }

    /// What the host is to do next.
    pub fn request(&self) -> (request: Request)
        ensures
            request@ == self@.ask(),
    {
        proof {
            use_type_invariant(self);
        }
        match self.stage {
            ClearStage::Probe => Request::Probe { path: self.entries[self.at].clone() },
            ClearStage::Clear => Request::ClearReadonly { path: self.entries[self.at].clone() },
        }
    }

    /// Takes the host's reply and goes on. A reply that answers another kind
    /// of request leaves the run as it is.
    pub fn resume(self, reply: Reply) -> (progress: Progress<ClearRun, ()>)
        ensures
            progress@ == self@.next(reply@),
    {
        proof {
            use_type_invariant(&self);
        }
        let ClearRun { entries, at, stage } = self;
        match stage {
            ClearStage::Probe => match reply {
                Reply::Probed(probe) => if probe.flag_set() {
                    Progress::Ask(ClearRun { entries, at, stage: ClearStage::Clear })
                } else {
                    clear_at(entries, at + 1)
                },
                _ => Progress::Ask(ClearRun { entries, at, stage }),
            },
            ClearStage::Clear => match reply {
                Reply::Outcome(_) => clear_at(entries, at + 1),
                _ => Progress::Ask(ClearRun { entries, at, stage }),
            },
        }
    }
}

} // verus!
