//! Blocker files: empty, read-only markers that stand where the updater
//! wants to write.

use crate::host::{Answer, Ask, FileProbe, Reply, Request};
use vstd::prelude::*;

verus! {

/// Whether what stands at a path is a blocker: it exists, holds no byte and
/// is read-only.
pub open spec fn is_blocker(probe: FileProbe) -> bool {
    probe.exists && probe.size == 0 && probe.readonly
}

/// Tells a blocker from anything else that may stand at its path.
pub fn is_blocker_present(probe: &FileProbe) -> (present: bool)
    ensures
        present == is_blocker(*probe),
{
    probe.exists && probe.size == 0 && probe.readonly
}

/// Where the making of one blocker stands.
#[derive(Clone, Copy, Debug, PartialEq, Eq, Structural)]
pub enum BlockerStage {
    /// Looking at what stands at the path.
    Probe,
    /// Clearing read-only flags on what stands there.
    Clear { is_dir: bool },
    /// Removing what stands there.
    Remove { is_dir: bool },
    /// Writing the empty file.
    Write,
    /// Marking the file read-only.
    Mark,
}

/// What the making of a blocker asks at `stage`.
pub open spec fn blocker_ask(stage: BlockerStage, path: Seq<char>) -> Ask {
    match stage {
        BlockerStage::Probe => Ask::Probe { path },
        BlockerStage::Clear { is_dir } => Ask::ClearReadonlyTree { path },
        BlockerStage::Remove { is_dir } => if is_dir {
            Ask::RemoveDirAll { path }
        } else {
            Ask::RemoveFile { path }
        },
        BlockerStage::Write => Ask::WriteText { path, content: Seq::empty() },
        BlockerStage::Mark => Ask::MarkReadonly { path },
    }
}

/// How the making of a blocker goes on after a reply.
pub enum BlockerMove<S> {
    /// The reply answers no request of this stage.
    Stay,
    /// On to the next stage.
    Go(BlockerStage),
    /// The blocker stands.
    Made,
    /// The step failed, for this reason.
    Failed(S),
}

/// What follows `stage` on `answer`: whatever stands at the path is cleared
/// of read-only flags and removed, the empty file is written and marked. The
/// first removal, write or marking that fails ends it; a failure to clear
/// flags does not.
pub open spec fn blocker_move(stage: BlockerStage, answer: Answer) -> BlockerMove<Seq<char>> {
    match (stage, answer) {
        (BlockerStage::Probe, Answer::Probed(probe)) => if probe.exists {
            BlockerMove::Go(BlockerStage::Clear { is_dir: probe.is_dir })
        } else {
            BlockerMove::Go(BlockerStage::Write)
        },
        (BlockerStage::Clear { is_dir }, Answer::Outcome(_)) => BlockerMove::Go(
            BlockerStage::Remove { is_dir },
        ),
        (BlockerStage::Remove { is_dir }, Answer::Outcome(Ok(_))) => BlockerMove::Go(
            BlockerStage::Write,
        ),
        (BlockerStage::Write, Answer::Outcome(Ok(_))) => BlockerMove::Go(BlockerStage::Mark),
        (BlockerStage::Mark, Answer::Outcome(Ok(_))) => BlockerMove::Made,
        (BlockerStage::Remove { is_dir }, Answer::Outcome(Err(why))) => BlockerMove::Failed(why),
        (BlockerStage::Write, Answer::Outcome(Err(why))) => BlockerMove::Failed(why),
        (BlockerStage::Mark, Answer::Outcome(Err(why))) => BlockerMove::Failed(why),
        _ => BlockerMove::Stay,
    }
}

/// `BlockerMove` with its reason as plain text.
pub open spec fn move_view(step: BlockerMove<String>) -> BlockerMove<Seq<char>> {
    match step {
        BlockerMove::Stay => BlockerMove::Stay,
        BlockerMove::Go(stage) => BlockerMove::Go(stage),
        BlockerMove::Made => BlockerMove::Made,
        BlockerMove::Failed(why) => BlockerMove::Failed(why@),
    }
}

/// The request of `stage` for the blocker at `path`.
pub fn blocker_request(stage: BlockerStage, path: &String) -> (request: Request)
    ensures
        request@ == blocker_ask(stage, path@),
{
    match stage {
        BlockerStage::Probe => Request::Probe { path: path.clone() },
        BlockerStage::Clear { is_dir } => Request::ClearReadonlyTree { path: path.clone() },
        BlockerStage::Remove { is_dir } => if is_dir {
            Request::RemoveDirAll { path: path.clone() }
        } else {
            Request::RemoveFile { path: path.clone() }
        },
        BlockerStage::Write => Request::WriteText { path: path.clone(), content: String::new() },
        BlockerStage::Mark => Request::MarkReadonly { path: path.clone() },
    }
}

/// Takes the making of a blocker one reply further.
pub fn blocker_step(stage: BlockerStage, reply: Reply) -> (step: BlockerMove<String>)
    ensures
        move_view(step) == blocker_move(stage, reply@),
{
    match stage {
        BlockerStage::Probe => match reply {
            Reply::Probed(probe) => if probe.exists {
                BlockerMove::Go(BlockerStage::Clear { is_dir: probe.is_dir })
            } else {
                BlockerMove::Go(BlockerStage::Write)
            },
            _ => BlockerMove::Stay,
        },
        BlockerStage::Clear { is_dir } => match reply {
            Reply::Outcome(_) => BlockerMove::Go(BlockerStage::Remove { is_dir }),
            _ => BlockerMove::Stay,
        },
        BlockerStage::Remove { is_dir } => match reply {
            Reply::Outcome(Ok(_)) => BlockerMove::Go(BlockerStage::Write),
            Reply::Outcome(Err(why)) => BlockerMove::Failed(why),
            _ => BlockerMove::Stay,
        },
        BlockerStage::Write => match reply {
            Reply::Outcome(Ok(_)) => BlockerMove::Go(BlockerStage::Mark),
            Reply::Outcome(Err(why)) => BlockerMove::Failed(why),
            _ => BlockerMove::Stay,
        },
        BlockerStage::Mark => match reply {
            Reply::Outcome(Ok(_)) => BlockerMove::Made,
            Reply::Outcome(Err(why)) => BlockerMove::Failed(why),
            _ => BlockerMove::Stay,
        },
    }
}

} // verus!
