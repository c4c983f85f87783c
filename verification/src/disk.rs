//! A model of the host's disk, to state what an operation leaves behind.
//!
//! The model keeps what stands at each path and answers every request as a
//! disk would on which nothing else happens. It keeps paths apart: a request
//! changes what stands at its own path and nothing else, and a directory
//! stands for everything below it.

use crate::commands::protector::{status_of, ProtectionStatus};
use crate::host::{Answer, Ask, FileProbe};
use crate::paths::Layout;
use vstd::prelude::*;

verus! {

/// What stands at a path.
pub enum Node {
    /// A file that holds `content`.
    File { content: Seq<char>, readonly: bool },
    /// A directory whose entry has the size `size`.
    Dir { size: u64, readonly: bool },
}

/// What stands at each path; a path that is no key holds nothing.
pub type Disk = Map<Seq<char>, Node>;

/// The size of a file that holds `content`; the model counts characters.
pub open spec fn text_size(content: Seq<char>) -> u64 {
    if content.len() < u64::MAX {
        content.len() as u64
    } else {
        u64::MAX
    }
}

/// What a look at `path` shows.
pub open spec fn probe_at(disk: Disk, path: Seq<char>) -> FileProbe {
    if disk.dom().contains(path) {
        match disk[path] {
            Node::File { content, readonly } => FileProbe {
                exists: true,
                is_dir: false,
                size: text_size(content),
                readonly,
            },
            Node::Dir { size, readonly } => FileProbe { exists: true, is_dir: true, size, readonly },
        }
    } else {
        FileProbe { exists: false, is_dir: false, size: 0, readonly: false }
    }
}

/// The text of the file at `path`, where a file stands there.
pub open spec fn text_at(disk: Disk, path: Seq<char>) -> Option<Seq<char>> {
    if disk.dom().contains(path) {
        match disk[path] {
            Node::File { content, readonly } => Some(content),
            Node::Dir { size, readonly } => None,
        }
    } else {
        None
    }
}

/// `node` with its read-only flag set to `readonly`.
pub open spec fn flagged(node: Node, readonly: bool) -> Node {
    match node {
        Node::File { content, readonly: was } => Node::File { content, readonly },
        Node::Dir { size, readonly: was } => Node::Dir { size, readonly },
    }
}

/// Whether `content` can be written to `path`: nothing stands there, or a
/// file that is not read-only.
pub open spec fn writable(disk: Disk, path: Seq<char>) -> bool {
    !disk.dom().contains(path) || disk[path] matches Node::File { content, readonly: false }
}

/// A blocker: an empty file that is read-only.
pub open spec fn blocker() -> Node {
    Node::File { content: Seq::empty(), readonly: true }
}

/// What the disk is after `ask`, and what the host answers. A request that
/// cannot be met fails for the reason `why` and changes nothing. A file that
/// is read-only can be neither written nor deleted; only a directory can be
/// removed as a directory.
pub open spec fn respond(disk: Disk, ask: Ask, why: Seq<char>) -> (Disk, Answer) {
    match ask {
        Ask::Probe { path } => (disk, Answer::Probed(probe_at(disk, path))),
        Ask::ReadText { path } => (disk, Answer::Text(text_at(disk, path))),
        Ask::ClearReadonlyTree { path } => (unflagged(disk, path), Answer::Outcome(Ok(()))),
        Ask::ClearReadonly { path } => (unflagged(disk, path), Answer::Outcome(Ok(()))),
        Ask::RemoveDirAll { path } => if disk.dom().contains(path) && disk[path] is Dir {
            (disk.remove(path), Answer::Outcome(Ok(())))
        } else {
            (disk, Answer::Outcome(Err(why)))
        },
        Ask::RemoveFile { path } => if disk.dom().contains(path)
            && disk[path] matches Node::File { content, readonly: false } {
            (disk.remove(path), Answer::Outcome(Ok(())))
        } else {
            (disk, Answer::Outcome(Err(why)))
        },
        Ask::CreateDirAll { path } => if !disk.dom().contains(path) {
            (disk.insert(path, Node::Dir { size: 0, readonly: false }), Answer::Outcome(Ok(())))
        } else if disk[path] is Dir {
            (disk, Answer::Outcome(Ok(())))
        } else {
            (disk, Answer::Outcome(Err(why)))
        },
        Ask::WriteText { path, content } => if writable(disk, path) {
            (disk.insert(path, Node::File { content, readonly: false }), Answer::Outcome(Ok(())))
        } else {
            (disk, Answer::Outcome(Err(why)))
        },
        Ask::MarkReadonly { path } => (
            if disk.dom().contains(path) {
                disk.insert(path, flagged(disk[path], true))
            } else {
                disk
            },
            Answer::Outcome(Ok(())),
        ),
        Ask::CheckRunning => (disk, Answer::Running(false)),
        Ask::CleanCache => (disk, Answer::Lines(Seq::empty())),
    }
}

/// The protection status that a look at the disk gives.
pub open spec fn status_on(disk: Disk, paths: Layout) -> ProtectionStatus {
    status_of(
        probe_at(disk, paths.pointer_file),
        probe_at(disk, paths.update_blocker),
        text_at(disk, paths.config_file),
    )
}

/// The disk with the read-only flag cleared on what stands at `path`.
pub open spec fn unflagged(disk: Disk, path: Seq<char>) -> Disk {
    if disk.dom().contains(path) {
        disk.insert(path, flagged(disk[path], false))
    } else {
        disk
    }
}

} // verus!
