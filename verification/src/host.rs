//! What the engine asks of its host and what the host answers.
//!
//! The engine decides; the host reads and writes. A machine names its next
//! request, the host carries it out on the real file system and hands back the
//! reply, and the machine moves on.

use vstd::prelude::*;

verus! {

/// What the host saw at a path.
#[derive(Clone, Copy, Debug, PartialEq, Eq, Structural)]
pub struct FileProbe {
    /// Something is there and its metadata could be read.
    pub exists: bool,
    /// It is a directory.
    pub is_dir: bool,
    /// Its size in bytes.
    pub size: u64,
    /// It carries the read-only flag.
    pub readonly: bool,
}

/// Whether a read-only flag is to be cleared: something is there and carries
/// the flag.
pub open spec fn flag_set(probe: FileProbe) -> bool {
    probe.exists && probe.readonly
}

impl FileProbe {
    /// Whether a read-only flag is to be cleared before a write or a removal.
    pub fn flag_set(&self) -> (set: bool)
        ensures
            set == flag_set(*self),
    {
        self.exists && self.readonly
    }
}

/// One thing for the host to do.
#[derive(Debug)]
pub enum Request {
    /// Look at `path`. Answered by `Reply::Probed`.
    Probe { path: String },
    /// Read `path` as text. Answered by `Reply::Text`.
    ReadText { path: String },
    /// Clear the read-only flag on `path` and on everything below it, as far
    /// as that can be done: what `attributes::clear_readonly_recursive` does
    /// with the entries found there. Answered by `Reply::Outcome`.
    ClearReadonlyTree { path: String },
    /// Clear the read-only flag on `path` alone. Answered by `Reply::Outcome`.
    ClearReadonly { path: String },
    /// Delete the directory `path` with all it holds. Answered by `Reply::Outcome`.
    RemoveDirAll { path: String },
    /// Delete the file `path`. Answered by `Reply::Outcome`.
    RemoveFile { path: String },
    /// Create the directory `path` and the directories above it. Answered by
    /// `Reply::Outcome`.
    CreateDirAll { path: String },
    /// Replace what `path` holds by `content`. Answered by `Reply::Outcome`.
    WriteText { path: String, content: String },
    /// Set the read-only flag on `path`. Answered by `Reply::Outcome`.
    MarkReadonly { path: String },
    /// Tell whether the protected application runs. Answered by `Reply::Running`.
    CheckRunning,
    /// Clean the caches. Answered by `Reply::Lines`.
    CleanCache,
}

/// `Request` as plain text.
pub enum Ask {
    Probe { path: Seq<char> },
    ReadText { path: Seq<char> },
    ClearReadonlyTree { path: Seq<char> },
    ClearReadonly { path: Seq<char> },
    RemoveDirAll { path: Seq<char> },
    RemoveFile { path: Seq<char> },
    CreateDirAll { path: Seq<char> },
    WriteText { path: Seq<char>, content: Seq<char> },
    MarkReadonly { path: Seq<char> },
    CheckRunning,
    CleanCache,
}

impl View for Request {
    type V = Ask;

    open spec fn view(&self) -> Ask {
        match self {
            Request::Probe { path } => Ask::Probe { path: path@ },
            Request::ReadText { path } => Ask::ReadText { path: path@ },
            Request::ClearReadonlyTree { path } => Ask::ClearReadonlyTree { path: path@ },
            Request::ClearReadonly { path } => Ask::ClearReadonly { path: path@ },
            Request::RemoveDirAll { path } => Ask::RemoveDirAll { path: path@ },
            Request::RemoveFile { path } => Ask::RemoveFile { path: path@ },
            Request::CreateDirAll { path } => Ask::CreateDirAll { path: path@ },
            Request::WriteText { path, content } => Ask::WriteText {
                path: path@,
                content: content@,
            },
            Request::MarkReadonly { path } => Ask::MarkReadonly { path: path@ },
            Request::CheckRunning => Ask::CheckRunning,
            Request::CleanCache => Ask::CleanCache,
        }
    }
}

/// What the host answers.
#[derive(Debug)]
pub enum Reply {
    /// What stands at the path.
    Probed(FileProbe),
    /// The text of the file, or nothing where it could not be read.
    Text(Option<String>),
    /// Done, or the reason why not.
    Outcome(Result<(), String>),
    /// Whether the protected application runs.
    Running(bool),
    /// What the cache cleaner logged.
    Lines(Vec<String>),
}

/// `Reply` as plain text.
pub enum Answer {
    Probed(FileProbe),
    Text(Option<Seq<char>>),
    Outcome(Result<(), Seq<char>>),
    Running(bool),
    Lines(Seq<Seq<char>>),
}

impl View for Reply {
    type V = Answer;

    open spec fn view(&self) -> Answer {
        match self {
            Reply::Probed(probe) => Answer::Probed(*probe),
            Reply::Text(Some(text)) => Answer::Text(Some(text@)),
            Reply::Text(None) => Answer::Text(None),
            Reply::Outcome(Ok(_)) => Answer::Outcome(Ok(())),
            Reply::Outcome(Err(reason)) => Answer::Outcome(Err(reason@)),
            Reply::Running(running) => Answer::Running(*running),
            Reply::Lines(lines) => Answer::Lines(lines.deep_view()),
        }
    }
}

/// Where an operation stands: it waits for the host, or it has ended.
#[derive(Debug)]
pub enum Progress<M, R> {
    /// The machine has a request for the host.
    Ask(M),
    /// The operation has ended with this result.
    Done(R),
}

impl<M: View, R: View> View for Progress<M, R> {
    type V = Progress<M::V, R::V>;

    open spec fn view(&self) -> Progress<M::V, R::V> {
        match self {
            Progress::Ask(machine) => Progress::Ask(machine@),
            Progress::Done(result) => Progress::Done(result@),
        }
    }
}

/// The text of an optional string.
pub open spec fn text_of(text: Option<String>) -> Option<Seq<char>> {
    match text {
        Some(text) => Some(text@),
        None => None,
    }
}

/// The text of an optional string slice.
pub open spec fn str_of(text: Option<&str>) -> Option<Seq<char>> {
    match text {
        Some(text) => Some(text@),
        None => None,
    }
}

/// Adds `line` to the log.
pub fn push_line(logs: &mut Vec<String>, line: String)
    ensures
        final(logs).deep_view() == old(logs).deep_view().push(line@),
{
    logs.push(line);
    assert(logs.deep_view() =~= old(logs).deep_view().push(line@));
}

/// Adds the text `line` to the log.
pub fn push_text(logs: &mut Vec<String>, line: &str)
    ensures
        final(logs).deep_view() == old(logs).deep_view().push(line@),
{
    push_line(logs, line.to_owned());
}

/// Adds the lines of `more` to the log, in their order.
pub fn extend_lines(logs: &mut Vec<String>, more: Vec<String>)
    ensures
        final(logs).deep_view() == old(logs).deep_view() + more.deep_view(),
{
    let ghost added = more.deep_view();
    let mut rest = more;
    logs.append(&mut rest);
    assert(logs.deep_view() =~= old(logs).deep_view() + added);
}

} // verus!
