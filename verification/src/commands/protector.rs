//! Protection of the installed version: deleting versions, locking the
//! configuration, placing and removing blockers, and telling from the disk
//! alone whether protection is in place.

use crate::blocker::{
    blocker_ask, blocker_move, blocker_request, blocker_step, is_blocker, is_blocker_present,
    BlockerMove, BlockerStage,
};
use crate::config::{
    is_locked, lock_configuration, lock_mark, locked_text, unlock_configuration, unlocked_text,
};
use crate::host::{
    extend_lines, push_line, push_text, str_of, text_of, Answer, Ask, FileProbe, Progress, Reply,
    Request,
};
use crate::paths::{file_name, layout, path_file_name, InstallPaths, Layout, PathStyle};
use crate::text::{concat2, contains_text, decimal, push_decimal};
use vstd::prelude::*;

verus! {

/// How an operation ended, with what it logged on the way.
#[derive(Debug)]
pub struct ProtectionResult {
    pub success: bool,
    pub error: Option<String>,
    pub logs: Vec<String>,
}

/// `ProtectionResult` as plain text.
pub struct Outcome {
    pub success: bool,
    pub error: Option<Seq<char>>,
    pub logs: Seq<Seq<char>>,
}

impl View for ProtectionResult {
    type V = Outcome;

    open spec fn view(&self) -> Outcome {
        Outcome {
            success: self.success,
            error: match self.error {
                Some(why) => Some(why@),
                None => None,
            },
            logs: self.logs.deep_view(),
        }
    }
}

/// Success, with the log so far.
pub open spec fn succeeded(logs: Seq<Seq<char>>) -> Outcome {
    Outcome { success: true, error: None, logs }
}

/// Failure for the reason `why`, with the log so far.
pub open spec fn failed(why: Seq<char>, logs: Seq<Seq<char>>) -> Outcome {
    Outcome { success: false, error: Some(why), logs }
}

impl ProtectionResult {
    /// Success, with the log so far.
    pub fn succeeded(logs: Vec<String>) -> (result: ProtectionResult)
        ensures
            result@ == succeeded(logs.deep_view()),
    {
        ProtectionResult { success: true, error: None, logs }
    }

    /// Failure for the reason `why`, with the log so far.
    pub fn failed(why: String, logs: Vec<String>) -> (result: ProtectionResult)
        ensures
            result@ == failed(why@, logs.deep_view()),
    {
        ProtectionResult { success: false, error: Some(why), logs }
    }
}

/// What the full sequence is asked to do.
#[derive(Debug)]
pub struct ProtectionParams {
    pub versions_to_delete: Vec<String>,
    pub clean_cache: bool,
    pub lock_config: bool,
    pub create_blockers: bool,
}

/// Whether protection is in place, as the disk shows it.
#[derive(Clone, Copy, Debug, PartialEq, Eq, Structural)]
pub struct ProtectionStatus {
    pub is_protected: bool,
    pub config_locked: bool,
    pub blockers_exist: bool,
}

/// What the host found at the three places that protection touches.
#[derive(Debug)]
pub struct Evidence {
    /// What stands at the pointer file.
    pub pointer: FileProbe,
    /// What stands at the place of the downloaded updater.
    pub update: FileProbe,
    /// The text of the configuration file, where it could be read.
    pub config: Option<String>,
}

/// The status that follows from the evidence: a blocker at either place
/// counts, the configuration counts where its text holds the lock mark, and
/// the installation is protected where either holds.
pub open spec fn status_of(
    pointer: FileProbe,
    update: FileProbe,
    config: Option<Seq<char>>,
) -> ProtectionStatus {
    let blockers_exist = is_blocker(pointer) || is_blocker(update);
    let config_locked = config matches Some(text) && contains_text(text, lock_mark());
    ProtectionStatus { is_protected: blockers_exist || config_locked, config_locked, blockers_exist }
}

/// Derives the protection status from what the host found. Without evidence,
/// which is the case where the installation root is unknown, nothing counts
/// as protected.
pub fn check_protection_status(evidence: Option<&Evidence>) -> (status: ProtectionStatus)
    ensures
        evidence matches Some(found) ==> status == status_of(
            found.pointer,
            found.update,
            match found.config {
                Some(text) => Some(text@),
                None => None,
            },
        ),
        evidence is None ==> status == (ProtectionStatus {
            is_protected: false,
            config_locked: false,
            blockers_exist: false,
        }),
        status.is_protected == (status.config_locked || status.blockers_exist),
{
    match evidence {
        None => ProtectionStatus { is_protected: false, config_locked: false, blockers_exist: false },
        Some(found) => {
            let blockers_exist = is_blocker_present(&found.pointer) || is_blocker_present(
                &found.update,
            );
            let config_locked = match &found.config {
                Some(text) => is_locked(text.as_str()),
                None => false,
            };
            ProtectionStatus {
                is_protected: blockers_exist || config_locked,
                config_locked,
                blockers_exist,
            }
        },
    }
}

/// The name under which a version directory is logged: its last component,
/// or nothing where the path has none.
pub open spec fn shown_name(path: Seq<char>, style: PathStyle) -> Seq<char> {
    match file_name(path, style) {
        Some(name) => name,
        None => Seq::empty(),
    }
}

/// The name under which a version directory is logged.
pub fn shown_name_of(path: &str, style: PathStyle) -> (name: String)
    ensures
        name@ == shown_name(path@, style),
{
    match path_file_name(path, style) {
        Some(name) => name,
        None => String::new(),
    }
}

/// Where the deletion of one version directory stands.
#[derive(Clone, Copy, Debug, PartialEq, Eq, Structural)]
pub enum DeleteStage {
    /// Clearing read-only flags below the directory.
    Clear,
    /// Removing the directory.
    Remove,
}

/// The deletion of version directories, one after the other, while it waits
/// for the host.
#[derive(Debug)]
pub struct DeleteRun {
    paths: Vec<String>,
    style: PathStyle,
    at: usize,
    stage: DeleteStage,
    logs: Vec<String>,
}

/// `DeleteRun` as plain values.
pub struct DeleteState {
    /// The directories to delete, in the order asked for.
    pub paths: Seq<Seq<char>>,
    pub style: PathStyle,
    /// The index of the directory being deleted.
    pub at: int,
    pub stage: DeleteStage,
    pub logs: Seq<Seq<char>>,
}

/// The deletion from directory `at` on: the line that announces it and the
/// request to clear flags, or, behind the last directory, success with the
/// line that sums up.
pub open spec fn delete_from(
    paths: Seq<Seq<char>>,
    style: PathStyle,
    at: int,
    logs: Seq<Seq<char>>,
) -> Progress<DeleteState, Outcome> {
    if 0 <= at < paths.len() {
        Progress::Ask(
            DeleteState {
                paths,
                style,
                at,
                stage: DeleteStage::Clear,
                logs: logs.push("Deleting: "@ + shown_name(paths[at], style)),
            },
        )
    } else if paths.len() == 0 {
        Progress::Done(succeeded(logs.push("[OK] No versions to delete"@)))
    } else {
        Progress::Done(
            succeeded(logs.push("[OK] Deleted "@ + decimal(paths.len()) + " version(s)"@)),
        )
    }
}

impl DeleteState {
    /// What the deletion asks of the host.
    pub open spec fn ask(self) -> Ask {
        match self.stage {
            DeleteStage::Clear => Ask::ClearReadonlyTree { path: self.paths[self.at] },
            DeleteStage::Remove => Ask::RemoveDirAll { path: self.paths[self.at] },
        }
    }

    /// What follows on `answer`. A failure to clear flags is logged as a
    /// warning and the removal is asked for all the same. A removal that
    /// fails ends the deletion at once, with the log as it stands; one that
    /// succeeds leads to the next directory.
    pub open spec fn next(self, answer: Answer) -> Progress<DeleteState, Outcome> {
        match (self.stage, answer) {
            (DeleteStage::Clear, Answer::Outcome(Ok(_))) => Progress::Ask(
                DeleteState { stage: DeleteStage::Remove, ..self },
            ),
            (DeleteStage::Clear, Answer::Outcome(Err(why))) => Progress::Ask(
                DeleteState {
                    stage: DeleteStage::Remove,
                    logs: self.logs.push("[!] Warning: "@ + why),
                    ..self
                },
            ),
            (DeleteStage::Remove, Answer::Outcome(Ok(_))) => delete_from(
                self.paths,
                self.style,
                self.at + 1,
                self.logs,
            ),
            (DeleteStage::Remove, Answer::Outcome(Err(why))) => Progress::Done(
                failed(
                    "Failed to delete "@ + shown_name(self.paths[self.at], self.style) + ": "@ + why,
                    self.logs,
                ),
            ),
            _ => Progress::Ask(self),
        }
    }
}

impl View for DeleteRun {
    type V = DeleteState;

    closed spec fn view(&self) -> DeleteState {
        DeleteState {
            paths: self.paths.deep_view(),
            style: self.style,
            at: self.at as int,
            stage: self.stage,
            logs: self.logs.deep_view(),
        }
    }
}

fn delete_at(paths: Vec<String>, style: PathStyle, at: usize, logs: Vec<String>) -> (progress:
    Progress<DeleteRun, ProtectionResult>)
    ensures
        progress@ == delete_from(paths.deep_view(), style, at as int, logs.deep_view()),
{
    let mut logs = logs;
    if at < paths.len() {
        let name = shown_name_of(paths[at].as_str(), style);
        push_line(&mut logs, concat2("Deleting: ", name.as_str()));
        Progress::Ask(DeleteRun { paths, style, at, stage: DeleteStage::Clear, logs })
    } else if paths.len() == 0 {
        push_text(&mut logs, "[OK] No versions to delete");
        Progress::Done(ProtectionResult::succeeded(logs))
    } else {
        let mut line = "[OK] Deleted ".to_owned();
        push_decimal(&mut line, paths.len());
        line.append(" version(s)");
        push_line(&mut logs, line);
        Progress::Done(ProtectionResult::succeeded(logs))
    }
}

/// Starts the deletion of the version directories `paths`, in their order.
/// With no directory to delete it ends at once, in success, with one line in
/// the log and no request to the host.
pub fn delete_versions(paths: Vec<String>, style: PathStyle) -> (progress: Progress<
    DeleteRun,
    ProtectionResult,
>)
    ensures
        progress@ == delete_from(paths.deep_view(), style, 0, Seq::empty()),
        paths.len() == 0 ==> progress@ == Progress::<DeleteState, Outcome>::Done(
            succeeded(seq!["[OK] No versions to delete"@]),
        ),
{
    let logs: Vec<String> = Vec::new();
    assert(logs.deep_view() == Seq::<Seq<char>>::empty());
    let progress = delete_at(paths, style, 0, logs);
    assert(Seq::<Seq<char>>::empty().push("[OK] No versions to delete"@) == seq![
        "[OK] No versions to delete"@,
    ]);
    progress
}

impl DeleteRun {
    #[verifier::type_invariant]
    spec fn valid(self) -> bool {
        self.at < self.paths.len()
    }

    /// What the host is to do next.
    pub fn request(&self) -> (request: Request)
        ensures
            request@ == self@.ask(),
    {
        proof {
            use_type_invariant(self);
        }
        match self.stage {
            DeleteStage::Clear => Request::ClearReadonlyTree { path: self.paths[self.at].clone() },
            DeleteStage::Remove => Request::RemoveDirAll { path: self.paths[self.at].clone() },
        }
    }

    /// Takes the host's reply and goes on. A reply that answers another kind
    /// of request leaves the run as it is.
    pub fn resume(self, reply: Reply) -> (progress: Progress<DeleteRun, ProtectionResult>)
        ensures
            progress@ == self@.next(reply@),
    {
        proof {
            use_type_invariant(&self);
        }
        let ghost start = self@;
        let DeleteRun { paths, style, at, stage, logs } = self;
        let mut logs = logs;
        match stage {
            DeleteStage::Clear => match reply {
                Reply::Outcome(Ok(_)) => Progress::Ask(
                    DeleteRun { paths, style, at, stage: DeleteStage::Remove, logs },
                ),
                Reply::Outcome(Err(why)) => {
                    push_line(&mut logs, concat2("[!] Warning: ", why.as_str()));
                    Progress::Ask(DeleteRun { paths, style, at, stage: DeleteStage::Remove, logs })
                },
                _ => Progress::Ask(DeleteRun { paths, style, at, stage, logs }),
            },
            DeleteStage::Remove => match reply {
                Reply::Outcome(Ok(_)) => delete_at(paths, style, at + 1, logs),
                Reply::Outcome(Err(why)) => {
                    let name = shown_name_of(paths[at].as_str(), style);
                    let mut reason = concat2("Failed to delete ", name.as_str());
                    reason.append(": ");
                    reason.append(why.as_str());
                    Progress::Done(ProtectionResult::failed(reason, logs))
                },
                _ => Progress::Ask(DeleteRun { paths, style, at, stage, logs }),
            },
        }
    }
}

/// Where the applying of protection stands.
#[derive(Clone, Copy, Debug, PartialEq, Eq, Structural)]
pub enum ApplyStage {
    /// Reading the configuration file.
    ReadConfig,
    /// Writing the locked configuration.
    WriteConfig,
    /// Making the blocker at the pointer file.
    Pointer(BlockerStage),
    /// Creating the download directory.
    MakeDirs,
    /// Making the blocker at the place of the downloaded updater.
    Update(BlockerStage),
}

/// The applying of protection while it waits for the host.
#[derive(Debug)]
pub struct ApplyRun {
    paths: InstallPaths,
    create_blockers: bool,
    stage: ApplyStage,
    pending: String,
    logs: Vec<String>,
}

/// `ApplyRun` as plain values.
pub struct ApplyState {
    pub paths: Layout,
    /// Whether blockers are to be made once the configuration is done with.
    pub create_blockers: bool,
    pub stage: ApplyStage,
    /// The configuration body that is to be written.
    pub pending: Seq<char>,
    pub logs: Seq<Seq<char>>,
}

/// The part of applying that deals with blockers: the first request for the
/// blocker at the pointer file, or, where none are wanted, success.
pub open spec fn blockers_phase(
    paths: Layout,
    create_blockers: bool,
    pending: Seq<char>,
    logs: Seq<Seq<char>>,
) -> Progress<ApplyState, Outcome> {
    if create_blockers {
        Progress::Ask(
            ApplyState {
                paths,
                create_blockers,
                stage: ApplyStage::Pointer(BlockerStage::Probe),
                pending,
                logs: logs.push("Creating blockers..."@),
            },
        )
    } else {
        Progress::Done(succeeded(logs.push("Skipping blocker creation (disabled)"@)))
    }
}

/// The start of applying protection. Without a data directory it fails
/// before anything is asked of the host. The configuration comes first,
/// where it is to be locked; the blockers follow.
pub open spec fn apply_start(
    data_dir: Option<Seq<char>>,
    style: PathStyle,
    lock_config: bool,
    create_blockers: bool,
) -> Progress<ApplyState, Outcome> {
    match data_dir {
        None => Progress::Done(failed("Failed to get LOCALAPPDATA"@, Seq::empty())),
        Some(dir) => if lock_config {
            Progress::Ask(
                ApplyState {
                    paths: layout(dir, style),
                    create_blockers,
                    stage: ApplyStage::ReadConfig,
                    pending: Seq::empty(),
                    logs: seq!["Modifying config..."@],
                },
            )
        } else {
            blockers_phase(
                layout(dir, style),
                create_blockers,
                Seq::empty(),
                seq!["Skipping config lock (disabled)"@],
            )
        },
    }
}

impl ApplyState {
    /// What applying asks of the host.
    pub open spec fn ask(self) -> Ask {
        match self.stage {
            ApplyStage::ReadConfig => Ask::ReadText { path: self.paths.config_file },
            ApplyStage::WriteConfig => Ask::WriteText {
                path: self.paths.config_file,
                content: self.pending,
            },
            ApplyStage::Pointer(at) => blocker_ask(at, self.paths.pointer_file),
            ApplyStage::MakeDirs => Ask::CreateDirAll { path: self.paths.download_dir },
            ApplyStage::Update(at) => blocker_ask(at, self.paths.update_blocker),
        }
    }

    /// What follows on `answer`. The configuration is locked from what was
    /// read, an unreadable or missing file counting as empty. The first step
    /// that fails ends the applying with its reason and the log as it
    /// stands; what was done before stays done.
    pub open spec fn next(self, answer: Answer) -> Progress<ApplyState, Outcome> {
        match self.stage {
            ApplyStage::ReadConfig => match answer {
                Answer::Text(text) => Progress::Ask(
                    ApplyState {
                        stage: ApplyStage::WriteConfig,
                        pending: locked_text(
                            match text {
                                Some(body) => body,
                                None => Seq::empty(),
                            },
                        ),
                        ..self
                    },
                ),
                _ => Progress::Ask(self),
            },
            ApplyStage::WriteConfig => match answer {
                Answer::Outcome(Ok(_)) => blockers_phase(
                    self.paths,
                    self.create_blockers,
                    self.pending,
                    self.logs.push("[OK] Configuration locked"@),
                ),
                Answer::Outcome(Err(why)) => Progress::Done(failed(why, self.logs)),
                _ => Progress::Ask(self),
            },
            ApplyStage::Pointer(at) => match blocker_move(at, answer) {
                BlockerMove::Stay => Progress::Ask(self),
                BlockerMove::Go(to) => Progress::Ask(
                    ApplyState { stage: ApplyStage::Pointer(to), ..self },
                ),
                BlockerMove::Made => Progress::Ask(ApplyState { stage: ApplyStage::MakeDirs, ..self }),
                BlockerMove::Failed(why) => Progress::Done(failed(why, self.logs)),
            },
            ApplyStage::MakeDirs => match answer {
                Answer::Outcome(Ok(_)) => Progress::Ask(
                    ApplyState { stage: ApplyStage::Update(BlockerStage::Probe), ..self },
                ),
                Answer::Outcome(Err(why)) => Progress::Done(failed(why, self.logs)),
                _ => Progress::Ask(self),
            },
            ApplyStage::Update(at) => match blocker_move(at, answer) {
                BlockerMove::Stay => Progress::Ask(self),
                BlockerMove::Go(to) => Progress::Ask(
                    ApplyState { stage: ApplyStage::Update(to), ..self },
                ),
                BlockerMove::Made => Progress::Done(
                    succeeded(self.logs.push("[OK] Update blockers created"@)),
                ),
                BlockerMove::Failed(why) => Progress::Done(failed(why, self.logs)),
            },
        }
    }
}

impl View for ApplyRun {
    type V = ApplyState;

    closed spec fn view(&self) -> ApplyState {
        ApplyState {
            paths: self.paths@,
            create_blockers: self.create_blockers,
            stage: self.stage,
            pending: self.pending@,
            logs: self.logs.deep_view(),
        }
    }
}

fn start_blockers(
    paths: InstallPaths,
    create_blockers: bool,
    pending: String,
    logs: Vec<String>,
) -> (progress: Progress<ApplyRun, ProtectionResult>)
    ensures
        progress@ == blockers_phase(paths@, create_blockers, pending@, logs.deep_view()),
{
    let mut logs = logs;
    if create_blockers {
        push_text(&mut logs, "Creating blockers...");
        Progress::Ask(
            ApplyRun {
                paths,
                create_blockers,
                stage: ApplyStage::Pointer(BlockerStage::Probe),
                pending,
                logs,
            },
        )
    } else {
        push_text(&mut logs, "Skipping blocker creation (disabled)");
        Progress::Done(ProtectionResult::succeeded(logs))
    }
}

/// Starts applying protection below the data directory `data_dir`: the
/// configuration is locked where `lock_config` says so, then both blockers
/// are made where `create_blockers` says so.
pub fn apply_protection_with_options(
    data_dir: Option<&str>,
    style: PathStyle,
    lock_config: bool,
    create_blockers: bool,
) -> (progress: Progress<ApplyRun, ProtectionResult>)
    ensures
        progress@ == apply_start(str_of(data_dir), style, lock_config, create_blockers),
{
    let mut logs: Vec<String> = Vec::new();
    assert(logs.deep_view() == Seq::<Seq<char>>::empty());
    match data_dir {
        None => Progress::Done(
            ProtectionResult::failed("Failed to get LOCALAPPDATA".to_owned(), logs),
        ),
        Some(dir) => {
            let paths = InstallPaths::resolve(dir, style);
            if lock_config {
                push_text(&mut logs, "Modifying config...");
                assert(logs.deep_view() == seq!["Modifying config..."@]);
                Progress::Ask(
                    ApplyRun {
                        paths,
                        create_blockers,
                        stage: ApplyStage::ReadConfig,
                        pending: String::new(),
                        logs,
                    },
                )
            } else {
                push_text(&mut logs, "Skipping config lock (disabled)");
                assert(logs.deep_view() == seq!["Skipping config lock (disabled)"@]);
                start_blockers(paths, create_blockers, String::new(), logs)
            }
        },
    }
}

/// Starts applying the whole protection: the configuration lock and both
/// blockers.
pub fn apply_protection(data_dir: Option<&str>, style: PathStyle) -> (progress: Progress<
    ApplyRun,
    ProtectionResult,
>)
    ensures
        progress@ == apply_start(str_of(data_dir), style, true, true),
{
    apply_protection_with_options(data_dir, style, true, true)
}

impl ApplyRun {
    /// What the host is to do next.
    pub fn request(&self) -> (request: Request)
        ensures
            request@ == self@.ask(),
    {
        match self.stage {
            ApplyStage::ReadConfig => Request::ReadText { path: self.paths.config_file.clone() },
            ApplyStage::WriteConfig => Request::WriteText {
                path: self.paths.config_file.clone(),
                content: self.pending.clone(),
            },
            ApplyStage::Pointer(at) => blocker_request(at, &self.paths.pointer_file),
            ApplyStage::MakeDirs => Request::CreateDirAll {
                path: self.paths.download_dir.clone(),
            },
            ApplyStage::Update(at) => blocker_request(at, &self.paths.update_blocker),
        }
    }

    /// Takes the host's reply and goes on. A reply that answers another kind
    /// of request leaves the run as it is.
    pub fn resume(self, reply: Reply) -> (progress: Progress<ApplyRun, ProtectionResult>)
        ensures
            progress@ == self@.next(reply@),
    {
        let ApplyRun { paths, create_blockers, stage, pending, logs } = self;
        let mut logs = logs;
        match stage {
            ApplyStage::ReadConfig => match reply {
                Reply::Text(text) => {
                    let body = match text {
                        Some(body) => lock_configuration(body.as_str()),
                        None => lock_configuration(""),
                    };
                    proof {
                        reveal_strlit("");
                        assert(""@ == Seq::<char>::empty());
                    }
                    Progress::Ask(
                        ApplyRun {
                            paths,
                            create_blockers,
                            stage: ApplyStage::WriteConfig,
                            pending: body,
                            logs,
                        },
                    )
                },
                _ => Progress::Ask(ApplyRun { paths, create_blockers, stage, pending, logs }),
            },
            ApplyStage::WriteConfig => match reply {
                Reply::Outcome(Ok(_)) => {
                    push_text(&mut logs, "[OK] Configuration locked");
                    start_blockers(paths, create_blockers, pending, logs)
                },
                Reply::Outcome(Err(why)) => Progress::Done(ProtectionResult::failed(why, logs)),
                _ => Progress::Ask(ApplyRun { paths, create_blockers, stage, pending, logs }),
            },
            ApplyStage::Pointer(at) => match blocker_step(at, reply) {
                BlockerMove::Stay => Progress::Ask(
                    ApplyRun { paths, create_blockers, stage, pending, logs },
                ),
                BlockerMove::Go(to) => Progress::Ask(
                    ApplyRun { paths, create_blockers, stage: ApplyStage::Pointer(to), pending, logs },
                ),
                BlockerMove::Made => Progress::Ask(
                    ApplyRun { paths, create_blockers, stage: ApplyStage::MakeDirs, pending, logs },
                ),
                BlockerMove::Failed(why) => Progress::Done(ProtectionResult::failed(why, logs)),
            },
            ApplyStage::MakeDirs => match reply {
                Reply::Outcome(Ok(_)) => Progress::Ask(
                    ApplyRun {
                        paths,
                        create_blockers,
                        stage: ApplyStage::Update(BlockerStage::Probe),
                        pending,
                        logs,
                    },
                ),
                Reply::Outcome(Err(why)) => Progress::Done(ProtectionResult::failed(why, logs)),
                _ => Progress::Ask(ApplyRun { paths, create_blockers, stage, pending, logs }),
            },
            ApplyStage::Update(at) => match blocker_step(at, reply) {
                BlockerMove::Stay => Progress::Ask(
                    ApplyRun { paths, create_blockers, stage, pending, logs },
                ),
                BlockerMove::Go(to) => Progress::Ask(
                    ApplyRun { paths, create_blockers, stage: ApplyStage::Update(to), pending, logs },
                ),
                BlockerMove::Made => {
                    push_text(&mut logs, "[OK] Update blockers created");
                    Progress::Done(ProtectionResult::succeeded(logs))
                },
                BlockerMove::Failed(why) => Progress::Done(ProtectionResult::failed(why, logs)),
            },
        }
    }
}

/// One of the two places where a blocker stands.
#[derive(Clone, Copy, Debug, PartialEq, Eq, Structural)]
pub enum Slot {
    /// The pointer file.
    Pointer,
    /// The place of the downloaded updater.
    Update,
}

/// The path of the blocker at `slot`.
pub open spec fn slot_path(paths: Layout, slot: Slot) -> Seq<char> {
    match slot {
        Slot::Pointer => paths.pointer_file,
        Slot::Update => paths.update_blocker,
    }
}

/// The name under which the blocker at `slot` is logged.
pub open spec fn slot_name(slot: Slot) -> Seq<char> {
    match slot {
        Slot::Pointer => "ProductInfo.xml"@,
        Slot::Update => "update.exe"@,
    }
}

/// Where the removal of protection stands.
#[derive(Clone, Copy, Debug, PartialEq, Eq, Structural)]
pub enum RemoveStage {
    /// Looking for the blocker.
    Probe(Slot),
    /// Clearing its read-only flag.
    Clear(Slot),
    /// Deleting it.
    Remove(Slot),
    /// Looking for the configuration file.
    ProbeConfig,
    /// Reading the configuration file.
    ReadConfig,
    /// Writing the unlocked configuration.
    WriteConfig,
}

/// The removal of protection while it waits for the host.
#[derive(Debug)]
pub struct RemoveRun {
    paths: InstallPaths,
    stage: RemoveStage,
    pending: String,
    logs: Vec<String>,
}

/// `RemoveRun` as plain values.
pub struct RemoveState {
    pub paths: Layout,
    pub stage: RemoveStage,
    /// The configuration body that is to be written.
    pub pending: Seq<char>,
    pub logs: Seq<Seq<char>>,
}

/// The end of the removal: always success.
pub open spec fn removal_done(logs: Seq<Seq<char>>) -> Progress<RemoveState, Outcome> {
    Progress::Done(succeeded(logs.push("[OK] Protection removed - CapCut can now auto-update"@)))
}

/// The start of removing protection. Without a data directory it fails
/// before anything is asked of the host.
pub open spec fn remove_start(data_dir: Option<Seq<char>>, style: PathStyle) -> Progress<
    RemoveState,
    Outcome,
> {
    match data_dir {
        None => Progress::Done(failed("Failed to get LOCALAPPDATA"@, Seq::empty())),
        Some(dir) => Progress::Ask(
            RemoveState {
                paths: layout(dir, style),
                stage: RemoveStage::Probe(Slot::Pointer),
                pending: Seq::empty(),
                logs: Seq::empty(),
            },
        ),
    }
}

impl RemoveState {
    /// What the removal asks of the host.
    pub open spec fn ask(self) -> Ask {
        match self.stage {
            RemoveStage::Probe(slot) => Ask::Probe { path: slot_path(self.paths, slot) },
            RemoveStage::Clear(slot) => Ask::ClearReadonlyTree { path: slot_path(self.paths, slot) },
            RemoveStage::Remove(slot) => Ask::RemoveFile { path: slot_path(self.paths, slot) },
            RemoveStage::ProbeConfig => Ask::Probe { path: self.paths.config_file },
            RemoveStage::ReadConfig => Ask::ReadText { path: self.paths.config_file },
            RemoveStage::WriteConfig => Ask::WriteText {
                path: self.paths.config_file,
                content: self.pending,
            },
        }
    }

    /// The removal once it is done with the blocker at `slot`.
    pub open spec fn past(self, slot: Slot, logs: Seq<Seq<char>>) -> Progress<RemoveState, Outcome> {
        Progress::Ask(
            RemoveState {
                stage: match slot {
                    Slot::Pointer => RemoveStage::Probe(Slot::Update),
                    Slot::Update => RemoveStage::ProbeConfig,
                },
                logs,
                ..self
            },
        )
    }

    /// What follows on `answer`. Both blockers are taken in turn, then the
    /// configuration. Nothing that fails on the way ends the removal: it
    /// is logged and the next step follows.
    pub open spec fn next(self, answer: Answer) -> Progress<RemoveState, Outcome> {
        match (self.stage, answer) {
            (RemoveStage::Probe(slot), Answer::Probed(probe)) => if probe.exists {
                Progress::Ask(
                    RemoveState {
                        stage: RemoveStage::Clear(slot),
                        logs: self.logs.push("Removing "@ + slot_name(slot) + " blocker..."@),
                        ..self
                    },
                )
            } else {
                self.past(slot, self.logs)
            },
            (RemoveStage::Clear(slot), Answer::Outcome(Ok(_))) => Progress::Ask(
                RemoveState { stage: RemoveStage::Remove(slot), ..self },
            ),
            (RemoveStage::Clear(slot), Answer::Outcome(Err(why))) => Progress::Ask(
                RemoveState {
                    stage: RemoveStage::Remove(slot),
                    logs: self.logs.push("[!] Warning: "@ + why),
                    ..self
                },
            ),
            (RemoveStage::Remove(slot), Answer::Outcome(Ok(_))) => self.past(
                slot,
                self.logs.push("[OK] "@ + slot_name(slot) + " blocker removed"@),
            ),
            (RemoveStage::Remove(slot), Answer::Outcome(Err(why))) => self.past(
                slot,
                self.logs.push("[!] Could not remove "@ + slot_name(slot) + ": "@ + why),
            ),
            (RemoveStage::ProbeConfig, Answer::Probed(probe)) => if probe.exists {
                Progress::Ask(
                    RemoveState {
                        stage: RemoveStage::ReadConfig,
                        logs: self.logs.push("Resetting configure.ini..."@),
                        ..self
                    },
                )
            } else {
                removal_done(self.logs)
            },
            (RemoveStage::ReadConfig, Answer::Text(Some(body))) => Progress::Ask(
                RemoveState { stage: RemoveStage::WriteConfig, pending: unlocked_text(body), ..self },
            ),
            (RemoveStage::ReadConfig, Answer::Text(None)) => removal_done(self.logs),
            (RemoveStage::WriteConfig, Answer::Outcome(Ok(_))) => removal_done(
                self.logs.push("[OK] configure.ini reset"@),
            ),
            (RemoveStage::WriteConfig, Answer::Outcome(Err(why))) => removal_done(
                self.logs.push("[!] Could not reset configure.ini: "@ + why),
            ),
            _ => Progress::Ask(self),
        }
    }
}

impl View for RemoveRun {
    type V = RemoveState;

    closed spec fn view(&self) -> RemoveState {
        RemoveState {
            paths: self.paths@,
            stage: self.stage,
            pending: self.pending@,
            logs: self.logs.deep_view(),
        }
    }
}

fn finish_removal(logs: Vec<String>) -> (progress: Progress<RemoveRun, ProtectionResult>)
    ensures
        progress@ == removal_done(logs.deep_view()),
{
    let mut logs = logs;
    push_text(&mut logs, "[OK] Protection removed - CapCut can now auto-update");
    Progress::Done(ProtectionResult::succeeded(logs))
}

fn slot_label(slot: Slot) -> (name: &'static str)
    ensures
        name@ == slot_name(slot),
{
    match slot {
        Slot::Pointer => "ProductInfo.xml",
        Slot::Update => "update.exe",
    }
}

/// Starts removing protection below the data directory `data_dir`: both
/// blockers, then the lock in the configuration.
pub fn remove_protection(data_dir: Option<&str>, style: PathStyle) -> (progress: Progress<
    RemoveRun,
    ProtectionResult,
>)
    ensures
        progress@ == remove_start(str_of(data_dir), style),
{
    let logs: Vec<String> = Vec::new();
    assert(logs.deep_view() == Seq::<Seq<char>>::empty());
    match data_dir {
        None => Progress::Done(
            ProtectionResult::failed("Failed to get LOCALAPPDATA".to_owned(), logs),
        ),
        Some(dir) => Progress::Ask(
            RemoveRun {
                paths: InstallPaths::resolve(dir, style),
                stage: RemoveStage::Probe(Slot::Pointer),
                pending: String::new(),
                logs,
            },
        ),
    }
}

impl RemoveRun {
    fn slot_file(&self, slot: Slot) -> (path: String)
        ensures
            path@ == slot_path(self@.paths, slot),
    {
        match slot {
            Slot::Pointer => self.paths.pointer_file.clone(),
            Slot::Update => self.paths.update_blocker.clone(),
        }
    }

    fn go_past(self, slot: Slot) -> (progress: Progress<RemoveRun, ProtectionResult>)
        ensures
            progress@ == self@.past(slot, self@.logs),
    {
        let RemoveRun { paths, stage, pending, logs } = self;
        let stage = match slot {
            Slot::Pointer => RemoveStage::Probe(Slot::Update),
            Slot::Update => RemoveStage::ProbeConfig,
        };
        Progress::Ask(RemoveRun { paths, stage, pending, logs })
    }

    /// What the host is to do next.
    pub fn request(&self) -> (request: Request)
        ensures
            request@ == self@.ask(),
    {
        match self.stage {
            RemoveStage::Probe(slot) => Request::Probe { path: self.slot_file(slot) },
            RemoveStage::Clear(slot) => Request::ClearReadonlyTree { path: self.slot_file(slot) },
            RemoveStage::Remove(slot) => Request::RemoveFile { path: self.slot_file(slot) },
            RemoveStage::ProbeConfig => Request::Probe { path: self.paths.config_file.clone() },
            RemoveStage::ReadConfig => Request::ReadText { path: self.paths.config_file.clone() },
            RemoveStage::WriteConfig => Request::WriteText {
                path: self.paths.config_file.clone(),
                content: self.pending.clone(),
            },
        }
    }

    /// Takes the host's reply and goes on. A reply that answers another kind
    /// of request leaves the run as it is.
    pub fn resume(self, reply: Reply) -> (progress: Progress<RemoveRun, ProtectionResult>)
        ensures
            progress@ == self@.next(reply@),
    {
        let RemoveRun { paths, stage, pending, logs } = self;
        let mut logs = logs;
        match stage {
            RemoveStage::Probe(slot) => match reply {
                Reply::Probed(probe) => if probe.exists {
                    let mut line = concat2("Removing ", slot_label(slot));
                    line.append(" blocker...");
                    push_line(&mut logs, line);
                    Progress::Ask(
                        RemoveRun { paths, stage: RemoveStage::Clear(slot), pending, logs },
                    )
                } else {
                    (RemoveRun { paths, stage, pending, logs }).go_past(slot)
                },
                _ => Progress::Ask(RemoveRun { paths, stage, pending, logs }),
            },
            RemoveStage::Clear(slot) => match reply {
                Reply::Outcome(Ok(_)) => Progress::Ask(
                    RemoveRun { paths, stage: RemoveStage::Remove(slot), pending, logs },
                ),
                Reply::Outcome(Err(why)) => {
                    push_line(&mut logs, concat2("[!] Warning: ", why.as_str()));
                    Progress::Ask(
                        RemoveRun { paths, stage: RemoveStage::Remove(slot), pending, logs },
                    )
                },
                _ => Progress::Ask(RemoveRun { paths, stage, pending, logs }),
            },
            RemoveStage::Remove(slot) => match reply {
                Reply::Outcome(Ok(_)) => {
                    let mut line = concat2("[OK] ", slot_label(slot));
                    line.append(" blocker removed");
                    push_line(&mut logs, line);
                    (RemoveRun { paths, stage, pending, logs }).go_past(slot)
                },
                Reply::Outcome(Err(why)) => {
                    let mut line = concat2("[!] Could not remove ", slot_label(slot));
                    line.append(": ");
                    line.append(why.as_str());
                    push_line(&mut logs, line);
                    (RemoveRun { paths, stage, pending, logs }).go_past(slot)
                },
                _ => Progress::Ask(RemoveRun { paths, stage, pending, logs }),
            },
            RemoveStage::ProbeConfig => match reply {
                Reply::Probed(probe) => if probe.exists {
                    push_text(&mut logs, "Resetting configure.ini...");
                    Progress::Ask(RemoveRun { paths, stage: RemoveStage::ReadConfig, pending, logs })
                } else {
                    finish_removal(logs)
                },
                _ => Progress::Ask(RemoveRun { paths, stage, pending, logs }),
            },
            RemoveStage::ReadConfig => match reply {
                Reply::Text(Some(body)) => Progress::Ask(
                    RemoveRun {
                        paths,
                        stage: RemoveStage::WriteConfig,
                        pending: unlock_configuration(body.as_str()),
                        logs,
                    },
                ),
                Reply::Text(None) => finish_removal(logs),
                _ => Progress::Ask(RemoveRun { paths, stage, pending, logs }),
            },
            RemoveStage::WriteConfig => match reply {
                Reply::Outcome(Ok(_)) => {
                    push_text(&mut logs, "[OK] configure.ini reset");
                    finish_removal(logs)
                },
                Reply::Outcome(Err(why)) => {
                    push_line(
                        &mut logs,
                        concat2("[!] Could not reset configure.ini: ", why.as_str()),
                    );
                    finish_removal(logs)
                },
                _ => Progress::Ask(RemoveRun { paths, stage, pending, logs }),
            },
        }
    }
}

/// What the full sequence keeps of its orders once it runs.
#[derive(Debug)]
pub struct Orders {
    data_dir: Option<String>,
    style: PathStyle,
    clean_cache: bool,
    lock_config: bool,
    create_blockers: bool,
}

/// `Orders` as plain values.
pub struct Plan {
    pub data_dir: Option<Seq<char>>,
    pub style: PathStyle,
    pub clean_cache: bool,
    pub lock_config: bool,
    pub create_blockers: bool,
}

impl View for Orders {
    type V = Plan;

    closed spec fn view(&self) -> Plan {
        Plan {
            data_dir: text_of(self.data_dir),
            style: self.style,
            clean_cache: self.clean_cache,
            lock_config: self.lock_config,
            create_blockers: self.create_blockers,
        }
    }
}

/// Where the full sequence stands.
#[derive(Debug)]
pub enum FullStage {
    /// Asking whether the protected application runs.
    CheckRunning { versions: Vec<String> },
    /// Deleting version directories.
    Deleting(DeleteRun),
    /// Cleaning the caches.
    Cleaning,
    /// Applying protection.
    Applying(ApplyRun),
}

/// `FullStage` as plain values.
pub enum FullPhase {
    CheckRunning { versions: Seq<Seq<char>> },
    Deleting(DeleteState),
    Cleaning,
    Applying(ApplyState),
}

impl View for FullStage {
    type V = FullPhase;

    closed spec fn view(&self) -> FullPhase {
        match self {
            FullStage::CheckRunning { versions } => FullPhase::CheckRunning {
                versions: versions.deep_view(),
            },
            FullStage::Deleting(run) => FullPhase::Deleting(run@),
            FullStage::Cleaning => FullPhase::Cleaning,
            FullStage::Applying(run) => FullPhase::Applying(run@),
        }
    }
}

/// The full sequence while it waits for the host.
#[derive(Debug)]
pub struct FullRun {
    orders: Orders,
    stage: FullStage,
    logs: Vec<String>,
}

/// `FullRun` as plain values.
pub struct FullState {
    pub plan: Plan,
    pub phase: FullPhase,
    /// The one log of the whole sequence, without the lines of a stage that
    /// is still under way.
    pub logs: Seq<Seq<char>>,
}

impl View for FullRun {
    type V = FullState;

    closed spec fn view(&self) -> FullState {
        FullState { plan: self.orders@, phase: self.stage@, logs: self.logs.deep_view() }
    }
}

/// The end of the sequence on the result of a stage: the stage's lines are
/// added to the log, and its failure is the failure of the sequence.
pub open spec fn closing(logs: Seq<Seq<char>>, result: Outcome) -> Outcome {
    if result.success {
        succeeded(logs + result.logs)
    } else {
        Outcome { success: false, error: result.error, logs: logs + result.logs }
    }
}

/// The last stage: protection is applied where either part of it is wanted.
pub open spec fn protect_phase(plan: Plan, logs: Seq<Seq<char>>) -> Progress<FullState, Outcome> {
    if plan.lock_config || plan.create_blockers {
        after_apply(
            plan,
            logs,
            apply_start(plan.data_dir, plan.style, plan.lock_config, plan.create_blockers),
        )
    } else {
        Progress::Done(succeeded(logs.push("Skipping protection (all options disabled)"@)))
    }
}

/// The sequence after one step of applying protection.
pub open spec fn after_apply(
    plan: Plan,
    logs: Seq<Seq<char>>,
    step: Progress<ApplyState, Outcome>,
) -> Progress<FullState, Outcome> {
    match step {
        Progress::Ask(run) => Progress::Ask(FullState { plan, phase: FullPhase::Applying(run), logs }),
        Progress::Done(result) => Progress::Done(closing(logs, result)),
    }
}

/// The stage behind the deletion: the caches are cleaned where that is
/// wanted.
pub open spec fn cache_phase(plan: Plan, logs: Seq<Seq<char>>) -> Progress<FullState, Outcome> {
    if plan.clean_cache {
        Progress::Ask(
            FullState {
                plan,
                phase: FullPhase::Cleaning,
                logs: logs.push("Cleaning cache directories..."@),
            },
        )
    } else {
        protect_phase(plan, logs.push("Skipping cache cleaning (disabled)"@))
    }
}

/// The sequence after one step of the deletion: a deletion that failed ends
/// the sequence.
pub open spec fn after_delete(
    plan: Plan,
    logs: Seq<Seq<char>>,
    step: Progress<DeleteState, Outcome>,
) -> Progress<FullState, Outcome> {
    match step {
        Progress::Ask(run) => Progress::Ask(FullState { plan, phase: FullPhase::Deleting(run), logs }),
        Progress::Done(result) => if result.success {
            cache_phase(plan, logs + result.logs)
        } else {
            Progress::Done(closing(logs, result))
        },
    }
}

/// The start of the full sequence: the question whether the protected
/// application runs.
pub open spec fn full_start(versions: Seq<Seq<char>>, plan: Plan) -> Progress<FullState, Outcome> {
    Progress::Ask(
        FullState {
            plan,
            phase: FullPhase::CheckRunning { versions },
            logs: seq!["Checking system state..."@],
        },
    )
}

impl FullState {
    /// What the sequence asks of the host.
    pub open spec fn ask(self) -> Ask {
        match self.phase {
            FullPhase::CheckRunning { versions } => Ask::CheckRunning,
            FullPhase::Deleting(run) => run.ask(),
            FullPhase::Cleaning => Ask::CleanCache,
            FullPhase::Applying(run) => run.ask(),
        }
    }

    /// What follows on `answer`. A running application ends the sequence
    /// before anything is deleted. The stages follow in a fixed order:
    /// deletion, cache cleaning, protection. What the cache cleaner logs is
    /// taken over as it is, and that stage cannot fail.
    pub open spec fn next(self, answer: Answer) -> Progress<FullState, Outcome> {
        match self.phase {
            FullPhase::CheckRunning { versions } => match answer {
                Answer::Running(true) => Progress::Done(
                    failed("CapCut is still running. Please close it."@, self.logs),
                ),
                Answer::Running(false) => after_delete(
                    self.plan,
                    self.logs.push("[OK] No running instances"@),
                    delete_from(versions, self.plan.style, 0, Seq::empty()),
                ),
                _ => Progress::Ask(self),
            },
            FullPhase::Deleting(run) => after_delete(self.plan, self.logs, run.next(answer)),
            FullPhase::Cleaning => match answer {
                Answer::Lines(lines) => protect_phase(self.plan, self.logs + lines),
                _ => Progress::Ask(self),
            },
            FullPhase::Applying(run) => after_apply(self.plan, self.logs, run.next(answer)),
        }
    }
}

fn close(logs: Vec<String>, result: ProtectionResult) -> (closed: ProtectionResult)
    ensures
        closed@ == closing(logs.deep_view(), result@),
{
    let mut logs = logs;
    let ProtectionResult { success, error, logs: more } = result;
    extend_lines(&mut logs, more);
    if success {
        ProtectionResult::succeeded(logs)
    } else {
        ProtectionResult { success: false, error, logs }
    }
}

fn on_apply(orders: Orders, logs: Vec<String>, step: Progress<ApplyRun, ProtectionResult>) -> (progress:
    Progress<FullRun, ProtectionResult>)
    ensures
        progress@ == after_apply(orders@, logs.deep_view(), step@),
{
    match step {
        Progress::Ask(run) => Progress::Ask(FullRun { orders, stage: FullStage::Applying(run), logs }),
        Progress::Done(result) => Progress::Done(close(logs, result)),
    }
}

fn start_protect(orders: Orders, logs: Vec<String>) -> (progress: Progress<FullRun, ProtectionResult>)
    ensures
        progress@ == protect_phase(orders@, logs.deep_view()),
{
    let mut logs = logs;
    if orders.lock_config || orders.create_blockers {
        let step = match &orders.data_dir {
            Some(dir) => apply_protection_with_options(
                Some(dir.as_str()),
                orders.style,
                orders.lock_config,
                orders.create_blockers,
            ),
            None => apply_protection_with_options(
                None,
                orders.style,
                orders.lock_config,
                orders.create_blockers,
            ),
        };
        on_apply(orders, logs, step)
    } else {
        push_text(&mut logs, "Skipping protection (all options disabled)");
        Progress::Done(ProtectionResult::succeeded(logs))
    }
}

fn start_cache(orders: Orders, logs: Vec<String>) -> (progress: Progress<FullRun, ProtectionResult>)
    ensures
        progress@ == cache_phase(orders@, logs.deep_view()),
{
    let mut logs = logs;
    if orders.clean_cache {
        push_text(&mut logs, "Cleaning cache directories...");
        Progress::Ask(FullRun { orders, stage: FullStage::Cleaning, logs })
    } else {
        push_text(&mut logs, "Skipping cache cleaning (disabled)");
        start_protect(orders, logs)
    }
}

fn on_delete(orders: Orders, logs: Vec<String>, step: Progress<DeleteRun, ProtectionResult>) -> (progress:
    Progress<FullRun, ProtectionResult>)
    ensures
        progress@ == after_delete(orders@, logs.deep_view(), step@),
{
    match step {
        Progress::Ask(run) => Progress::Ask(FullRun { orders, stage: FullStage::Deleting(run), logs }),
        Progress::Done(result) => if result.success {
            let mut logs = logs;
            let ProtectionResult { success, error, logs: more } = result;
            extend_lines(&mut logs, more);
            start_cache(orders, logs)
        } else {
            Progress::Done(close(logs, result))
        },
    }
}

/// Starts the full sequence: the check that the protected application does
/// not run, the deletion of `params.versions_to_delete`, the cache cleaning
/// and the protection, each as `params` asks for it.
pub fn run_full_protection(params: ProtectionParams, data_dir: Option<&str>, style: PathStyle) -> (progress:
    Progress<FullRun, ProtectionResult>)
    ensures
        progress@ == full_start(
            params.versions_to_delete.deep_view(),
            Plan {
                data_dir: str_of(data_dir),
                style,
                clean_cache: params.clean_cache,
                lock_config: params.lock_config,
                create_blockers: params.create_blockers,
            },
        ),
{
    let ProtectionParams { versions_to_delete, clean_cache, lock_config, create_blockers } = params;
    let data_dir = match data_dir {
        Some(dir) => Some(dir.to_owned()),
        None => None,
    };
    let mut logs: Vec<String> = Vec::new();
    assert(logs.deep_view() == Seq::<Seq<char>>::empty());
    push_text(&mut logs, "Checking system state...");
    assert(logs.deep_view() == seq!["Checking system state..."@]);
    Progress::Ask(
        FullRun {
            orders: Orders { data_dir, style, clean_cache, lock_config, create_blockers },
            stage: FullStage::CheckRunning { versions: versions_to_delete },
            logs,
        },
    )
}

impl FullRun {
    /// What the host is to do next.
    pub fn request(&self) -> (request: Request)
        ensures
            request@ == self@.ask(),
    {
        match &self.stage {
            FullStage::CheckRunning { versions } => Request::CheckRunning,
            FullStage::Deleting(run) => run.request(),
            FullStage::Cleaning => Request::CleanCache,
            FullStage::Applying(run) => run.request(),
        }
    }

    /// Takes the host's reply and goes on. A reply that answers another kind
    /// of request leaves the run as it is.
    pub fn resume(self, reply: Reply) -> (progress: Progress<FullRun, ProtectionResult>)
        ensures
            progress@ == self@.next(reply@),
    {
        let FullRun { orders, stage, logs } = self;
        let mut logs = logs;
        match stage {
            FullStage::CheckRunning { versions } => match reply {
                Reply::Running(running) => if running {
                    Progress::Done(
                        ProtectionResult::failed(
                            "CapCut is still running. Please close it.".to_owned(),
                            logs,
                        ),
                    )
                } else {
                    push_text(&mut logs, "[OK] No running instances");
                    let step = delete_versions(versions, orders.style);
                    on_delete(orders, logs, step)
                },
                _ => Progress::Ask(
                    FullRun { orders, stage: FullStage::CheckRunning { versions }, logs },
                ),
            },
            FullStage::Deleting(run) => {
                let step = run.resume(reply);
                on_delete(orders, logs, step)
            },
            FullStage::Cleaning => match reply {
                Reply::Lines(lines) => {
                    extend_lines(&mut logs, lines);
                    start_protect(orders, logs)
                },
                _ => Progress::Ask(FullRun { orders, stage: FullStage::Cleaning, logs }),
            },
            FullStage::Applying(run) => {
                let step = run.resume(reply);
                on_apply(orders, logs, step)
            },
        }
    }
}

/// The deletion fed with the host's answers, one after the other, until it
/// ends or the answers run out.
pub open spec fn fed_delete(
    progress: Progress<DeleteState, Outcome>,
    answers: Seq<Answer>,
) -> Progress<DeleteState, Outcome>
    decreases answers.len(),
{
    match progress {
        Progress::Done(result) => progress,
        Progress::Ask(state) => if answers.len() == 0 {
            progress
        } else {
            fed_delete(state.next(answers[0]), answers.drop_first())
        },
    }
}

/// The lines that announce the first `upto` directories.
pub open spec fn announced(paths: Seq<Seq<char>>, style: PathStyle, upto: int) -> Seq<Seq<char>> {
    Seq::new(upto as nat, |i: int| "Deleting: "@ + shown_name(paths[i], style))
}

/// The answers of a host that clears and removes `count` directories
/// without a failure.
pub open spec fn all_fine(count: int) -> Seq<Answer> {
    Seq::new((2 * count) as nat, |i: int| Answer::Outcome(Ok(())))
}

proof fn lemma_delete_goes_on(
    paths: Seq<Seq<char>>,
    style: PathStyle,
    at: int,
    upto: int,
    rest: Seq<Answer>,
)
    requires
        0 <= at <= upto <= paths.len(),
    ensures
        fed_delete(
            delete_from(paths, style, at, announced(paths, style, at)),
            all_fine(upto - at) + rest,
        ) == fed_delete(delete_from(paths, style, upto, announced(paths, style, upto)), rest),
    decreases upto - at,
{
    let answers = all_fine(upto - at) + rest;
    if at == upto {
        assert(answers == rest);
    } else {
        let logs = announced(paths, style, at + 1);
        assert(announced(paths, style, at).push("Deleting: "@ + shown_name(paths[at], style))
            == logs);
        let clearing = DeleteState { paths, style, at, stage: DeleteStage::Clear, logs };
        let removing = DeleteState { paths, style, at, stage: DeleteStage::Remove, logs };
        assert(delete_from(paths, style, at, announced(paths, style, at)) == Progress::<
            DeleteState,
            Outcome,
        >::Ask(clearing));
        assert(answers[0] == Answer::Outcome(Ok(())));
        assert(answers.drop_first()[0] == Answer::Outcome(Ok(())));
        assert(answers.drop_first().drop_first() == all_fine(upto - at - 1) + rest);
        assert(clearing.next(answers[0]) == Progress::<DeleteState, Outcome>::Ask(removing));
        assert(fed_delete(Progress::Ask(clearing), answers) == fed_delete(
            Progress::Ask(removing),
            answers.drop_first(),
        ));
        assert(removing.next(answers.drop_first()[0]) == delete_from(paths, style, at + 1, logs));
        assert(fed_delete(Progress::Ask(removing), answers.drop_first()) == fed_delete(
            delete_from(paths, style, at + 1, logs),
            answers.drop_first().drop_first(),
        ));
        lemma_delete_goes_on(paths, style, at + 1, upto, rest);
    }
}

/// A removal that fails ends the deletion there: where the host removes the
/// first `k` directories and fails on the next, the deletion ends in failure,
/// names that directory and the host's reason, and has logged the directories
/// up to that one and no other. Whatever the host would answer later is not
/// asked for.
pub proof fn lemma_delete_stops_at_first_failure(
    paths: Seq<Seq<char>>,
    style: PathStyle,
    k: int,
    why: Seq<char>,
    later: Seq<Answer>,
)
    requires
        0 <= k < paths.len(),
    ensures
        fed_delete(
            delete_from(paths, style, 0, Seq::empty()),
            all_fine(k) + seq![Answer::Outcome(Ok(())), Answer::Outcome(Err(why))] + later,
        ) == Progress::<DeleteState, Outcome>::Done(
            failed(
                "Failed to delete "@ + shown_name(paths[k], style) + ": "@ + why,
                announced(paths, style, k + 1),
            ),
        ),
{
    let rest = seq![Answer::Outcome(Ok(())), Answer::Outcome(Err(why))] + later;
    assert(announced(paths, style, 0) == Seq::<Seq<char>>::empty());
    assert(all_fine(k) + seq![Answer::Outcome(Ok(())), Answer::Outcome(Err(why))] + later
        == all_fine(k) + rest);
    lemma_delete_goes_on(paths, style, 0, k, rest);
    let logs = announced(paths, style, k + 1);
    assert(announced(paths, style, k).push("Deleting: "@ + shown_name(paths[k], style)) == logs);
    let clearing = DeleteState { paths, style, at: k, stage: DeleteStage::Clear, logs };
    let removing = DeleteState { paths, style, at: k, stage: DeleteStage::Remove, logs };
    assert(rest[0] == Answer::Outcome(Ok(())));
    assert(rest.drop_first()[0] == Answer::Outcome(Err(why)));
    assert(clearing.next(rest[0]) == Progress::<DeleteState, Outcome>::Ask(removing));
    assert(fed_delete(Progress::Ask(clearing), rest) == fed_delete(
        Progress::Ask(removing),
        rest.drop_first(),
    ));
    assert(fed_delete(Progress::Ask(removing), rest.drop_first()) == fed_delete(
        removing.next(rest.drop_first()[0]),
        rest.drop_first().drop_first(),
    ));
}

/// Where the host removes every directory, the deletion ends in success and
/// has logged each directory and their number.
pub proof fn lemma_delete_removes_all(paths: Seq<Seq<char>>, style: PathStyle)
    requires
        paths.len() > 0,
    ensures
        fed_delete(delete_from(paths, style, 0, Seq::empty()), all_fine(paths.len() as int))
            == Progress::<DeleteState, Outcome>::Done(
            succeeded(
                announced(paths, style, paths.len() as int).push(
                    "[OK] Deleted "@ + decimal(paths.len()) + " version(s)"@,
                ),
            ),
        ),
{
    assert(announced(paths, style, 0) == Seq::<Seq<char>>::empty());
    assert(all_fine(paths.len() as int) + Seq::<Answer>::empty() == all_fine(paths.len() as int));
    lemma_delete_goes_on(paths, style, 0, paths.len() as int, Seq::empty());
}

/// While the protected application runs, the full sequence does nothing: it
/// starts with the question whether it runs, and on the answer that it does
/// it ends in failure, with the line of that check as its whole log. No
/// directory is deleted, since the sequence has ended before it asks for that.
pub proof fn lemma_running_application_stops_the_sequence(versions: Seq<Seq<char>>, plan: Plan)
    ensures
        full_start(versions, plan) matches Progress::Ask(state) && state.ask() == Ask::CheckRunning
            && state.next(Answer::Running(true)) == Progress::<FullState, Outcome>::Done(
            failed(
                "CapCut is still running. Please close it."@,
                seq!["Checking system state..."@],
            ),
        ),
{
}

} // verus!
