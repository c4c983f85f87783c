//! Switching the active version: the pointer file and the configuration are
//! rewritten to name the chosen version directory.

use crate::host::{
    flag_set, push_line, push_text, str_of, Answer, Ask, Progress, Reply, Request,
};
use crate::paths::{file_name, join_path, joined, path_file_name, PathStyle};
use crate::text::{concat2, debug_quote, quoted};
use vstd::prelude::*;

verus! {

/// How a switch ended, with what it logged on the way.
#[derive(Debug)]
pub struct SwitchResult {
    pub success: bool,
    pub message: String,
    pub logs: Vec<String>,
}

/// `SwitchResult` as plain text.
pub struct SwitchOutcome {
    pub success: bool,
    pub message: Seq<char>,
    pub logs: Seq<Seq<char>>,
}

impl View for SwitchResult {
    type V = SwitchOutcome;

    open spec fn view(&self) -> SwitchOutcome {
        SwitchOutcome { success: self.success, message: self.message@, logs: self.logs.deep_view() }
    }
}

/// A file that the switch rewrites, with the form in which its path is logged.
#[derive(Debug)]
pub struct Place {
    pub path: String,
    pub shown: String,
}

/// `Place` as plain text.
pub struct PlaceText {
    pub path: Seq<char>,
    pub shown: Seq<char>,
}

impl View for Place {
    type V = PlaceText;

    open spec fn view(&self) -> PlaceText {
        PlaceText { path: self.path@, shown: self.shown@ }
    }
}

/// The view of an optional place.
pub open spec fn place_of(place: Option<Place>) -> Option<PlaceText> {
    match place {
        Some(place) => Some(place@),
        None => None,
    }
}

/// The path of an optional place; empty where there is none.
pub open spec fn place_path(place: Option<PlaceText>) -> Seq<char> {
    match place {
        Some(place) => place.path,
        None => Seq::empty(),
    }
}

/// The label of the version that `target` holds: the name of the directory,
/// or `unknown` where the path has none.
pub open spec fn version_label(target: Seq<char>, style: PathStyle) -> Seq<char> {
    match file_name(target, style) {
        Some(name) => name,
        None => "unknown"@,
    }
}

/// What the pointer file holds once it points at `target`: the path of the
/// executable in that directory and the version label.
pub open spec fn pointer_body(target: Seq<char>, style: PathStyle) -> Seq<char> {
    "<?xml version=\"1.0\" charset=\"utf-8\"?>\n<ProductInfo>\n  <InstallPath>"@ + joined(
        target,
        "CapCut.exe"@,
        style,
    ) + "</InstallPath>\n  <Version>"@ + version_label(target, style)
        + "</Version>\n</ProductInfo>"@
}

/// What the configuration holds after a switch to `target`: one section
/// with one key, whatever it held before.
pub open spec fn config_body(target: Seq<char>, style: PathStyle) -> Seq<char> {
    "[Configure]\r\nlast_version="@ + version_label(target, style) + "\r\n"@
}

/// Where a switch stands.
#[derive(Clone, Copy, Debug, PartialEq, Eq, Structural)]
pub enum SwitchStage {
    /// Looking for the target directory.
    ProbeTarget,
    /// Looking at the pointer file.
    ProbePointer,
    /// Clearing the read-only flag of the pointer file.
    UnlockPointer,
    /// Writing the pointer file.
    WritePointer,
    /// Looking at the configuration file.
    ProbeConfig,
    /// Clearing the read-only flag of the configuration file.
    UnlockConfig,
    /// Writing the configuration file.
    WriteConfig,
}

/// A switch while it waits for the host.
#[derive(Debug)]
pub struct SwitchRun {
    target: String,
    style: PathStyle,
    pointer: Option<Place>,
    config: Option<Place>,
    stage: SwitchStage,
    logs: Vec<String>,
}

/// `SwitchRun` as plain values.
pub struct SwitchState {
    /// The version directory to switch to.
    pub target: Seq<char>,
    pub style: PathStyle,
    /// The pointer file, where the installation root is known.
    pub pointer: Option<PlaceText>,
    /// The configuration file, where its directory is known.
    pub config: Option<PlaceText>,
    pub stage: SwitchStage,
    pub logs: Seq<Seq<char>>,
}

impl View for SwitchRun {
    type V = SwitchState;

    closed spec fn view(&self) -> SwitchState {
        SwitchState {
            target: self.target@,
            style: self.style,
            pointer: place_of(self.pointer),
            config: place_of(self.config),
            stage: self.stage,
            logs: self.logs.deep_view(),
        }
    }
}

/// The start of a switch: the line that announces it, and the look at the
/// target directory.
pub open spec fn switch_start(
    target: Seq<char>,
    style: PathStyle,
    pointer: Option<PlaceText>,
    config: Option<PlaceText>,
    shown_target: Seq<char>,
) -> Progress<SwitchState, SwitchOutcome> {
    Progress::Ask(
        SwitchState {
            target,
            style,
            pointer,
            config,
            stage: SwitchStage::ProbeTarget,
            logs: seq!["Initiating switch to version at: "@ + shown_target],
        },
    )
}

/// The pointer file below the installation root, with its logged form.
pub open spec fn pointer_place(root: Option<Seq<char>>, style: PathStyle) -> Option<PlaceText> {
    match root {
        Some(root) => {
            let path = joined(joined(root, "Apps"@, style), "ProductInfo.xml"@, style);
            Some(PlaceText { path, shown: quoted(path) })
        },
        None => None,
    }
}

/// The configuration file in the directory `apps_dir`, with its logged form.
pub open spec fn config_place(apps_dir: Option<Seq<char>>, style: PathStyle) -> Option<PlaceText> {
    match apps_dir {
        Some(dir) => {
            let path = joined(dir, "configure.ini"@, style);
            Some(PlaceText { path, shown: quoted(path) })
        },
        None => None,
    }
}

impl SwitchState {
    /// What the switch asks of the host.
    pub open spec fn ask(self) -> Ask {
        match self.stage {
            SwitchStage::ProbeTarget => Ask::Probe { path: self.target },
            SwitchStage::ProbePointer => Ask::Probe { path: place_path(self.pointer) },
            SwitchStage::UnlockPointer => Ask::ClearReadonly { path: place_path(self.pointer) },
            SwitchStage::WritePointer => Ask::WriteText {
                path: place_path(self.pointer),
                content: pointer_body(self.target, self.style),
            },
            SwitchStage::ProbeConfig => Ask::Probe { path: place_path(self.config) },
            SwitchStage::UnlockConfig => Ask::ClearReadonly { path: place_path(self.config) },
            SwitchStage::WriteConfig => Ask::WriteText {
                path: place_path(self.config),
                content: config_body(self.target, self.style),
            },
        }
    }

    /// The end of a switch whose target was there: success, whatever became
    /// of the two writes.
    pub open spec fn finish(self, logs: Seq<Seq<char>>) -> Progress<SwitchState, SwitchOutcome> {
        Progress::Done(
            SwitchOutcome {
                success: true,
                message: "Successfully switched to v"@ + version_label(self.target, self.style),
                logs,
            },
        )
    }

    /// The part of a switch that rewrites the configuration, where its
    /// directory is known.
    pub open spec fn config_phase(self, logs: Seq<Seq<char>>) -> Progress<SwitchState, SwitchOutcome> {
        match self.config {
            Some(place) => Progress::Ask(
                SwitchState {
                    stage: SwitchStage::ProbeConfig,
                    logs: logs.push("Updating configure.ini at: "@ + place.shown),
                    ..self
                },
            ),
            None => self.finish(logs),
        }
    }

    /// The part of a switch that rewrites the pointer file, where the
    /// installation root is known.
    pub open spec fn pointer_phase(self, logs: Seq<Seq<char>>) -> Progress<
        SwitchState,
        SwitchOutcome,
    > {
        match self.pointer {
            Some(place) => Progress::Ask(
                SwitchState {
                    stage: SwitchStage::ProbePointer,
                    logs: logs.push("Updating ProductInfo at: "@ + place.shown),
                    ..self
                },
            ),
            None => self.config_phase(logs),
        }
    }

    /// What follows on `answer`. A target that is not there ends the switch
    /// in failure before anything is changed. Each of the two files is
    /// cleared of its read-only flag where it has one, and written; a write
    /// that fails is logged and the switch goes on.
    pub open spec fn next(self, answer: Answer) -> Progress<SwitchState, SwitchOutcome> {
        match (self.stage, answer) {
            (SwitchStage::ProbeTarget, Answer::Probed(probe)) => if probe.exists {
                self.pointer_phase(
                    self.logs.push("Detected version: "@ + version_label(self.target, self.style)),
                )
            } else {
                Progress::Done(
                    SwitchOutcome {
                        success: false,
                        message: "Target version not found"@,
                        logs: self.logs.push("[!] Target directory does not exist"@),
                    },
                )
            },
            (SwitchStage::ProbePointer, Answer::Probed(probe)) => Progress::Ask(
                SwitchState {
                    stage: if flag_set(probe) {
                        SwitchStage::UnlockPointer
                    } else {
                        SwitchStage::WritePointer
                    },
                    ..self
                },
            ),
            (SwitchStage::UnlockPointer, Answer::Outcome(_)) => Progress::Ask(
                SwitchState {
                    stage: SwitchStage::WritePointer,
                    logs: self.logs.push("Removed Read-Only attribute from ProductInfo.xml"@),
                    ..self
                },
            ),
            (SwitchStage::WritePointer, Answer::Outcome(Ok(_))) => self.config_phase(
                self.logs.push("[OK] Updated ProductInfo.xml"@),
            ),
            (SwitchStage::WritePointer, Answer::Outcome(Err(why))) => self.config_phase(
                self.logs.push("[!] Failed to write ProductInfo.xml: "@ + why),
            ),
            (SwitchStage::ProbeConfig, Answer::Probed(probe)) => Progress::Ask(
                SwitchState {
                    stage: if flag_set(probe) {
                        SwitchStage::UnlockConfig
                    } else {
                        SwitchStage::WriteConfig
                    },
                    ..self
                },
            ),
            (SwitchStage::UnlockConfig, Answer::Outcome(_)) => Progress::Ask(
                SwitchState { stage: SwitchStage::WriteConfig, ..self },
            ),
            (SwitchStage::WriteConfig, Answer::Outcome(Ok(_))) => self.finish(
                self.logs.push("[OK] Updated configure.ini"@),
            ),
            (SwitchStage::WriteConfig, Answer::Outcome(Err(why))) => self.finish(
                self.logs.push("[!] Failed to write configure.ini: "@ + why),
            ),
            _ => Progress::Ask(self),
        }
    }
}

/// The label of the version that `target` holds.
pub fn version_label_of(target: &str, style: PathStyle) -> (label: String)
    ensures
        label@ == version_label(target@, style),
{
    match path_file_name(target, style) {
        Some(name) => name,
        None => "unknown".to_owned(),
    }
}

fn place_file(place: &Option<Place>) -> (path: String)
    ensures
        path@ == place_path(place_of(*place)),
{
    match place {
        Some(place) => place.path.clone(),
        None => String::new(),
    }
}

impl SwitchRun {
    /// Starts a switch to the version directory `target`. `pointer` and
    /// `config` are the two files to rewrite, each with the form in which its
    /// path is logged; `shown_target` is that form of `target`.
    pub fn begin(
        target: String,
        style: PathStyle,
        pointer: Option<Place>,
        config: Option<Place>,
        shown_target: String,
    ) -> (progress: Progress<SwitchRun, SwitchResult>)
        ensures
            progress@ == switch_start(
                target@,
                style,
                place_of(pointer),
                place_of(config),
                shown_target@,
            ),
    {
        let mut logs: Vec<String> = Vec::new();
        assert(logs.deep_view() == Seq::<Seq<char>>::empty());
        push_line(&mut logs, concat2("Initiating switch to version at: ", shown_target.as_str()));
        assert(logs.deep_view() == seq!["Initiating switch to version at: "@ + shown_target@]);
        Progress::Ask(
            SwitchRun { target, style, pointer, config, stage: SwitchStage::ProbeTarget, logs },
        )
    }

    fn finish(self) -> (progress: Progress<SwitchRun, SwitchResult>)
        ensures
            progress@ == self@.finish(self@.logs),
    {
        let label = version_label_of(self.target.as_str(), self.style);
        Progress::Done(
            SwitchResult {
                success: true,
                message: concat2("Successfully switched to v", label.as_str()),
                logs: self.logs,
            },
        )
    }

    fn config_phase(self) -> (progress: Progress<SwitchRun, SwitchResult>)
        ensures
            progress@ == self@.config_phase(self@.logs),
    {
        let SwitchRun { target, style, pointer, config, stage, logs } = self;
        let mut logs = logs;
        match &config {
            Some(place) => {
                push_line(&mut logs, concat2("Updating configure.ini at: ", place.shown.as_str()));
                Progress::Ask(
                    SwitchRun {
                        target,
                        style,
                        pointer,
                        config,
                        stage: SwitchStage::ProbeConfig,
                        logs,
                    },
                )
            },
            None => (SwitchRun { target, style, pointer, config, stage, logs }).finish(),
        }
    }

    fn pointer_phase(self) -> (progress: Progress<SwitchRun, SwitchResult>)
        ensures
            progress@ == self@.pointer_phase(self@.logs),
    {
        let SwitchRun { target, style, pointer, config, stage, logs } = self;
        let mut logs = logs;
        match &pointer {
            Some(place) => {
                push_line(&mut logs, concat2("Updating ProductInfo at: ", place.shown.as_str()));
                Progress::Ask(
                    SwitchRun {
                        target,
                        style,
                        pointer,
                        config,
                        stage: SwitchStage::ProbePointer,
                        logs,
                    },
                )
            },
            None => (SwitchRun { target, style, pointer, config, stage, logs }).config_phase(),
        }
    }

    /// What the host is to do next.
    pub fn request(&self) -> (request: Request)
        ensures
            request@ == self@.ask(),
    {
        match self.stage {
            SwitchStage::ProbeTarget => Request::Probe { path: self.target.clone() },
            SwitchStage::ProbePointer => Request::Probe { path: place_file(&self.pointer) },
            SwitchStage::UnlockPointer => Request::ClearReadonly { path: place_file(&self.pointer) },
            SwitchStage::WritePointer => {
                let exe = join_path(self.target.as_str(), "CapCut.exe", self.style);
                let label = version_label_of(self.target.as_str(), self.style);
                let mut content = concat2(
                    "<?xml version=\"1.0\" charset=\"utf-8\"?>\n<ProductInfo>\n  <InstallPath>",
                    exe.as_str(),
                );
                content.append("</InstallPath>\n  <Version>");
                content.append(label.as_str());
                content.append("</Version>\n</ProductInfo>");
                Request::WriteText { path: place_file(&self.pointer), content }
            },
            SwitchStage::ProbeConfig => Request::Probe { path: place_file(&self.config) },
            SwitchStage::UnlockConfig => Request::ClearReadonly { path: place_file(&self.config) },
            SwitchStage::WriteConfig => {
                let label = version_label_of(self.target.as_str(), self.style);
                let mut content = concat2("[Configure]\r\nlast_version=", label.as_str());
                content.append("\r\n");
                Request::WriteText { path: place_file(&self.config), content }
            },
        }
    }

    /// Takes the host's reply and goes on. A reply that answers another kind
    /// of request leaves the run as it is.
    pub fn resume(self, reply: Reply) -> (progress: Progress<SwitchRun, SwitchResult>)
        ensures
            progress@ == self@.next(reply@),
    {
        let SwitchRun { target, style, pointer, config, stage, logs } = self;
        let mut logs = logs;
        match stage {
            SwitchStage::ProbeTarget => match reply {
                Reply::Probed(probe) => if probe.exists {
                    let label = version_label_of(target.as_str(), style);
                    push_line(&mut logs, concat2("Detected version: ", label.as_str()));
                    (SwitchRun { target, style, pointer, config, stage, logs }).pointer_phase()
                } else {
                    push_text(&mut logs, "[!] Target directory does not exist");
                    Progress::Done(
                        SwitchResult {
                            success: false,
                            message: "Target version not found".to_owned(),
                            logs,
                        },
                    )
                },
                _ => Progress::Ask(SwitchRun { target, style, pointer, config, stage, logs }),
            },
            SwitchStage::ProbePointer => match reply {
                Reply::Probed(probe) => {
                    let stage = if probe.flag_set() {
                        SwitchStage::UnlockPointer
                    } else {
                        SwitchStage::WritePointer
                    };
                    Progress::Ask(SwitchRun { target, style, pointer, config, stage, logs })
                },
                _ => Progress::Ask(SwitchRun { target, style, pointer, config, stage, logs }),
            },
            SwitchStage::UnlockPointer => match reply {
                Reply::Outcome(_) => {
                    push_text(&mut logs, "Removed Read-Only attribute from ProductInfo.xml");
                    Progress::Ask(
                        SwitchRun {
                            target,
                            style,
                            pointer,
                            config,
                            stage: SwitchStage::WritePointer,
                            logs,
                        },
                    )
                },
                _ => Progress::Ask(SwitchRun { target, style, pointer, config, stage, logs }),
            },
            SwitchStage::WritePointer => match reply {
                Reply::Outcome(Ok(_)) => {
                    push_text(&mut logs, "[OK] Updated ProductInfo.xml");
                    (SwitchRun { target, style, pointer, config, stage, logs }).config_phase()
                },
                Reply::Outcome(Err(why)) => {
                    push_line(
                        &mut logs,
                        concat2("[!] Failed to write ProductInfo.xml: ", why.as_str()),
                    );
                    (SwitchRun { target, style, pointer, config, stage, logs }).config_phase()
                },
                _ => Progress::Ask(SwitchRun { target, style, pointer, config, stage, logs }),
            },
            SwitchStage::ProbeConfig => match reply {
                Reply::Probed(probe) => {
                    let stage = if probe.flag_set() {
                        SwitchStage::UnlockConfig
                    } else {
                        SwitchStage::WriteConfig
                    };
                    Progress::Ask(SwitchRun { target, style, pointer, config, stage, logs })
                },
                _ => Progress::Ask(SwitchRun { target, style, pointer, config, stage, logs }),
            },
            SwitchStage::UnlockConfig => match reply {
                Reply::Outcome(_) => Progress::Ask(
                    SwitchRun {
                        target,
                        style,
                        pointer,
                        config,
                        stage: SwitchStage::WriteConfig,
                        logs,
                    },
                ),
                _ => Progress::Ask(SwitchRun { target, style, pointer, config, stage, logs }),
            },
            SwitchStage::WriteConfig => match reply {
                Reply::Outcome(Ok(_)) => {
                    push_text(&mut logs, "[OK] Updated configure.ini");
                    (SwitchRun { target, style, pointer, config, stage, logs }).finish()
                },
                Reply::Outcome(Err(why)) => {
                    push_line(&mut logs, concat2("[!] Failed to write configure.ini: ", why.as_str()));
                    (SwitchRun { target, style, pointer, config, stage, logs }).finish()
                },
                _ => Progress::Ask(SwitchRun { target, style, pointer, config, stage, logs }),
            },
        }
    }
}

/// Starts a switch to the version directory `target`. `root` is the
/// installation root and `apps_dir` the directory of the configuration, each
/// where it is known; a file whose directory is not known is left out of the
/// switch.
pub fn switch_version(
    target_path: String,
    style: PathStyle,
    root: Option<&str>,
    apps_dir: Option<&str>,
) -> (progress: Progress<SwitchRun, SwitchResult>)
    ensures
        progress@ == switch_start(
            target_path@,
            style,
            pointer_place(str_of(root), style),
            config_place(str_of(apps_dir), style),
            quoted(target_path@),
        ),
{
    let pointer = match root {
        Some(root) => {
            let apps = join_path(root, "Apps", style);
            let path = join_path(apps.as_str(), "ProductInfo.xml", style);
            let shown = debug_quote(path.as_str());
            Some(Place { path, shown })
        },
        None => None,
    };
    let config = match apps_dir {
        Some(dir) => {
            let path = join_path(dir, "configure.ini", style);
            let shown = debug_quote(path.as_str());
            Some(Place { path, shown })
        },
        None => None,
    };
    let shown_target = debug_quote(target_path.as_str());
    SwitchRun::begin(target_path, style, pointer, config, shown_target)
}

/// A target that is not there ends the switch at once: the first thing asked
/// for is a look at the target, and on the answer that nothing is there the
/// switch ends in failure without a write.
pub proof fn lemma_missing_target_ends_the_switch(
    target: Seq<char>,
    style: PathStyle,
    pointer: Option<PlaceText>,
    config: Option<PlaceText>,
    shown_target: Seq<char>,
    probe: crate::host::FileProbe,
)
    requires
        !probe.exists,
    ensures
        switch_start(target, style, pointer, config, shown_target) matches Progress::Ask(state)
            && state.ask() == (Ask::Probe { path: target }) && state.next(Answer::Probed(probe))
            == Progress::<SwitchState, SwitchOutcome>::Done(
            SwitchOutcome {
                success: false,
                message: "Target version not found"@,
                logs: seq![
                    "Initiating switch to version at: "@ + shown_target,
                    "[!] Target directory does not exist"@,
                ],
            },
        ),
{
    let state = switch_start(target, style, pointer, config, shown_target)->Ask_0;
    assert(state.logs.push("[!] Target directory does not exist"@) == seq![
        "Initiating switch to version at: "@ + shown_target,
        "[!] Target directory does not exist"@,
    ]);
}

} // verus!
