use std::collections::BTreeMap;

use version_guard::attributes::{clear_readonly_recursive, ClearRun};
use version_guard::commands::protector::{
    apply_protection, apply_protection_with_options, check_protection_status, delete_versions,
    remove_protection, run_full_protection, ApplyRun, DeleteRun, Evidence, FullRun,
    ProtectionParams, ProtectionResult, ProtectionStatus, RemoveRun,
};
use version_guard::commands::switcher::{switch_version, SwitchResult, SwitchRun};
use version_guard::host::{FileProbe, Progress, Reply, Request};
use version_guard::paths::PathStyle;

#[derive(Clone, Debug, PartialEq)]
enum Node {
    File { content: String, readonly: bool },
    Dir { readonly: bool },
}

#[derive(Clone, Debug, PartialEq)]
struct MemHost {
    nodes: BTreeMap<String, Node>,
    running: bool,
    cache_lines: Vec<String>,
    asked: Vec<String>,
}

fn host() -> MemHost {
    MemHost { nodes: BTreeMap::new(), running: false, cache_lines: Vec::new(), asked: Vec::new() }
}

fn file(content: &str, readonly: bool) -> Node {
    Node::File { content: content.to_string(), readonly }
}

fn denied() -> Reply {
    Reply::Outcome(Err("denied".to_string()))
}

fn done() -> Reply {
    Reply::Outcome(Ok(()))
}

fn unflag(node: &mut Node) {
    match node {
        Node::File { readonly, .. } => *readonly = false,
        Node::Dir { readonly } => *readonly = false,
    }
}

impl MemHost {
    fn with(mut self, path: &str, node: Node) -> MemHost {
        self.nodes.insert(path.to_string(), node);
        self
    }

    fn perform(&mut self, request: Request) -> Reply {
        self.asked.push(format!("{:?}", request));
        match request {
            Request::Probe { path } => Reply::Probed(match self.nodes.get(&path) {
                Some(Node::File { content, readonly }) => FileProbe {
                    exists: true,
                    is_dir: false,
                    size: content.len() as u64,
                    readonly: *readonly,
                },
                Some(Node::Dir { readonly }) => {
                    FileProbe { exists: true, is_dir: true, size: 4096, readonly: *readonly }
                }
                None => FileProbe { exists: false, is_dir: false, size: 0, readonly: false },
            }),
            Request::ReadText { path } => Reply::Text(match self.nodes.get(&path) {
                Some(Node::File { content, .. }) => Some(content.clone()),
                _ => None,
            }),
            Request::ClearReadonlyTree { path } | Request::ClearReadonly { path } => {
                if let Some(node) = self.nodes.get_mut(&path) {
                    unflag(node);
                }
                done()
            }
            Request::RemoveDirAll { path } => match self.nodes.get(&path) {
                Some(Node::Dir { .. }) => {
                    self.nodes.remove(&path);
                    done()
                }
                _ => denied(),
            },
            Request::RemoveFile { path } => match self.nodes.get(&path) {
                Some(Node::File { readonly: false, .. }) => {
                    self.nodes.remove(&path);
                    done()
                }
                _ => denied(),
            },
            Request::CreateDirAll { path } => match self.nodes.get(&path) {
                None => {
                    self.nodes.insert(path, Node::Dir { readonly: false });
                    done()
                }
                Some(Node::Dir { .. }) => done(),
                Some(Node::File { .. }) => denied(),
            },
            Request::WriteText { path, content } => match self.nodes.get(&path) {
                None | Some(Node::File { readonly: false, .. }) => {
                    self.nodes.insert(path, Node::File { content, readonly: false });
                    done()
                }
                _ => denied(),
            },
            Request::MarkReadonly { path } => {
                if let Some(node) = self.nodes.get_mut(&path) {
                    match node {
                        Node::File { readonly, .. } => *readonly = true,
                        Node::Dir { readonly } => *readonly = true,
                    }
                }
                done()
            }
            Request::CheckRunning => Reply::Running(self.running),
            Request::CleanCache => Reply::Lines(self.cache_lines.clone()),
        }
    }
}

fn drive_clear(start: Progress<ClearRun, ()>, host: &mut MemHost) {
    let mut progress = start;
    loop {
        match progress {
            Progress::Done(()) => return,
            Progress::Ask(run) => {
                let reply = host.perform(run.request());
                progress = run.resume(reply);
            }
        }
    }
}

fn drive_delete(start: Progress<DeleteRun, ProtectionResult>, host: &mut MemHost) -> ProtectionResult {
    let mut progress = start;
    loop {
        match progress {
            Progress::Done(result) => return result,
            Progress::Ask(run) => {
                let reply = host.perform(run.request());
                progress = run.resume(reply);
            }
        }
    }
}

fn drive_apply(start: Progress<ApplyRun, ProtectionResult>, host: &mut MemHost) -> ProtectionResult {
    let mut progress = start;
    loop {
        match progress {
            Progress::Done(result) => return result,
            Progress::Ask(run) => {
                let reply = host.perform(run.request());
                progress = run.resume(reply);
            }
        }
    }
}

fn drive_remove(start: Progress<RemoveRun, ProtectionResult>, host: &mut MemHost) -> ProtectionResult {
    let mut progress = start;
    loop {
        match progress {
            Progress::Done(result) => return result,
            Progress::Ask(run) => {
                let reply = host.perform(run.request());
                progress = run.resume(reply);
            }
        }
    }
}

fn drive_full(start: Progress<FullRun, ProtectionResult>, host: &mut MemHost) -> ProtectionResult {
    let mut progress = start;
    loop {
        match progress {
            Progress::Done(result) => return result,
            Progress::Ask(run) => {
                let reply = host.perform(run.request());
                progress = run.resume(reply);
            }
        }
    }
}

fn drive_switch(start: Progress<SwitchRun, SwitchResult>, host: &mut MemHost) -> SwitchResult {
    let mut progress = start;
    loop {
        match progress {
            Progress::Done(result) => return result,
            Progress::Ask(run) => {
                let reply = host.perform(run.request());
                progress = run.resume(reply);
            }
        }
    }
}

fn status(host: &mut MemHost) -> ProtectionStatus {
    let pointer = match host.perform(Request::Probe { path: POINTER.to_string() }) {
        Reply::Probed(probe) => probe,
        other => panic!("unexpected reply {:?}", other),
    };
    let update = match host.perform(Request::Probe { path: UPDATE.to_string() }) {
        Reply::Probed(probe) => probe,
        other => panic!("unexpected reply {:?}", other),
    };
    let config = match host.perform(Request::ReadText { path: CONFIG.to_string() }) {
        Reply::Text(text) => text,
        other => panic!("unexpected reply {:?}", other),
    };
    check_protection_status(Some(&Evidence { pointer, update, config }))
}

fn lines(items: &[&str]) -> Vec<String> {
    items.iter().map(|s| s.to_string()).collect()
}

const CONFIG: &str = "/data/CapCut/Apps/configure.ini";
const POINTER: &str = "/data/CapCut/Apps/ProductInfo.xml";
const DOWNLOAD: &str = "/data/CapCut/User Data/Download";
const UPDATE: &str = "/data/CapCut/User Data/Download/update.exe";

#[test]
fn delete_of_nothing_succeeds_without_a_request() {
    match delete_versions(Vec::new(), PathStyle::Posix) {
        Progress::Done(result) => {
            assert!(result.success);
            assert_eq!(result.error, None);
            assert_eq!(result.logs, lines(&["[OK] No versions to delete"]));
        }
        Progress::Ask(_) => panic!("nothing to delete, yet the host is asked"),
    }
}

#[test]
fn delete_stops_at_the_first_directory_that_cannot_be_removed() {
    let mut disk = host()
        .with("/ok1", Node::Dir { readonly: true })
        .with("/ok2", Node::Dir { readonly: false });
    let result = drive_delete(
        delete_versions(lines(&["/ok1", "/missing_or_locked", "/ok2"]), PathStyle::Posix),
        &mut disk,
    );
    assert!(!result.success);
    assert_eq!(result.error, Some("Failed to delete missing_or_locked: denied".to_string()));
    assert_eq!(result.logs, lines(&["Deleting: ok1", "Deleting: missing_or_locked"]));
    assert!(!disk.nodes.contains_key("/ok1"));
    assert!(disk.nodes.contains_key("/ok2"));
    assert_eq!(disk.asked.len(), 4);
    assert!(disk.asked.iter().all(|asked| !asked.contains("/ok2")));
}

#[test]
fn delete_counts_what_it_removed() {
    let mut disk = host();
    let mut paths = Vec::new();
    for i in 0..12 {
        let path = format!("/versions/3.{}.0", i);
        disk.nodes.insert(path.clone(), Node::Dir { readonly: false });
        paths.push(path);
    }
    let result = drive_delete(delete_versions(paths, PathStyle::Posix), &mut disk);
    assert!(result.success);
    assert_eq!(result.error, None);
    assert_eq!(result.logs.len(), 13);
    assert_eq!(result.logs[0], "Deleting: 3.0.0");
    assert_eq!(result.logs[11], "Deleting: 3.11.0");
    assert_eq!(result.logs[12], "[OK] Deleted 12 version(s)");
    assert!(disk.nodes.is_empty());
}

#[test]
fn delete_logs_a_warning_where_flags_cannot_be_cleared() {
    let start = delete_versions(lines(&["C:\\versions\\3.1.0.100\\"]), PathStyle::Windows);
    let run = match start {
        Progress::Ask(run) => run,
        Progress::Done(_) => panic!("one directory to delete, yet nothing is asked"),
    };
    match run.request() {
        Request::ClearReadonlyTree { path } => assert_eq!(path, "C:\\versions\\3.1.0.100\\"),
        other => panic!("unexpected request {:?}", other),
    }
    let run = match run.resume(Reply::Outcome(Err("busy".to_string()))) {
        Progress::Ask(run) => run,
        Progress::Done(_) => panic!("a failure to clear flags ended the deletion"),
    };
    match run.request() {
        Request::RemoveDirAll { path } => assert_eq!(path, "C:\\versions\\3.1.0.100\\"),
        other => panic!("unexpected request {:?}", other),
    }
    match run.resume(done()) {
        Progress::Done(result) => {
            assert!(result.success);
            assert_eq!(
                result.logs,
                lines(&["Deleting: 3.1.0.100", "[!] Warning: busy", "[OK] Deleted 1 version(s)"])
            );
        }
        Progress::Ask(_) => panic!("the deletion goes on behind its last directory"),
    }
}

#[test]
fn a_reply_of_another_kind_leaves_the_run_as_it_is() {
    let run = match delete_versions(lines(&["/v"]), PathStyle::Posix) {
        Progress::Ask(run) => run,
        Progress::Done(_) => panic!("one directory to delete, yet nothing is asked"),
    };
    let before = format!("{:?}", run);
    match run.resume(Reply::Running(true)) {
        Progress::Ask(run) => assert_eq!(format!("{:?}", run), before),
        Progress::Done(_) => panic!("a reply of another kind ended the deletion"),
    }
}

#[test]
fn apply_locks_the_configuration_and_places_both_blockers() {
    let mut disk = host()
        .with(CONFIG, file("a=1\nlast_version=3.1.0.100\nb=2", false))
        .with(POINTER, file("<ProductInfo/>", false));
    let result = drive_apply(apply_protection(Some("/data"), PathStyle::Posix), &mut disk);
    assert!(result.success);
    assert_eq!(result.error, None);
    assert_eq!(
        result.logs,
        lines(&[
            "Modifying config...",
            "[OK] Configuration locked",
            "Creating blockers...",
            "[OK] Update blockers created",
        ])
    );
    assert_eq!(disk.nodes[CONFIG], file("a=1\nlast_version=1.0.0.0\nb=2", false));
    assert_eq!(disk.nodes[POINTER], file("", true));
    assert_eq!(disk.nodes[DOWNLOAD], Node::Dir { readonly: false });
    assert_eq!(disk.nodes[UPDATE], file("", true));
}

#[test]
fn apply_twice_leaves_the_disk_of_applying_once() {
    let mut disk = host()
        .with(CONFIG, file("a=1\r\nb=2\r\n", false))
        .with(UPDATE, Node::Dir { readonly: true });
    let first = drive_apply(apply_protection(Some("/data"), PathStyle::Posix), &mut disk);
    assert!(first.success);
    let once = disk.nodes.clone();
    let second = drive_apply(apply_protection(Some("/data"), PathStyle::Posix), &mut disk);
    assert!(second.success);
    assert_eq!(disk.nodes, once);
    assert_eq!(once[CONFIG], file("a=1\nb=2\nlast_version=1.0.0.0", false));
    assert_eq!(once[POINTER], file("", true));
    assert_eq!(once[UPDATE], file("", true));
}

#[test]
fn apply_stops_at_a_configuration_that_cannot_be_written() {
    let mut disk = host().with(CONFIG, file("a=1", true));
    let before = disk.nodes.clone();
    let result = drive_apply(apply_protection(Some("/data"), PathStyle::Posix), &mut disk);
    assert!(!result.success);
    assert_eq!(result.error, Some("denied".to_string()));
    assert_eq!(result.logs, lines(&["Modifying config..."]));
    assert_eq!(disk.nodes, before);
}

#[test]
fn apply_keeps_what_it_did_before_a_later_step_failed() {
    let mut disk = host().with(DOWNLOAD, file("in the way", false));
    let result = drive_apply(apply_protection(Some("/data"), PathStyle::Posix), &mut disk);
    assert!(!result.success);
    assert_eq!(result.error, Some("denied".to_string()));
    assert_eq!(
        result.logs,
        lines(&["Modifying config...", "[OK] Configuration locked", "Creating blockers..."])
    );
    assert_eq!(disk.nodes[CONFIG], file("last_version=1.0.0.0", false));
    assert_eq!(disk.nodes[POINTER], file("", true));
    assert!(!disk.nodes.contains_key(UPDATE));
}

#[test]
fn apply_does_only_what_its_options_ask_for() {
    let mut disk = host();
    let result = drive_apply(
        apply_protection_with_options(Some("/data"), PathStyle::Posix, false, false),
        &mut disk,
    );
    assert!(result.success);
    assert_eq!(
        result.logs,
        lines(&["Skipping config lock (disabled)", "Skipping blocker creation (disabled)"])
    );
    assert!(disk.nodes.is_empty());
    assert!(disk.asked.is_empty());

    let result = drive_apply(
        apply_protection_with_options(Some("/data"), PathStyle::Posix, true, false),
        &mut disk,
    );
    assert!(result.success);
    assert_eq!(
        result.logs,
        lines(&[
            "Modifying config...",
            "[OK] Configuration locked",
            "Skipping blocker creation (disabled)",
        ])
    );
    assert_eq!(disk.nodes.len(), 1);

    let mut disk = host();
    let result = drive_apply(
        apply_protection_with_options(Some("/data"), PathStyle::Posix, false, true),
        &mut disk,
    );
    assert!(result.success);
    assert_eq!(
        result.logs,
        lines(&[
            "Skipping config lock (disabled)",
            "Creating blockers...",
            "[OK] Update blockers created",
        ])
    );
    assert!(!disk.nodes.contains_key(CONFIG));
    assert_eq!(disk.nodes[UPDATE], file("", true));
}

#[test]
fn nothing_is_touched_without_a_data_directory() {
    for progress in [
        apply_protection(None, PathStyle::Windows),
        apply_protection_with_options(None, PathStyle::Windows, false, false),
    ] {
        match progress {
            Progress::Done(result) => {
                assert!(!result.success);
                assert_eq!(result.error, Some("Failed to get LOCALAPPDATA".to_string()));
                assert!(result.logs.is_empty());
            }
            Progress::Ask(_) => panic!("the host is asked without a data directory"),
        }
    }
    match remove_protection(None, PathStyle::Windows) {
        Progress::Done(result) => {
            assert!(!result.success);
            assert_eq!(result.error, Some("Failed to get LOCALAPPDATA".to_string()));
            assert!(result.logs.is_empty());
        }
        Progress::Ask(_) => panic!("the host is asked without a data directory"),
    }
}

#[test]
fn remove_after_apply_leaves_no_protection() {
    let mut disk = host().with(CONFIG, file("a=1\nlast_version=3.1.0.100\nb=2", false));
    assert!(drive_apply(apply_protection(Some("/data"), PathStyle::Posix), &mut disk).success);
    let result = drive_remove(remove_protection(Some("/data"), PathStyle::Posix), &mut disk);
    assert!(result.success);
    assert_eq!(result.error, None);
    assert_eq!(
        result.logs,
        lines(&[
            "Removing ProductInfo.xml blocker...",
            "[OK] ProductInfo.xml blocker removed",
            "Removing update.exe blocker...",
            "[OK] update.exe blocker removed",
            "Resetting configure.ini...",
            "[OK] configure.ini reset",
            "[OK] Protection removed - CapCut can now auto-update",
        ])
    );
    assert!(!disk.nodes.contains_key(POINTER));
    assert!(!disk.nodes.contains_key(UPDATE));
    assert_eq!(disk.nodes[CONFIG], file("a=1\nb=2", false));
    assert_eq!(
        status(&mut disk),
        ProtectionStatus { is_protected: false, config_locked: false, blockers_exist: false }
    );
}

#[test]
fn remove_after_apply_leaves_no_protection_on_any_disk_it_can_clear() {
    let shapes: [Option<Node>; 5] = [
        None,
        Some(file("", true)),
        Some(file("a=1\r\nlast_version=1.0.0.0\r\n", false)),
        Some(file("plain", true)),
        Some(Node::Dir { readonly: true }),
    ];
    for config in &shapes {
        for pointer in &shapes {
            for update in &shapes {
                for (lock_config, create_blockers) in
                    [(true, true), (true, false), (false, true), (false, false)]
                {
                    let mut disk = host();
                    for (path, node) in [(CONFIG, config), (POINTER, pointer), (UPDATE, update)] {
                        if let Some(node) = node {
                            disk.nodes.insert(path.to_string(), node.clone());
                        }
                    }
                    drive_apply(
                        apply_protection_with_options(
                            Some("/data"),
                            PathStyle::Posix,
                            lock_config,
                            create_blockers,
                        ),
                        &mut disk,
                    );
                    let once = disk.nodes.clone();
                    drive_apply(
                        apply_protection_with_options(
                            Some("/data"),
                            PathStyle::Posix,
                            lock_config,
                            create_blockers,
                        ),
                        &mut disk,
                    );
                    assert_eq!(disk.nodes, once);
                    let result =
                        drive_remove(remove_protection(Some("/data"), PathStyle::Posix), &mut disk);
                    assert!(result.success);
                    assert_eq!(
                        status(&mut disk),
                        ProtectionStatus {
                            is_protected: false,
                            config_locked: false,
                            blockers_exist: false,
                        }
                    );
                }
            }
        }
    }
}

#[test]
fn protection_that_was_applied_is_found() {
    let mut disk = host().with(CONFIG, file("a=1", false));
    assert!(drive_apply(apply_protection(Some("/data"), PathStyle::Posix), &mut disk).success);
    assert_eq!(
        status(&mut disk),
        ProtectionStatus { is_protected: true, config_locked: true, blockers_exist: true }
    );
    let mut disk = host();
    assert!(drive_apply(
        apply_protection_with_options(Some("/data"), PathStyle::Posix, true, false),
        &mut disk
    )
    .success);
    assert_eq!(
        status(&mut disk),
        ProtectionStatus { is_protected: true, config_locked: true, blockers_exist: false }
    );
}

#[test]
fn a_lock_that_stands_in_another_line_outlasts_the_removal() {
    let mut disk = host().with(CONFIG, file("note=last_version=1.0.0.0", false));
    assert!(drive_apply(apply_protection(Some("/data"), PathStyle::Posix), &mut disk).success);
    assert!(drive_remove(remove_protection(Some("/data"), PathStyle::Posix), &mut disk).success);
    assert_eq!(disk.nodes[CONFIG], file("note=last_version=1.0.0.0", false));
    assert_eq!(
        status(&mut disk),
        ProtectionStatus { is_protected: true, config_locked: true, blockers_exist: false }
    );
}

#[test]
fn remove_on_a_bare_disk_only_reports() {
    let mut disk = host();
    let result = drive_remove(remove_protection(Some("/data"), PathStyle::Posix), &mut disk);
    assert!(result.success);
    assert_eq!(result.logs, lines(&["[OK] Protection removed - CapCut can now auto-update"]));
    assert!(disk.nodes.is_empty());
    assert_eq!(disk.asked.len(), 3);
}

#[test]
fn remove_logs_what_it_could_not_do_and_goes_on() {
    let mut disk = host()
        .with(POINTER, Node::Dir { readonly: true })
        .with(CONFIG, Node::Dir { readonly: false });
    let result = drive_remove(remove_protection(Some("/data"), PathStyle::Posix), &mut disk);
    assert!(result.success);
    assert_eq!(
        result.logs,
        lines(&[
            "Removing ProductInfo.xml blocker...",
            "[!] Could not remove ProductInfo.xml: denied",
            "Resetting configure.ini...",
            "[OK] Protection removed - CapCut can now auto-update",
        ])
    );

    let run = match remove_protection(Some("C:\\Users\\me\\AppData\\Local"), PathStyle::Windows) {
        Progress::Ask(run) => run,
        Progress::Done(_) => panic!("nothing asked"),
    };
    match run.request() {
        Request::Probe { path } => {
            assert_eq!(path, "C:\\Users\\me\\AppData\\Local\\CapCut\\Apps\\ProductInfo.xml")
        }
        other => panic!("unexpected request {:?}", other),
    }
    let probe = FileProbe { exists: true, is_dir: false, size: 0, readonly: true };
    let run = match run.resume(Reply::Probed(probe)) {
        Progress::Ask(run) => run,
        Progress::Done(_) => panic!("ended early"),
    };
    let run = match run.resume(Reply::Outcome(Err("busy".to_string()))) {
        Progress::Ask(run) => run,
        Progress::Done(_) => panic!("ended early"),
    };
    let run = match run.resume(done()) {
        Progress::Ask(run) => run,
        Progress::Done(_) => panic!("ended early"),
    };
    match run.request() {
        Request::Probe { path } => assert_eq!(
            path,
            "C:\\Users\\me\\AppData\\Local\\CapCut\\User Data\\Download\\update.exe"
        ),
        other => panic!("unexpected request {:?}", other),
    }
    let gone = FileProbe { exists: false, is_dir: false, size: 0, readonly: false };
    let run = match run.resume(Reply::Probed(gone)) {
        Progress::Ask(run) => run,
        Progress::Done(_) => panic!("ended early"),
    };
    let there = FileProbe { exists: true, is_dir: false, size: 9, readonly: true };
    let run = match run.resume(Reply::Probed(there)) {
        Progress::Ask(run) => run,
        Progress::Done(_) => panic!("ended early"),
    };
    let run = match run.resume(Reply::Text(Some("x=1\nlast_version=1.0.0.0".to_string()))) {
        Progress::Ask(run) => run,
        Progress::Done(_) => panic!("ended early"),
    };
    match run.request() {
        Request::WriteText { path, content } => {
            assert_eq!(path, "C:\\Users\\me\\AppData\\Local\\CapCut\\Apps\\configure.ini");
            assert_eq!(content, "x=1");
        }
        other => panic!("unexpected request {:?}", other),
    }
    match run.resume(Reply::Outcome(Err("locked".to_string()))) {
        Progress::Done(result) => {
            assert!(result.success);
            assert_eq!(
                result.logs,
                lines(&[
                    "Removing ProductInfo.xml blocker...",
                    "[!] Warning: busy",
                    "[OK] ProductInfo.xml blocker removed",
                    "Resetting configure.ini...",
                    "[!] Could not reset configure.ini: locked",
                    "[OK] Protection removed - CapCut can now auto-update",
                ])
            );
        }
        Progress::Ask(_) => panic!("the removal goes on behind the configuration"),
    }
}

fn params(versions: &[&str], clean_cache: bool, lock_config: bool, create_blockers: bool) -> ProtectionParams {
    ProtectionParams { versions_to_delete: lines(versions), clean_cache, lock_config, create_blockers }
}

#[test]
fn a_running_application_stops_the_full_sequence() {
    let mut disk = host().with("/v/3.0", Node::Dir { readonly: false });
    disk.running = true;
    let before = disk.nodes.clone();
    let result = drive_full(
        run_full_protection(params(&["/v/3.0"], true, true, true), Some("/data"), PathStyle::Posix),
        &mut disk,
    );
    assert!(!result.success);
    assert_eq!(result.error, Some("CapCut is still running. Please close it.".to_string()));
    assert_eq!(result.logs, lines(&["Checking system state..."]));
    assert_eq!(disk.nodes, before);
    assert_eq!(disk.asked, lines(&["CheckRunning"]));
}

#[test]
fn the_full_sequence_logs_every_stage_in_order() {
    let mut disk = host().with("/v/3.0", Node::Dir { readonly: false });
    disk.cache_lines = lines(&["cache A", "cache B"]);
    let result = drive_full(
        run_full_protection(params(&["/v/3.0"], true, true, true), Some("/data"), PathStyle::Posix),
        &mut disk,
    );
    assert!(result.success);
    assert_eq!(result.error, None);
    assert_eq!(
        result.logs,
        lines(&[
            "Checking system state...",
            "[OK] No running instances",
            "Deleting: 3.0",
            "[OK] Deleted 1 version(s)",
            "Cleaning cache directories...",
            "cache A",
            "cache B",
            "Modifying config...",
            "[OK] Configuration locked",
            "Creating blockers...",
            "[OK] Update blockers created",
        ])
    );
    assert!(!disk.nodes.contains_key("/v/3.0"));
    assert_eq!(disk.nodes[UPDATE], file("", true));
}

#[test]
fn the_full_sequence_skips_what_is_switched_off() {
    let mut disk = host();
    let result = drive_full(
        run_full_protection(params(&[], false, false, false), Some("/data"), PathStyle::Posix),
        &mut disk,
    );
    assert!(result.success);
    assert_eq!(
        result.logs,
        lines(&[
            "Checking system state...",
            "[OK] No running instances",
            "[OK] No versions to delete",
            "Skipping cache cleaning (disabled)",
            "Skipping protection (all options disabled)",
        ])
    );
    assert_eq!(disk.asked, lines(&["CheckRunning"]));

    let result = drive_full(
        run_full_protection(params(&[], false, false, true), Some("/data"), PathStyle::Posix),
        &mut disk,
    );
    assert!(result.success);
    assert_eq!(
        result.logs,
        lines(&[
            "Checking system state...",
            "[OK] No running instances",
            "[OK] No versions to delete",
            "Skipping cache cleaning (disabled)",
            "Skipping config lock (disabled)",
            "Creating blockers...",
            "[OK] Update blockers created",
        ])
    );
}

#[test]
fn the_full_sequence_ends_where_a_stage_fails() {
    let mut disk = host();
    let result = drive_full(
        run_full_protection(params(&["/gone"], true, true, true), Some("/data"), PathStyle::Posix),
        &mut disk,
    );
    assert!(!result.success);
    assert_eq!(result.error, Some("Failed to delete gone: denied".to_string()));
    assert_eq!(
        result.logs,
        lines(&["Checking system state...", "[OK] No running instances", "Deleting: gone"])
    );
    assert!(disk.nodes.is_empty());

    let result = drive_full(
        run_full_protection(params(&[], false, true, true), None, PathStyle::Posix),
        &mut disk,
    );
    assert!(!result.success);
    assert_eq!(result.error, Some("Failed to get LOCALAPPDATA".to_string()));
    assert_eq!(
        result.logs,
        lines(&[
            "Checking system state...",
            "[OK] No running instances",
            "[OK] No versions to delete",
            "Skipping cache cleaning (disabled)",
        ])
    );
}

#[test]
fn a_switch_to_a_missing_target_fails_and_writes_nothing() {
    let mut disk = host().with(POINTER, file("", true));
    let before = disk.nodes.clone();
    let result = drive_switch(
        switch_version(
            "/nonexistent/9.9.9.9".to_string(),
            PathStyle::Posix,
            Some("/data/CapCut"),
            Some("/data/CapCut/Apps"),
        ),
        &mut disk,
    );
    assert!(!result.success);
    assert_eq!(result.message, "Target version not found");
    assert_eq!(
        result.logs,
        lines(&[
            "Initiating switch to version at: \"/nonexistent/9.9.9.9\"",
            "[!] Target directory does not exist",
        ])
    );
    assert_eq!(disk.nodes, before);
    assert_eq!(disk.asked.len(), 1);
}

#[test]
fn a_switch_rewrites_the_pointer_and_the_configuration() {
    let target = "/data/CapCut/Apps/3.1.0.100";
    let mut disk = host()
        .with(target, Node::Dir { readonly: false })
        .with(POINTER, file("", true))
        .with(CONFIG, file("a=1\nlast_version=1.0.0.0\nb=2", false));
    let result = drive_switch(
        switch_version(
            target.to_string(),
            PathStyle::Posix,
            Some("/data/CapCut"),
            Some("/data/CapCut/Apps"),
        ),
        &mut disk,
    );
    assert!(result.success);
    assert_eq!(result.message, "Successfully switched to v3.1.0.100");
    assert_eq!(
        result.logs,
        lines(&[
            "Initiating switch to version at: \"/data/CapCut/Apps/3.1.0.100\"",
            "Detected version: 3.1.0.100",
            "Updating ProductInfo at: \"/data/CapCut/Apps/ProductInfo.xml\"",
            "Removed Read-Only attribute from ProductInfo.xml",
            "[OK] Updated ProductInfo.xml",
            "Updating configure.ini at: \"/data/CapCut/Apps/configure.ini\"",
            "[OK] Updated configure.ini",
        ])
    );
    assert_eq!(
        disk.nodes[POINTER],
        file(
            "<?xml version=\"1.0\" charset=\"utf-8\"?>\n<ProductInfo>\n  <InstallPath>/data/CapCut/Apps/3.1.0.100/CapCut.exe</InstallPath>\n  <Version>3.1.0.100</Version>\n</ProductInfo>",
            false
        )
    );
    assert_eq!(disk.nodes[CONFIG], file("[Configure]\r\nlast_version=3.1.0.100\r\n", false));
}

#[test]
fn a_switch_reports_success_though_its_writes_fail() {
    let mut disk = host()
        .with("C:\\old\\2.9", Node::Dir { readonly: false })
        .with("C:\\cc\\Apps\\ProductInfo.xml", Node::Dir { readonly: false })
        .with("C:\\cc\\Apps\\configure.ini", Node::Dir { readonly: true });
    let result = drive_switch(
        switch_version(
            "C:\\old\\2.9".to_string(),
            PathStyle::Windows,
            Some("C:\\cc"),
            Some("C:\\cc\\Apps"),
        ),
        &mut disk,
    );
    assert!(result.success);
    assert_eq!(result.message, "Successfully switched to v2.9");
    assert_eq!(
        result.logs,
        lines(&[
            "Initiating switch to version at: \"C:\\\\old\\\\2.9\"",
            "Detected version: 2.9",
            "Updating ProductInfo at: \"C:\\\\cc\\\\Apps\\\\ProductInfo.xml\"",
            "[!] Failed to write ProductInfo.xml: denied",
            "Updating configure.ini at: \"C:\\\\cc\\\\Apps\\\\configure.ini\"",
            "[!] Failed to write configure.ini: denied",
        ])
    );
}

#[test]
fn a_switch_leaves_out_a_file_whose_directory_is_unknown() {
    let mut disk = host().with("/", Node::Dir { readonly: false });
    let result =
        drive_switch(switch_version("/".to_string(), PathStyle::Posix, None, None), &mut disk);
    assert!(result.success);
    assert_eq!(result.message, "Successfully switched to vunknown");
    assert_eq!(
        result.logs,
        lines(&["Initiating switch to version at: \"/\"", "Detected version: unknown"])
    );
    assert_eq!(disk.asked.len(), 1);
}

#[test]
fn flags_are_cleared_where_they_stand_and_nowhere_else() {
    let mut disk = host()
        .with("/d", Node::Dir { readonly: true })
        .with("/d/a", file("x", true))
        .with("/d/b", file("y", false))
        .with("/e", file("z", true));
    drive_clear(clear_readonly_recursive(lines(&["/d", "/d/a", "/d/gone", "/d/b"])), &mut disk);
    assert_eq!(disk.nodes["/d"], Node::Dir { readonly: false });
    assert_eq!(disk.nodes["/d/a"], file("x", false));
    assert_eq!(disk.nodes["/d/b"], file("y", false));
    assert_eq!(disk.nodes["/e"], file("z", true));
    assert_eq!(
        disk.asked,
        lines(&[
            "Probe { path: \"/d\" }",
            "ClearReadonly { path: \"/d\" }",
            "Probe { path: \"/d/a\" }",
            "ClearReadonly { path: \"/d/a\" }",
            "Probe { path: \"/d/gone\" }",
            "Probe { path: \"/d/b\" }",
        ])
    );
}

#[test]
fn clearing_flags_never_fails() {
    match clear_readonly_recursive(Vec::new()) {
        Progress::Done(()) => {}
        Progress::Ask(_) => panic!("nothing to clear, yet the host is asked"),
    }
    let run = match clear_readonly_recursive(lines(&["/a", "/b"])) {
        Progress::Ask(run) => run,
        Progress::Done(()) => panic!("two entries, yet nothing is asked"),
    };
    let flagged = FileProbe { exists: true, is_dir: false, size: 1, readonly: true };
    let run = match run.resume(Reply::Probed(flagged)) {
        Progress::Ask(run) => run,
        Progress::Done(()) => panic!("ended before the flag was cleared"),
    };
    match run.request() {
        Request::ClearReadonly { path } => assert_eq!(path, "/a"),
        other => panic!("unexpected request {:?}", other),
    }
    let run = match run.resume(Reply::Outcome(Err("denied".to_string()))) {
        Progress::Ask(run) => run,
        Progress::Done(()) => panic!("a flag that stays ended the clearing"),
    };
    match run.request() {
        Request::Probe { path } => assert_eq!(path, "/b"),
        other => panic!("unexpected request {:?}", other),
    }
    let unreadable = FileProbe { exists: false, is_dir: false, size: 0, readonly: true };
    match run.resume(Reply::Probed(unreadable)) {
        Progress::Done(()) => {}
        Progress::Ask(_) => panic!("the clearing goes on behind its last entry"),
    }
}
