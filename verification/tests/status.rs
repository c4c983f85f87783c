use version_guard::blocker::is_blocker_present;
use version_guard::commands::process::{expected_apps_path, perform_precheck};
use version_guard::commands::protector::{check_protection_status, Evidence, ProtectionStatus};
use version_guard::host::FileProbe;
use version_guard::paths::PathStyle;

fn probe(exists: bool, size: u64, readonly: bool) -> FileProbe {
    FileProbe { exists, is_dir: false, size, readonly }
}

#[test]
fn a_blocker_is_there_empty_and_read_only() {
    for exists in [false, true] {
        for size in [0u64, 1, 4096] {
            for readonly in [false, true] {
                assert_eq!(
                    is_blocker_present(&probe(exists, size, readonly)),
                    exists && size == 0 && readonly
                );
            }
        }
    }
}

#[test]
fn the_status_follows_the_evidence_in_every_combination() {
    let configs: [Option<&str>; 4] = [
        None,
        Some(""),
        Some("a=1\nlast_version=3.1.0.100"),
        Some("a=1\n  last_version=1.0.0.0\n"),
    ];
    for pointer_exists in [false, true] {
        for pointer_size in [0u64, 7] {
            for pointer_readonly in [false, true] {
                for update_exists in [false, true] {
                    for update_size in [0u64, 7] {
                        for update_readonly in [false, true] {
                            for config in configs {
                                let evidence = Evidence {
                                    pointer: probe(pointer_exists, pointer_size, pointer_readonly),
                                    update: probe(update_exists, update_size, update_readonly),
                                    config: config.map(|text| text.to_string()),
                                };
                                let blockers = (pointer_exists
                                    && pointer_size == 0
                                    && pointer_readonly)
                                    || (update_exists && update_size == 0 && update_readonly);
                                let locked = config == Some("a=1\n  last_version=1.0.0.0\n");
                                assert_eq!(
                                    check_protection_status(Some(&evidence)),
                                    ProtectionStatus {
                                        is_protected: blockers || locked,
                                        config_locked: locked,
                                        blockers_exist: blockers,
                                    }
                                );
                            }
                        }
                    }
                }
            }
        }
    }
}

#[test]
fn the_lock_is_found_by_its_text_alone() {
    let evidence = Evidence {
        pointer: probe(false, 0, false),
        update: probe(false, 0, false),
        config: Some("note: was last_version=1.0.0.0 once".to_string()),
    };
    let status = check_protection_status(Some(&evidence));
    assert!(status.config_locked);
    assert!(status.is_protected);
    assert!(!status.blockers_exist);
}

#[test]
fn without_evidence_nothing_is_protected() {
    assert_eq!(
        check_protection_status(None),
        ProtectionStatus { is_protected: false, config_locked: false, blockers_exist: false }
    );
}

#[test]
fn the_precheck_reports_what_was_found() {
    let result = perform_precheck(Some("/data"), PathStyle::Posix, true, false);
    assert!(result.capcut_found);
    assert!(!result.capcut_running);
    assert_eq!(result.apps_path, Some("/data/CapCut/Apps".to_string()));

    let result = perform_precheck(Some("C:\\ld\\"), PathStyle::Windows, false, true);
    assert!(!result.capcut_found);
    assert!(result.capcut_running);
    assert_eq!(result.apps_path, Some("C:\\ld\\CapCut\\Apps".to_string()));

    let result = perform_precheck(None, PathStyle::Windows, true, true);
    assert!(!result.capcut_found);
    assert!(result.capcut_running);
    assert_eq!(result.apps_path, None);
    assert_eq!(expected_apps_path(None, PathStyle::Posix), None);
}
