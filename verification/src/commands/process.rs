//! The check that comes before anything is changed.

use crate::host::str_of;
use crate::paths::{layout, InstallPaths, PathStyle};
use vstd::prelude::*;

verus! {

/// What the check before an operation found.
#[derive(Debug)]
pub struct PreCheckResult {
    pub capcut_found: bool,
    pub capcut_running: bool,
    pub apps_path: Option<String>,
}

/// `PreCheckResult` as plain values.
pub struct PreCheck {
    pub capcut_found: bool,
    pub capcut_running: bool,
    pub apps_path: Option<Seq<char>>,
}

impl View for PreCheckResult {
    type V = PreCheck;

    open spec fn view(&self) -> PreCheck {
        PreCheck {
            capcut_found: self.capcut_found,
            capcut_running: self.capcut_running,
            apps_path: match self.apps_path {
                Some(path) => Some(path@),
                None => None,
            },
        }
    }
}

/// The directory whose presence shows that the application is installed.
pub open spec fn apps_dir_of(data_dir: Option<Seq<char>>, style: PathStyle) -> Option<Seq<char>> {
    match data_dir {
        Some(dir) => Some(layout(dir, style).apps_dir),
        None => None,
    }
}

/// The directory whose presence shows that the application is installed,
/// where the data directory is known.
pub fn expected_apps_path(data_dir: Option<&str>, style: PathStyle) -> (path: Option<String>)
    ensures
        crate::host::text_of(path) == apps_dir_of(str_of(data_dir), style),
{
    match data_dir {
        Some(dir) => Some(InstallPaths::resolve(dir, style).apps_dir),
        None => None,
    }
}

/// Puts the check together from what the host found: whether the directory
/// of `expected_apps_path` is there, and whether the application runs. The
/// application counts as found where the data directory is known and that
/// directory is there.
pub fn perform_precheck(
    data_dir: Option<&str>,
    style: PathStyle,
    apps_dir_exists: bool,
    running: bool,
) -> (result: PreCheckResult)
    ensures
        result@ == (PreCheck {
            capcut_found: data_dir is Some && apps_dir_exists,
            capcut_running: running,
            apps_path: apps_dir_of(str_of(data_dir), style),
        }),
{
    let apps_path = expected_apps_path(data_dir, style);
    let capcut_found = apps_path.is_some() && apps_dir_exists;
    PreCheckResult { capcut_found, capcut_running: running, apps_path }
}

} // verus!
