//! Paths as text: how the engine joins names to a directory, names a
//! directory by its last component, and lays out the installation.

use crate::text::{push_range, to_chars};
use vstd::prelude::*;

verus! {

/// The path conventions of the host.
#[derive(Clone, Copy, Debug, PartialEq, Eq, Structural)]
pub enum PathStyle {
    /// `/` separates components.
    Posix,
    /// `\` and `/` both separate components; `\` is written.
    Windows,
}

/// Whether `c` separates two components of a path.
pub open spec fn is_separator(style: PathStyle, c: char) -> bool {
    c == '/' || (style == PathStyle::Windows && c == '\\')
}

/// The separator that is written between two components.
pub open spec fn main_separator(style: PathStyle) -> char {
    if style == PathStyle::Windows {
        '\\'
    } else {
        '/'
    }
}

/// `name` below `base`: a separator is put between them unless `base` is
/// empty or already ends in one.
pub open spec fn joined(base: Seq<char>, name: Seq<char>, style: PathStyle) -> Seq<char> {
    if base.len() == 0 || is_separator(style, base.last()) {
        base + name
    } else {
        base.push(main_separator(style)) + name
    }
}

/// The longest run of characters at the end of `path` that holds no separator.
pub open spec fn last_segment(path: Seq<char>, style: PathStyle) -> Seq<char>
    decreases path.len(),
{
    if path.len() == 0 || is_separator(style, path.last()) {
        Seq::empty()
    } else {
        last_segment(path.drop_last(), style).push(path.last())
    }
}

/// The name of the file or directory that `path` leads to: its last
/// component, where separators at the end and `.` components do not count.
/// There is none where nothing is left or that component is `..`.
pub open spec fn file_name(path: Seq<char>, style: PathStyle) -> Option<Seq<char>>
    decreases path.len(),
{
    if path.len() == 0 {
        None
    } else if is_separator(style, path.last()) {
        file_name(path.drop_last(), style)
    } else {
        let name = last_segment(path, style);
        if name == seq!['.'] {
            file_name(path.drop_last(), style)
        } else if name == seq!['.', '.'] {
            None
        } else {
            Some(name)
        }
    }
}

/// The last segment of `path` starts where the last separator ends.
pub proof fn lemma_last_segment(path: Seq<char>, style: PathStyle, start: int)
    requires
        0 <= start <= path.len(),
        forall|k: int| start <= k < path.len() ==> !is_separator(style, path[k]),
        start > 0 ==> is_separator(style, path[start - 1]),
    ensures
        last_segment(path, style) == path.skip(start),
    decreases path.len(),
{
    if start == path.len() {
        assert(path.skip(start) == Seq::<char>::empty());
    } else {
        lemma_last_segment(path.drop_last(), style, start);
        assert(path.drop_last().skip(start).push(path.last()) == path.skip(start));
    }
}

/// Tests `c` for a separator.
pub fn is_separator_char(style: PathStyle, c: char) -> (b: bool)
    ensures
        b == is_separator(style, c),
{
    c == '/' || (style == PathStyle::Windows && c == '\\')
}

/// Puts `name` below `base`.
pub fn join_path(base: &str, name: &str, style: PathStyle) -> (out: String)
    ensures
        out@ == joined(base@, name@, style),
{
    let chars = to_chars(base);
    let mut out = base.to_owned();
    if chars.len() > 0 && !is_separator_char(style, chars[chars.len() - 1]) {
        if style == PathStyle::Windows {
            out.push('\\');
        } else {
            out.push('/');
        }
    }
    out.append(name);
    out
}

/// The name of the file or directory that `path` leads to.
pub fn path_file_name(path: &str, style: PathStyle) -> (out: Option<String>)
    ensures
        out.is_some() == file_name(path@, style).is_some(),
        out matches Some(name) ==> file_name(path@, style) == Some(name@),
{
    let chars = to_chars(path);
    let mut end: usize = chars.len();
    assert(chars@.take(end as int) == chars@);
    while end > 0
        invariant
            end <= chars.len(),
            chars@ == path@,
            file_name(chars@.take(end as int), style) == file_name(path@, style),
        decreases end,
    {
        let ghost head = chars@.take(end as int);
        assert(head.drop_last() == chars@.take(end - 1));
        if is_separator_char(style, chars[end - 1]) {
            end -= 1;
        } else {
            let mut start: usize = end - 1;
            while start > 0 && !is_separator_char(style, chars[start - 1])
                invariant
                    start < end <= chars.len(),
                    forall|k: int| start <= k < end ==> !is_separator(style, chars@[k]),
                decreases start,
            {
                start -= 1;
            }
            proof {
                lemma_last_segment(head, style, start as int);
                assert(head.skip(start as int) == chars@.subrange(start as int, end as int));
            }
            let ghost name = chars@.subrange(start as int, end as int);
            if end - start == 1 && chars[start] == '.' {
                assert(name == seq!['.']);
                end -= 1;
            } else if end - start == 2 && chars[start] == '.' && chars[start + 1] == '.' {
                assert(name == seq!['.', '.']);
                return None;
            } else {
                assert(name != seq!['.']) by {
                    assert(seq!['.'].len() == 1 && seq!['.'][0] == '.');
                }
                assert(name != seq!['.', '.']) by {
                    assert(seq!['.', '.'].len() == 2 && seq!['.', '.'][0] == '.' && seq![
                        '.',
                        '.',
                    ][1] == '.');
                    if end - start == 2 {
                        assert(name[0] == chars@[start as int] && name[1] == chars@[start + 1]);
                    }
                }
                let mut out = String::new();
                push_range(&mut out, &chars, start, end);
                return Some(out);
            }
        }
    }
    assert(chars@.take(0).len() == 0);
    None
}

/// Where the installation keeps what the engine works on.
#[derive(Debug)]
pub struct InstallPaths {
    /// The installation root.
    pub root: String,
    /// The directory that holds the configuration and the pointer file.
    pub apps_dir: String,
    /// The configuration file.
    pub config_file: String,
    /// The file that points at the active version.
    pub pointer_file: String,
    /// The directory into which the updater downloads.
    pub download_dir: String,
    /// The place of the downloaded updater.
    pub update_blocker: String,
}

/// `InstallPaths` as plain text.
pub struct Layout {
    pub root: Seq<char>,
    pub apps_dir: Seq<char>,
    pub config_file: Seq<char>,
    pub pointer_file: Seq<char>,
    pub download_dir: Seq<char>,
    pub update_blocker: Seq<char>,
}

impl View for InstallPaths {
    type V = Layout;

    open spec fn view(&self) -> Layout {
        Layout {
            root: self.root@,
            apps_dir: self.apps_dir@,
            config_file: self.config_file@,
            pointer_file: self.pointer_file@,
            download_dir: self.download_dir@,
            update_blocker: self.update_blocker@,
        }
    }
}

/// The layout below the per-user application data directory `data_dir`.
pub open spec fn layout(data_dir: Seq<char>, style: PathStyle) -> Layout {
    let root = joined(data_dir, "CapCut"@, style);
    let apps_dir = joined(root, "Apps"@, style);
    let download_dir = joined(joined(root, "User Data"@, style), "Download"@, style);
    Layout {
        root,
        apps_dir,
        config_file: joined(apps_dir, "configure.ini"@, style),
        pointer_file: joined(apps_dir, "ProductInfo.xml"@, style),
        download_dir,
        update_blocker: joined(download_dir, "update.exe"@, style),
    }
}

impl InstallPaths {
    /// Lays the installation out below the application data directory.
    pub fn resolve(data_dir: &str, style: PathStyle) -> (paths: InstallPaths)
        ensures
            paths@ == layout(data_dir@, style),
    {
        let root = join_path(data_dir, "CapCut", style);
        let apps_dir = join_path(root.as_str(), "Apps", style);
        let user_data = join_path(root.as_str(), "User Data", style);
        let download_dir = join_path(user_data.as_str(), "Download", style);
        let config_file = join_path(apps_dir.as_str(), "configure.ini", style);
        let pointer_file = join_path(apps_dir.as_str(), "ProductInfo.xml", style);
        let update_blocker = join_path(download_dir.as_str(), "update.exe", style);
        InstallPaths { root, apps_dir, config_file, pointer_file, download_dir, update_blocker }
    }

    /// A copy of these paths.
    pub fn duplicate(&self) -> (copy: InstallPaths)
        ensures
            copy@ == self@,
    {
        InstallPaths {
            root: self.root.clone(),
            apps_dir: self.apps_dir.clone(),
            config_file: self.config_file.clone(),
            pointer_file: self.pointer_file.clone(),
            download_dir: self.download_dir.clone(),
            update_blocker: self.update_blocker.clone(),
        }
    }
}

} // verus!
