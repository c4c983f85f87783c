//! What each operation leaves on the disk: the machines run against the
//! model of the disk, and what those runs come to.

use crate::attributes::{clear_from, ClearState};
use crate::blocker::{is_blocker, BlockerStage};
use crate::commands::protector::{
    apply_start, remove_start, slot_path, ApplyStage, ApplyState, Outcome, ProtectionStatus,
    RemoveStage, RemoveState, Slot,
};
use crate::config::{
    free_of_stray_marks, lemma_lock_mark_is_entry, lemma_lock_sets_the_mark, lemma_lock_twice,
    lemma_unlock_clears_the_mark, lemma_unlock_undoes_lock, lock_mark, locked_text,
    pinned_version, unlocked_text, upserted, version_key,
};
use crate::disk::{
    blocker, flagged, probe_at, respond, status_on, text_at, unflagged, writable, Disk, Node,
};
use crate::host::{flag_set, Answer, Ask, Progress};
use crate::paths::{joined, layout, main_separator, Layout, PathStyle};
use crate::text::{contains_text, resplits_alike, split_lines};
use vstd::prelude::*;

verus! {

/// Applying protection against the model: each request is answered by
/// `respond` until the operation ends or `fuel` requests were made.
pub open spec fn run_apply(
    progress: Progress<ApplyState, Outcome>,
    disk: Disk,
    why: Seq<char>,
    fuel: nat,
) -> (Option<Outcome>, Disk)
    decreases fuel,
{
    match progress {
        Progress::Done(result) => (Some(result), disk),
        Progress::Ask(state) => if fuel == 0 {
            (None, disk)
        } else {
            let (after, answer) = respond(disk, state.ask(), why);
            run_apply(state.next(answer), after, why, (fuel - 1) as nat)
        },
    }
}

/// Removing protection against the model.
pub open spec fn run_remove(
    progress: Progress<RemoveState, Outcome>,
    disk: Disk,
    why: Seq<char>,
    fuel: nat,
) -> (Option<Outcome>, Disk)
    decreases fuel,
{
    match progress {
        Progress::Done(result) => (Some(result), disk),
        Progress::Ask(state) => if fuel == 0 {
            (None, disk)
        } else {
            let (after, answer) = respond(disk, state.ask(), why);
            run_remove(state.next(answer), after, why, (fuel - 1) as nat)
        },
    }
}

/// The text of the configuration as the lock reads it: empty where no file
/// can be read.
pub open spec fn config_text(disk: Disk, paths: Layout) -> Seq<char> {
    match text_at(disk, paths.config_file) {
        Some(text) => text,
        None => Seq::empty(),
    }
}

/// The disk after the blockers were placed, or as far as that got: the
/// blocker at the pointer file, the download directory, the blocker at the
/// place of the updater. A file in the place of the download directory stops
/// it after the first blocker.
pub open spec fn blockers_placed(disk: Disk, paths: Layout) -> Disk {
    let first = disk.insert(paths.pointer_file, blocker());
    if first.dom().contains(paths.download_dir) {
        if first[paths.download_dir] is Dir {
            first.insert(paths.update_blocker, blocker())
        } else {
            first
        }
    } else {
        first.insert(paths.download_dir, Node::Dir { size: 0, readonly: false }).insert(
            paths.update_blocker,
            blocker(),
        )
    }
}

/// Whether the download directory is there or can be made: no file stands in
/// its place.
pub open spec fn download_dir_free(disk: Disk, paths: Layout) -> bool {
    !(disk.dom().contains(paths.download_dir) && disk[paths.download_dir] is File)
}

/// Whether applying protection succeeds on `disk`: the configuration can be
/// written, where it is to be locked, and the download directory is there or
/// can be made, where blockers are to be placed.
pub open spec fn applies_fully(
    disk: Disk,
    paths: Layout,
    lock_config: bool,
    create_blockers: bool,
) -> bool {
    &&& lock_config ==> writable(disk, paths.config_file)
    &&& create_blockers ==> download_dir_free(disk, paths)
}

/// The disk that applying protection leaves: the configuration locked, where
/// that is asked for and the file can be written, then the blockers, where
/// they are asked for. A configuration that cannot be written stops it before
/// anything is changed.
pub open spec fn applied(disk: Disk, paths: Layout, lock_config: bool, create_blockers: bool) -> Disk {
    if lock_config && !writable(disk, paths.config_file) {
        disk
    } else {
        let locked = if lock_config {
            disk.insert(
                paths.config_file,
                Node::File { content: locked_text(config_text(disk, paths)), readonly: false },
            )
        } else {
            disk
        };
        if create_blockers {
            blockers_placed(locked, paths)
        } else {
            locked
        }
    }
}

/// The four paths that applying protection touches are four different paths.
pub proof fn lemma_layout_paths_differ(data_dir: Seq<char>, style: PathStyle)
    ensures
        ({
            let paths = layout(data_dir, style);
            &&& paths.config_file != paths.pointer_file
            &&& paths.config_file != paths.download_dir
            &&& paths.config_file != paths.update_blocker
            &&& paths.pointer_file != paths.download_dir
            &&& paths.pointer_file != paths.update_blocker
            &&& paths.download_dir != paths.update_blocker
        }),
{
    reveal_strlit("CapCut");
    reveal_strlit("Apps");
    reveal_strlit("User Data");
    reveal_strlit("Download");
    reveal_strlit("configure.ini");
    reveal_strlit("ProductInfo.xml");
    reveal_strlit("update.exe");
    let paths = layout(data_dir, style);
    let sep = main_separator(style);
    let root = paths.root;
    assert(root.len() >= 6 && root.last() == 't');
    let n = root.len() as int;
    let apps = paths.apps_dir;
    assert(apps == root.push(sep) + "Apps"@);
    assert(apps.len() == n + 5 && apps.last() == 's');
    assert(apps[n + 1] == 'A');
    let user = joined(root, "User Data"@, style);
    assert(user == root.push(sep) + "User Data"@);
    assert(user.len() == n + 10 && user.last() == 'a');
    assert(user[n + 1] == 'U');
    let download = paths.download_dir;
    assert(download == user.push(sep) + "Download"@);
    assert(download.len() == n + 19 && download.last() == 'd');
    assert(download[n + 1] == user[n + 1]);
    let update = paths.update_blocker;
    assert(update == download.push(sep) + "update.exe"@);
    assert(update[n + 1] == download[n + 1]);
    assert(update.len() == n + 30);
    let config = paths.config_file;
    assert(config == apps.push(sep) + "configure.ini"@);
    assert(config[n + 1] == apps[n + 1]);
    assert(config[n + 6] == 'c');
    let pointer = paths.pointer_file;
    assert(pointer == apps.push(sep) + "ProductInfo.xml"@);
    assert(pointer[n + 1] == apps[n + 1]);
    assert(pointer[n + 6] == 'P');
}

/// The state of applying while the blocker at one of the two places is made.
pub open spec fn making(state: ApplyState, first: bool, at: BlockerStage) -> ApplyState {
    ApplyState {
        stage: if first {
            ApplyStage::Pointer(at)
        } else {
            ApplyStage::Update(at)
        },
        ..state
    }
}

/// The place of the first or of the second blocker.
pub open spec fn blocker_place(paths: Layout, first: bool) -> Seq<char> {
    if first {
        paths.pointer_file
    } else {
        paths.update_blocker
    }
}

/// The number of requests that making a blocker at `path` takes.
pub open spec fn blocker_cost(disk: Disk, path: Seq<char>) -> nat {
    if disk.dom().contains(path) {
        5
    } else {
        3
    }
}

/// Making a blocker against the model always succeeds: whatever stood at its
/// path, the blocker stands there afterwards, nothing else has changed, and
/// the run goes on as after a marking that succeeded.
pub proof fn lemma_blocker_made(state: ApplyState, first: bool, disk: Disk, why: Seq<char>, fuel: nat)
    requires
        fuel >= 5,
    ensures
        run_apply(Progress::Ask(making(state, first, BlockerStage::Probe)), disk, why, fuel)
            == run_apply(
            making(state, first, BlockerStage::Mark).next(Answer::Outcome(Ok(()))),
            disk.insert(blocker_place(state.paths, first), blocker()),
            why,
            (fuel - blocker_cost(disk, blocker_place(state.paths, first))) as nat,
        ),
{
    let path = blocker_place(state.paths, first);
    let probing = making(state, first, BlockerStage::Probe);
    let writing = making(state, first, BlockerStage::Write);
    let marking = making(state, first, BlockerStage::Mark);
    let empty = Node::File { content: Seq::empty(), readonly: false };
    let goal = disk.insert(path, blocker());
    if disk.dom().contains(path) {
        let is_dir = disk[path] is Dir;
        let clearing = making(state, first, BlockerStage::Clear { is_dir });
        let removing = making(state, first, BlockerStage::Remove { is_dir });
        let cleared = disk.insert(path, flagged(disk[path], false));
        let removed = cleared.remove(path);
        let written = removed.insert(path, empty);
        let marked = written.insert(path, flagged(written[path], true));
        assert(probing.next(respond(disk, probing.ask(), why).1) == Progress::<
            ApplyState,
            Outcome,
        >::Ask(clearing));
        assert(run_apply(Progress::Ask(probing), disk, why, fuel) == run_apply(
            Progress::Ask(clearing),
            disk,
            why,
            (fuel - 1) as nat,
        ));
        assert(respond(disk, clearing.ask(), why).0 == cleared);
        assert(clearing.next(respond(disk, clearing.ask(), why).1) == Progress::<
            ApplyState,
            Outcome,
        >::Ask(removing));
        assert(run_apply(Progress::Ask(clearing), disk, why, (fuel - 1) as nat) == run_apply(
            Progress::Ask(removing),
            cleared,
            why,
            (fuel - 2) as nat,
        ));
        assert(respond(cleared, removing.ask(), why) == (removed, Answer::Outcome(Ok(()))));
        assert(removing.next(Answer::Outcome(Ok(()))) == Progress::<ApplyState, Outcome>::Ask(
            writing,
        ));
        assert(run_apply(Progress::Ask(removing), cleared, why, (fuel - 2) as nat) == run_apply(
            Progress::Ask(writing),
            removed,
            why,
            (fuel - 3) as nat,
        ));
        assert(respond(removed, writing.ask(), why) == (written, Answer::Outcome(Ok(()))));
        assert(writing.next(Answer::Outcome(Ok(()))) == Progress::<ApplyState, Outcome>::Ask(
            marking,
        ));
        assert(run_apply(Progress::Ask(writing), removed, why, (fuel - 3) as nat) == run_apply(
            Progress::Ask(marking),
            written,
            why,
            (fuel - 4) as nat,
        ));
        assert(respond(written, marking.ask(), why) == (marked, Answer::Outcome(Ok(()))));
        assert(marked =~= goal);
        assert(run_apply(Progress::Ask(marking), written, why, (fuel - 4) as nat) == run_apply(
            marking.next(Answer::Outcome(Ok(()))),
            goal,
            why,
            (fuel - 5) as nat,
        ));
    } else {
        let written = disk.insert(path, empty);
        let marked = written.insert(path, flagged(written[path], true));
        assert(probing.next(respond(disk, probing.ask(), why).1) == Progress::<
            ApplyState,
            Outcome,
        >::Ask(writing));
        assert(run_apply(Progress::Ask(probing), disk, why, fuel) == run_apply(
            Progress::Ask(writing),
            disk,
            why,
            (fuel - 1) as nat,
        ));
        assert(respond(disk, writing.ask(), why) == (written, Answer::Outcome(Ok(()))));
        assert(writing.next(Answer::Outcome(Ok(()))) == Progress::<ApplyState, Outcome>::Ask(
            marking,
        ));
        assert(run_apply(Progress::Ask(writing), disk, why, (fuel - 1) as nat) == run_apply(
            Progress::Ask(marking),
            written,
            why,
            (fuel - 2) as nat,
        ));
        assert(respond(written, marking.ask(), why) == (marked, Answer::Outcome(Ok(()))));
        assert(marked =~= goal);
        assert(run_apply(Progress::Ask(marking), written, why, (fuel - 2) as nat) == run_apply(
            marking.next(Answer::Outcome(Ok(()))),
            goal,
            why,
            (fuel - 3) as nat,
        ));
    }
}

/// Placing both blockers against the model, from the first look at the
/// pointer file on, ends and leaves the disk that `blockers_placed`
/// describes. It fails only where a file stands in the place of the download
/// directory.
pub proof fn lemma_blockers_run(state: ApplyState, disk: Disk, why: Seq<char>, fuel: nat)
    requires
        fuel >= 11,
        state.stage == ApplyStage::Pointer(BlockerStage::Probe),
    ensures
        run_apply(Progress::Ask(state), disk, why, fuel).0 matches Some(result) && result.success
            == download_dir_free(
            disk.insert(state.paths.pointer_file, blocker()),
            state.paths,
        ),
        run_apply(Progress::Ask(state), disk, why, fuel).1 == blockers_placed(disk, state.paths),
{
    let paths = state.paths;
    assert(making(state, true, BlockerStage::Probe) == state);
    lemma_blocker_made(state, true, disk, why, fuel);
    let first = disk.insert(paths.pointer_file, blocker());
    let left = (fuel - blocker_cost(disk, paths.pointer_file)) as nat;
    let dirs = ApplyState { stage: ApplyStage::MakeDirs, ..state };
    assert(making(state, true, BlockerStage::Mark).next(Answer::Outcome(Ok(()))) == Progress::<
        ApplyState,
        Outcome,
    >::Ask(dirs));
    let (second, answer) = respond(first, dirs.ask(), why);
    assert(run_apply(Progress::Ask(dirs), first, why, left) == run_apply(
        dirs.next(answer),
        second,
        why,
        (left - 1) as nat,
    ));
    if answer == Answer::Outcome(Ok(())) {
        assert(dirs.next(answer) == Progress::<ApplyState, Outcome>::Ask(
            making(state, false, BlockerStage::Probe),
        ));
        lemma_blocker_made(state, false, second, why, (left - 1) as nat);
        assert(making(state, false, BlockerStage::Mark).next(Answer::Outcome(Ok(())))
            is Done);
    } else {
        assert(dirs.next(answer) is Done);
    }
}

/// What a run of applying protection against the model comes to: it ends,
/// in success where `applies_fully` says so, and it leaves the disk that
/// `applied` describes.
pub proof fn lemma_apply_run(
    disk: Disk,
    data_dir: Seq<char>,
    style: PathStyle,
    lock_config: bool,
    create_blockers: bool,
    why: Seq<char>,
    fuel: nat,
)
    requires
        fuel >= 13,
    ensures
        run_apply(
            apply_start(Some(data_dir), style, lock_config, create_blockers),
            disk,
            why,
            fuel,
        ).0 matches Some(result) && result.success == applies_fully(
            disk,
            layout(data_dir, style),
            lock_config,
            create_blockers,
        ),
        run_apply(
            apply_start(Some(data_dir), style, lock_config, create_blockers),
            disk,
            why,
            fuel,
        ).1 == applied(disk, layout(data_dir, style), lock_config, create_blockers),
{
    let paths = layout(data_dir, style);
    let start = apply_start(Some(data_dir), style, lock_config, create_blockers);
    lemma_layout_paths_differ(data_dir, style);
    if lock_config {
        let reading = start->Ask_0;
        let writing = ApplyState {
            stage: ApplyStage::WriteConfig,
            pending: locked_text(config_text(disk, paths)),
            ..reading
        };
        assert(respond(disk, reading.ask(), why) == (
            disk,
            Answer::Text(text_at(disk, paths.config_file)),
        ));
        assert(reading.next(Answer::Text(text_at(disk, paths.config_file))) == Progress::<
            ApplyState,
            Outcome,
        >::Ask(writing));
        assert(run_apply(start, disk, why, fuel) == run_apply(
            Progress::Ask(writing),
            disk,
            why,
            (fuel - 1) as nat,
        ));
        let (locked, answer) = respond(disk, writing.ask(), why);
        assert(run_apply(Progress::Ask(writing), disk, why, (fuel - 1) as nat) == run_apply(
            writing.next(answer),
            locked,
            why,
            (fuel - 2) as nat,
        ));
        if writable(disk, paths.config_file) {
            if create_blockers {
                let placing = writing.next(answer)->Ask_0;
                lemma_blockers_run(placing, locked, why, (fuel - 2) as nat);
            } else {
                assert(writing.next(answer) is Done);
            }
        } else {
            assert(writing.next(answer) is Done);
        }
    } else {
        if create_blockers {
            let placing = start->Ask_0;
            lemma_blockers_run(placing, disk, why, fuel);
        } else {
            assert(start is Done);
        }
    }
}

/// Applying protection to a disk to which it was applied changes nothing on
/// it: the configuration file stays as it is, byte for byte, and so do the
/// blockers. This holds where the lock, if asked for, finds a configuration
/// whose locked text splits into the lines it was joined from.
pub proof fn lemma_applied_twice(
    disk: Disk,
    data_dir: Seq<char>,
    style: PathStyle,
    lock_config: bool,
    create_blockers: bool,
)
    requires
        lock_config ==> lock_settles(disk, layout(data_dir, style)),
    ensures
        applied(
            applied(disk, layout(data_dir, style), lock_config, create_blockers),
            layout(data_dir, style),
            lock_config,
            create_blockers,
        ) == applied(disk, layout(data_dir, style), lock_config, create_blockers),
{
    let paths = layout(data_dir, style);
    let once = applied(disk, paths, lock_config, create_blockers);
    let twice = applied(once, paths, lock_config, create_blockers);
    lemma_layout_paths_differ(data_dir, style);
    if lock_config && !writable(disk, paths.config_file) {
    } else {
        if lock_config {
            let text = config_text(disk, paths);
            if !disk.dom().contains(paths.config_file) {
                lemma_lock_mark_is_entry();
                assert(split_lines(text) == Seq::<Seq<char>>::empty());
                let only = upserted(split_lines(text), version_key(), pinned_version());
                assert(only.len() == 1 && only.last().len() > 0);
            }
            lemma_lock_twice(text);
            assert(once[paths.config_file] == Node::File {
                content: locked_text(text),
                readonly: false,
            });
            assert(config_text(once, paths) == locked_text(text));
        }
        assert(twice =~= once);
    }
}

/// Applying protection to `disk` with every request answered by the model:
/// how it ends, and the disk it leaves. Without a data directory nothing is
/// asked and the disk stays as it is.
pub open spec fn apply_on(
    disk: Disk,
    data_dir: Option<Seq<char>>,
    style: PathStyle,
    lock_config: bool,
    create_blockers: bool,
    why: Seq<char>,
) -> (Option<Outcome>, Disk) {
    run_apply(apply_start(data_dir, style, lock_config, create_blockers), disk, why, 13)
}

/// Whether locking the configuration on `disk` a second time writes what
/// the first time wrote: the configuration is no file that can be written,
/// or its locked text splits into the lines it was joined from.
pub open spec fn lock_settles(disk: Disk, paths: Layout) -> bool {
    disk.dom().contains(paths.config_file) ==> (disk[paths.config_file] matches Node::File {
        content,
        readonly: false,
    } ==> resplits_alike(upserted(split_lines(content), version_key(), pinned_version())))
}

/// Applying protection twice in a row leaves the disk that applying it once
/// leaves: the configuration byte for byte, the blockers, and everything
/// else. Left out are the disks on which the second lock writes another text
/// than the first, see `lock_settles`.
pub proof fn lemma_apply_twice(
    disk: Disk,
    data_dir: Option<Seq<char>>,
    style: PathStyle,
    lock_config: bool,
    create_blockers: bool,
    why: Seq<char>,
)
    requires
        lock_config ==> (data_dir matches Some(dir) ==> lock_settles(disk, layout(dir, style))),
    ensures
        ({
            let once = apply_on(disk, data_dir, style, lock_config, create_blockers, why);
            let twice = apply_on(once.1, data_dir, style, lock_config, create_blockers, why);
            once.0 is Some && twice.0 is Some && twice.1 == once.1
        }),
{
    match data_dir {
        Some(dir) => {
            lemma_apply_run(disk, dir, style, lock_config, create_blockers, why, 13);
            let once = apply_on(disk, data_dir, style, lock_config, create_blockers, why);
            lemma_apply_run(once.1, dir, style, lock_config, create_blockers, why, 13);
            lemma_applied_twice(disk, dir, style, lock_config, create_blockers);
        },
        None => {},
    }
}

/// The disk after the removal is done with the blocker at `path`: a file
/// there is gone; a directory stays, without its read-only flag.
pub open spec fn blocker_removed(disk: Disk, path: Seq<char>) -> Disk {
    if disk.dom().contains(path) {
        if disk[path] is File {
            disk.remove(path)
        } else {
            disk.insert(path, flagged(disk[path], false))
        }
    } else {
        disk
    }
}

/// The disk after the removal is done with the configuration: a file that
/// can be written holds its text without the version lines.
pub open spec fn config_unlocked(disk: Disk, paths: Layout) -> Disk {
    match text_at(disk, paths.config_file) {
        Some(text) => if writable(disk, paths.config_file) {
            disk.insert(
                paths.config_file,
                Node::File { content: unlocked_text(text), readonly: false },
            )
        } else {
            disk
        },
        None => disk,
    }
}

/// The disk that removing protection leaves.
pub open spec fn removed(disk: Disk, paths: Layout) -> Disk {
    config_unlocked(
        blocker_removed(blocker_removed(disk, paths.pointer_file), paths.update_blocker),
        paths,
    )
}

/// The removal of one blocker against the model: the run goes on behind
/// that blocker, with the log that this lemma returns, on the disk that
/// `blocker_removed` describes.
pub proof fn lemma_slot_removed(
    state: RemoveState,
    slot: Slot,
    disk: Disk,
    why: Seq<char>,
    fuel: nat,
) -> (logs: Seq<Seq<char>>)
    requires
        fuel >= 3,
        state.stage == RemoveStage::Probe(slot),
    ensures
        run_remove(Progress::Ask(state), disk, why, fuel) == run_remove(
            state.past(slot, logs),
            blocker_removed(disk, slot_path(state.paths, slot)),
            why,
            (fuel - blocker_cost(disk, slot_path(state.paths, slot)) + 2) as nat,
        ),
{
    let path = slot_path(state.paths, slot);
    let probe = probe_at(disk, path);
    assert(respond(disk, state.ask(), why) == (disk, Answer::Probed(probe)));
    assert(run_remove(Progress::Ask(state), disk, why, fuel) == run_remove(
        state.next(Answer::Probed(probe)),
        disk,
        why,
        (fuel - 1) as nat,
    ));
    if disk.dom().contains(path) {
        let clearing = state.next(Answer::Probed(probe))->Ask_0;
        let cleared = disk.insert(path, flagged(disk[path], false));
        assert(respond(disk, clearing.ask(), why) == (cleared, Answer::Outcome(Ok(()))));
        let removing = clearing.next(Answer::Outcome(Ok(())))->Ask_0;
        assert(run_remove(Progress::Ask(clearing), disk, why, (fuel - 1) as nat) == run_remove(
            Progress::Ask(removing),
            cleared,
            why,
            (fuel - 2) as nat,
        ));
        let (after, answer) = respond(cleared, removing.ask(), why);
        assert(run_remove(Progress::Ask(removing), cleared, why, (fuel - 2) as nat) == run_remove(
            removing.next(answer),
            after,
            why,
            (fuel - 3) as nat,
        ));
        assert(after =~= blocker_removed(disk, path));
        let logs = removing.next(answer)->Ask_0.logs;
        assert(removing.next(answer) == state.past(slot, logs));
        logs
    } else {
        state.logs
    }
}

/// What a run of removing protection against the model comes to: it ends in
/// success, and it leaves the disk that `removed` describes.
pub proof fn lemma_remove_run(
    disk: Disk,
    data_dir: Seq<char>,
    style: PathStyle,
    why: Seq<char>,
    fuel: nat,
)
    requires
        fuel >= 9,
    ensures
        run_remove(remove_start(Some(data_dir), style), disk, why, fuel).0 matches Some(result)
            && result.success,
        run_remove(remove_start(Some(data_dir), style), disk, why, fuel).1 == removed(
            disk,
            layout(data_dir, style),
        ),
{
    let paths = layout(data_dir, style);
    let first = remove_start(Some(data_dir), style)->Ask_0;
    let logs = lemma_slot_removed(first, Slot::Pointer, disk, why, fuel);
    let disk1 = blocker_removed(disk, paths.pointer_file);
    let fuel1 = (fuel - blocker_cost(disk, paths.pointer_file) + 2) as nat;
    let second = first.past(Slot::Pointer, logs)->Ask_0;
    let logs = lemma_slot_removed(second, Slot::Update, disk1, why, fuel1);
    let disk2 = blocker_removed(disk1, paths.update_blocker);
    let fuel2 = (fuel1 - blocker_cost(disk1, paths.update_blocker) + 2) as nat;
    let third = second.past(Slot::Update, logs)->Ask_0;
    let probe = probe_at(disk2, paths.config_file);
    assert(respond(disk2, third.ask(), why) == (disk2, Answer::Probed(probe)));
    assert(run_remove(Progress::Ask(third), disk2, why, fuel2) == run_remove(
        third.next(Answer::Probed(probe)),
        disk2,
        why,
        (fuel2 - 1) as nat,
    ));
    if disk2.dom().contains(paths.config_file) {
        let reading = third.next(Answer::Probed(probe))->Ask_0;
        let text = text_at(disk2, paths.config_file);
        assert(respond(disk2, reading.ask(), why) == (disk2, Answer::Text(text)));
        assert(run_remove(Progress::Ask(reading), disk2, why, (fuel2 - 1) as nat) == run_remove(
            reading.next(Answer::Text(text)),
            disk2,
            why,
            (fuel2 - 2) as nat,
        ));
        if text is Some {
            let writing = reading.next(Answer::Text(text))->Ask_0;
            let (after, answer) = respond(disk2, writing.ask(), why);
            assert(run_remove(Progress::Ask(writing), disk2, why, (fuel2 - 2) as nat)
                == run_remove(writing.next(answer), after, why, (fuel2 - 3) as nat));
            assert(writing.next(answer) is Done);
        } else {
            assert(reading.next(Answer::Text(text)) is Done);
        }
    } else {
        assert(third.next(Answer::Probed(probe)) is Done);
    }
}

/// Whether removing protection can clear the lock from what stands at the
/// configuration's path: a file that can be written holds the lock mark in
/// no line other than a version line, and a read-only file does not hold it
/// at all.
pub open spec fn lock_can_go(disk: Disk, paths: Layout) -> bool {
    disk.dom().contains(paths.config_file) ==> match disk[paths.config_file] {
        Node::File { content, readonly } => if readonly {
            !contains_text(content, lock_mark())
        } else {
            free_of_stray_marks(content)
        },
        Node::Dir { size, readonly } => true,
    }
}

/// After protection was applied and removed, a look at the disk finds no
/// protection: no blocker and no lock.
pub proof fn lemma_removed_after_applied(
    disk: Disk,
    data_dir: Seq<char>,
    style: PathStyle,
    lock_config: bool,
    create_blockers: bool,
)
    requires
        lock_can_go(disk, layout(data_dir, style)),
    ensures
        status_on(
            removed(
                applied(disk, layout(data_dir, style), lock_config, create_blockers),
                layout(data_dir, style),
            ),
            layout(data_dir, style),
        ) == (ProtectionStatus { is_protected: false, config_locked: false, blockers_exist: false }),
{
    let paths = layout(data_dir, style);
    let once = applied(disk, paths, lock_config, create_blockers);
    let disk1 = blocker_removed(once, paths.pointer_file);
    let disk2 = blocker_removed(disk1, paths.update_blocker);
    let end = config_unlocked(disk2, paths);
    lemma_layout_paths_differ(data_dir, style);
    assert(!is_blocker(probe_at(end, paths.pointer_file)));
    assert(!is_blocker(probe_at(end, paths.update_blocker)));
    let text = config_text(disk, paths);
    assert(free_of_stray_marks(Seq::<char>::empty())) by {
        assert(split_lines(Seq::<char>::empty()).len() == 0);
    }
    assert(text_at(disk2, paths.config_file) == text_at(once, paths.config_file));
    assert(writable(disk2, paths.config_file) == writable(once, paths.config_file));
    if lock_config && writable(disk, paths.config_file) {
        assert(text_at(once, paths.config_file) == Some(locked_text(text)));
        lemma_unlock_undoes_lock(text);
    } else {
        assert(text_at(once, paths.config_file) == text_at(disk, paths.config_file));
        if text_at(disk, paths.config_file) is Some && writable(disk, paths.config_file) {
            lemma_unlock_clears_the_mark(text);
        }
    }
}

/// Removing protection from `disk` with every request answered by the
/// model: how it ends, and the disk it leaves.
pub open spec fn remove_on(disk: Disk, data_dir: Option<Seq<char>>, style: PathStyle, why: Seq<char>) -> (
    Option<Outcome>,
    Disk,
) {
    run_remove(remove_start(data_dir, style), disk, why, 9)
}

/// The protection status that a look at `disk` gives; without a data
/// directory nothing counts as protected.
pub open spec fn status_seen(disk: Disk, data_dir: Option<Seq<char>>, style: PathStyle) -> ProtectionStatus {
    match data_dir {
        Some(dir) => status_on(disk, layout(dir, style)),
        None => ProtectionStatus { is_protected: false, config_locked: false, blockers_exist: false },
    }
}

/// Applying protection and then removing it leaves a disk on which a look
/// finds no protection: no blocker and no lock. Left out are the disks from
/// which the removal cannot clear the lock, see `lock_can_go`.
pub proof fn lemma_remove_undoes_apply(
    disk: Disk,
    data_dir: Option<Seq<char>>,
    style: PathStyle,
    lock_config: bool,
    create_blockers: bool,
    why: Seq<char>,
)
    requires
        data_dir matches Some(dir) ==> lock_can_go(disk, layout(dir, style)),
    ensures
        ({
            let once = apply_on(disk, data_dir, style, lock_config, create_blockers, why);
            let back = remove_on(once.1, data_dir, style, why);
            &&& once.0 is Some
            &&& back.0 is Some
            &&& status_seen(back.1, data_dir, style) == (ProtectionStatus {
                is_protected: false,
                config_locked: false,
                blockers_exist: false,
            })
        }),
{
    match data_dir {
        Some(dir) => {
            lemma_apply_run(disk, dir, style, lock_config, create_blockers, why, 13);
            let once = apply_on(disk, data_dir, style, lock_config, create_blockers, why);
            lemma_remove_run(once.1, dir, style, why, 9);
            lemma_removed_after_applied(disk, dir, style, lock_config, create_blockers);
        },
        None => {},
    }
}

/// Removing protection ends in success on every disk, as long as the data
/// directory is known.
pub proof fn lemma_remove_succeeds(disk: Disk, data_dir: Seq<char>, style: PathStyle, why: Seq<char>)
    ensures
        remove_on(disk, Some(data_dir), style, why).0 matches Some(result) && result.success,
{
    lemma_remove_run(disk, data_dir, style, why, 9);
}

/// Protection that was applied with success is found by a look at the disk:
/// the lock, where it was asked for, and the blockers, where they were.
pub proof fn lemma_apply_is_found(
    disk: Disk,
    data_dir: Seq<char>,
    style: PathStyle,
    lock_config: bool,
    create_blockers: bool,
    why: Seq<char>,
)
    ensures
        ({
            let once = apply_on(disk, Some(data_dir), style, lock_config, create_blockers, why);
            let status = status_on(once.1, layout(data_dir, style));
            &&& once.0 matches Some(result) && (result.success ==> {
                &&& lock_config ==> status.config_locked
                &&& create_blockers ==> status.blockers_exist
                &&& lock_config || create_blockers ==> status.is_protected
            })
        }),
{
    let paths = layout(data_dir, style);
    lemma_apply_run(disk, data_dir, style, lock_config, create_blockers, why, 13);
    lemma_layout_paths_differ(data_dir, style);
    let once = applied(disk, paths, lock_config, create_blockers);
    if applies_fully(disk, paths, lock_config, create_blockers) {
        if lock_config {
            lemma_lock_sets_the_mark(config_text(disk, paths));
            assert(text_at(once, paths.config_file) == Some(locked_text(config_text(disk, paths))));
        }
        if create_blockers {
            assert(once[paths.update_blocker] == blocker());
            assert(is_blocker(probe_at(once, paths.update_blocker)));
        }
    }
}

/// The disk with the read-only flag cleared at each of `entries` from `at`
/// on.
pub open spec fn cleared(disk: Disk, entries: Seq<Seq<char>>, at: int) -> Disk
    decreases entries.len() - at,
{
    if 0 <= at < entries.len() {
        cleared(unflagged(disk, entries[at]), entries, at + 1)
    } else {
        disk
    }
}

/// Clearing read-only flags against the model.
pub open spec fn run_clear(
    progress: Progress<ClearState, ()>,
    disk: Disk,
    why: Seq<char>,
    fuel: nat,
) -> (bool, Disk)
    decreases fuel,
{
    match progress {
        Progress::Done(_) => (true, disk),
        Progress::Ask(state) => if fuel == 0 {
            (false, disk)
        } else {
            let (after, answer) = respond(disk, state.ask(), why);
            run_clear(state.next(answer), after, why, (fuel - 1) as nat)
        },
    }
}

/// Clearing against the model reaches its end and leaves every entry
/// without the flag and everything else as it was.
pub proof fn lemma_clear_run(
    disk: Disk,
    entries: Seq<Seq<char>>,
    at: int,
    why: Seq<char>,
    fuel: nat,
)
    requires
        0 <= at <= entries.len(),
        fuel >= 2 * (entries.len() - at),
    ensures
        run_clear(clear_from(entries, at), disk, why, fuel) == (true, cleared(disk, entries, at)),
    decreases entries.len() - at,
{
    if at < entries.len() {
        let probing = clear_from(entries, at)->Ask_0;
        let probe = probe_at(disk, entries[at]);
        assert(respond(disk, probing.ask(), why) == (disk, Answer::Probed(probe)));
        assert(run_clear(Progress::Ask(probing), disk, why, fuel) == run_clear(
            probing.next(Answer::Probed(probe)),
            disk,
            why,
            (fuel - 1) as nat,
        ));
        if flag_set(probe) {
            let clearing = probing.next(Answer::Probed(probe))->Ask_0;
            let after = unflagged(disk, entries[at]);
            assert(respond(disk, clearing.ask(), why) == (after, Answer::Outcome(Ok(()))));
            assert(run_clear(Progress::Ask(clearing), disk, why, (fuel - 1) as nat) == run_clear(
                clear_from(entries, at + 1),
                after,
                why,
                (fuel - 2) as nat,
            ));
            lemma_clear_run(after, entries, at + 1, why, (fuel - 2) as nat);
        } else {
            assert(unflagged(disk, entries[at]) =~= disk);
            lemma_clear_run(disk, entries, at + 1, why, (fuel - 1) as nat);
        }
    }
}

/// In the model a path has nothing below it, so that clearing the flags
/// below a path is clearing the flag of what stands there.
pub proof fn lemma_clear_tree_is_clear_run(disk: Disk, path: Seq<char>, why: Seq<char>)
    ensures
        respond(disk, Ask::ClearReadonlyTree { path }, why).0 == cleared(disk, seq![path], 0),
{
    reveal_with_fuel(cleared, 2);
}

} // verus!
