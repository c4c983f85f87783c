//! The configuration file as text: one key set or removed, every other line
//! kept where it stood.

use crate::text::{
    concat3, contains_text, join, join_lines, lemma_contains_in_joined, lemma_contains_in_prefix,
    lemma_lines_newline_free, lemma_resplit, lines, newline_free, occurs_at, resplits_alike,
    split_lines,
    strip_cr, text_contains, to_chars, trimmed, trimmed_starts_with,
};
use vstd::prelude::*;

verus! {

/// Whether `line` carries `key`: without the white space at either end it
/// begins with `key`.
pub open spec fn has_key(line: Seq<char>, key: Seq<char>) -> bool {
    key.is_prefix_of(trimmed(line))
}

/// The line that binds `value` to `key`.
pub open spec fn entry(key: Seq<char>, value: Seq<char>) -> Seq<char> {
    key + seq!['='] + value
}

/// Whether some line of `ls` carries `key`.
pub open spec fn mentions(ls: Seq<Seq<char>>, key: Seq<char>) -> bool {
    exists|i: int| 0 <= i < ls.len() && has_key(#[trigger] ls[i], key)
}

/// `ls` with every line that carries `key` replaced by the entry for `value`.
pub open spec fn replaced(ls: Seq<Seq<char>>, key: Seq<char>, value: Seq<char>) -> Seq<Seq<char>> {
    Seq::new(
        ls.len(),
        |i: int|
            if has_key(ls[i], key) {
                entry(key, value)
            } else {
                ls[i]
            },
    )
}

/// `ls` after `key` is set to `value`: its lines for `key` replaced in place,
/// or, where it has none, the entry added as the last line.
pub open spec fn upserted(ls: Seq<Seq<char>>, key: Seq<char>, value: Seq<char>) -> Seq<Seq<char>> {
    if mentions(ls, key) {
        replaced(ls, key, value)
    } else {
        ls.push(entry(key, value))
    }
}

/// The lines of `ls` that do not carry `key`, in their order.
pub open spec fn without_key(ls: Seq<Seq<char>>, key: Seq<char>) -> Seq<Seq<char>>
    decreases ls.len(),
{
    if ls.len() == 0 {
        ls
    } else if has_key(ls.last(), key) {
        without_key(ls.drop_last(), key)
    } else {
        without_key(ls.drop_last(), key).push(ls.last())
    }
}

/// The file body after `key` is set to `value` in `content`.
pub open spec fn upsert_text(content: Seq<char>, key: Seq<char>, value: Seq<char>) -> Seq<char> {
    join_lines(upserted(split_lines(content), key, value))
}

/// The file body after every line for `key` is taken out of `content`.
pub open spec fn remove_text(content: Seq<char>, key: Seq<char>) -> Seq<char> {
    join_lines(without_key(split_lines(content), key))
}

/// The key that names the version the updater believes to be installed.
pub open spec fn version_key() -> Seq<char> {
    "last_version"@
}

/// The version that a locked configuration pretends to.
pub open spec fn pinned_version() -> Seq<char> {
    "1.0.0.0"@
}

/// The text whose presence in the configuration file counts as the lock.
pub open spec fn lock_mark() -> Seq<char> {
    "last_version=1.0.0.0"@
}

/// The configuration body after locking `content`.
pub open spec fn locked_text(content: Seq<char>) -> Seq<char> {
    upsert_text(content, version_key(), pinned_version())
}

/// The configuration body after unlocking `content`.
pub open spec fn unlocked_text(content: Seq<char>) -> Seq<char> {
    remove_text(content, version_key())
}

/// The lock mark is the entry that pins the version.
pub proof fn lemma_lock_mark_is_entry()
    ensures
        lock_mark() == entry(version_key(), pinned_version()),
        version_key().len() == 12,
        lock_mark().len() == 20,
{
    reveal_strlit("last_version");
    reveal_strlit("1.0.0.0");
    reveal_strlit("last_version=1.0.0.0");
    assert(lock_mark() =~= entry(version_key(), pinned_version()));
}

/// Sets `key` to `value` in `content`: each line that carries `key` becomes
/// `key=value`; where none does, that entry is added as the last line. Lines
/// are joined by a single line feed.
pub fn upsert_key(content: &str, key: &str, value: &str) -> (out: String)
    ensures
        out@ == upsert_text(content@, key@, value@),
{
    let chars = to_chars(content);
    let key_chars = to_chars(key);
    let ls = lines(&chars);
    let bound = concat3(key, "=", value);
    proof {
        reveal_strlit("=");
        assert("="@ == seq!['=']);
    }
    let ghost all = ls.deep_view();
    let mut kept: Vec<String> = Vec::new();
    let mut found = false;
    let mut i: usize = 0;
    while i < ls.len()
        invariant
            i <= ls.len(),
            all == ls.deep_view(),
            key_chars@ == key@,
            bound@ == entry(key@, value@),
            kept.deep_view() == replaced(all.take(i as int), key@, value@),
            found == mentions(all.take(i as int), key@),
        decreases ls.len() - i,
    {
        let ghost before = all.take(i as int);
        let ghost after = all.take(i + 1);
        let ghost old_kept = kept.deep_view();
        let line_chars = to_chars(ls[i].as_str());
        let hit = trimmed_starts_with(&line_chars, &key_chars);
        assert(hit == has_key(all[i as int], key@));
        if hit {
            kept.push(bound.clone());
            found = true;
        } else {
            kept.push(ls[i].clone());
        }
        proof {
            assert(after[i as int] == all[i as int]);
            assert(forall|k: int| 0 <= k < i ==> after[k] == before[k]);
            assert(kept.deep_view() == old_kept.push(kept@[i as int]@));
            assert(kept.deep_view() == replaced(after, key@, value@));
            if mentions(before, key@) {
                let k = choose|k: int| 0 <= k < before.len() && has_key(#[trigger] before[k], key@);
                assert(has_key(after[k], key@));
            }
            if mentions(after, key@) && !hit {
                let k = choose|k: int| 0 <= k < after.len() && has_key(#[trigger] after[k], key@);
                assert(has_key(before[k], key@));
            }
        }
        i += 1;
    }
    assert(all.take(ls.len() as int) == all);
    if !found {
        let ghost old_kept = kept.deep_view();
        kept.push(bound);
        assert(kept.deep_view() == old_kept.push(entry(key@, value@)));
        assert(old_kept == all) by {
            assert(forall|k: int| 0 <= k < all.len() ==> !has_key(#[trigger] all[k], key@));
        }
    }
    join(&kept)
}

/// Takes every line that carries `key` out of `content`. The lines that stay
/// are joined by a single line feed.
pub fn remove_key(content: &str, key: &str) -> (out: String)
    ensures
        out@ == remove_text(content@, key@),
{
    let chars = to_chars(content);
    let key_chars = to_chars(key);
    let ls = lines(&chars);
    let ghost all = ls.deep_view();
    let mut kept: Vec<String> = Vec::new();
    let mut i: usize = 0;
    while i < ls.len()
        invariant
            i <= ls.len(),
            all == ls.deep_view(),
            key_chars@ == key@,
            kept.deep_view() == without_key(all.take(i as int), key@),
        decreases ls.len() - i,
    {
        let ghost old_kept = kept.deep_view();
        let line_chars = to_chars(ls[i].as_str());
        let hit = trimmed_starts_with(&line_chars, &key_chars);
        proof {
            assert(all.take(i + 1).drop_last() == all.take(i as int));
            assert(all.take(i + 1).last() == all[i as int]);
        }
        if !hit {
            kept.push(ls[i].clone());
            assert(kept.deep_view() == old_kept.push(all[i as int]));
        }
        i += 1;
    }
    assert(all.take(ls.len() as int) == all);
    join(&kept)
}

/// Whether `part` stands somewhere in `content`, character for character.
pub fn read_contains(content: &str, part: &str) -> (found: bool)
    ensures
        found == contains_text(content@, part@),
{
    let chars = to_chars(content);
    let part_chars = to_chars(part);
    text_contains(&chars, &part_chars)
}

/// Locks the configuration: pins `last_version` to the pretended version.
pub fn lock_configuration(content: &str) -> (out: String)
    ensures
        out@ == locked_text(content@),
{
    upsert_key(content, "last_version", "1.0.0.0")
}

/// Unlocks the configuration: takes the `last_version` lines out.
pub fn unlock_configuration(content: &str) -> (out: String)
    ensures
        out@ == unlocked_text(content@),
{
    remove_key(content, "last_version")
}

/// Whether the configuration body holds the lock mark.
pub fn is_locked(content: &str) -> (locked: bool)
    ensures
        locked == contains_text(content@, lock_mark()),
{
    read_contains(content, "last_version=1.0.0.0")
}

/// An upsert keeps every line that does not carry the key where it stood, and
/// puts the entry where a line carried the key, or behind the last line where
/// none did.
pub proof fn lemma_upsert_keeps_other_lines(ls: Seq<Seq<char>>, key: Seq<char>, value: Seq<char>)
    ensures
        upserted(ls, key, value).len() == if mentions(ls, key) {
            ls.len()
        } else {
            ls.len() + 1
        },
        forall|i: int|
            0 <= i < ls.len() ==> #[trigger] upserted(ls, key, value)[i] == if has_key(ls[i], key) {
                entry(key, value)
            } else {
                ls[i]
            },
        !mentions(ls, key) ==> upserted(ls, key, value).last() == entry(key, value),
        mentions(upserted(ls, key, value), key) || !has_key(entry(key, value), key),
{
    let out = upserted(ls, key, value);
    if mentions(ls, key) {
        let i = choose|i: int| 0 <= i < ls.len() && has_key(#[trigger] ls[i], key);
        assert(out[i] == entry(key, value));
    } else {
        assert(out[ls.len() as int] == entry(key, value));
    }
}

/// An upsert of what an upsert left changes nothing, where the entry itself
/// carries the key.
pub proof fn lemma_upsert_twice(ls: Seq<Seq<char>>, key: Seq<char>, value: Seq<char>)
    requires
        has_key(entry(key, value), key),
    ensures
        upserted(upserted(ls, key, value), key, value) == upserted(ls, key, value),
{
    let once = upserted(ls, key, value);
    lemma_upsert_keeps_other_lines(ls, key, value);
    assert(mentions(once, key));
    assert forall|i: int| 0 <= i < once.len() implies #[trigger] replaced(once, key, value)[i]
        == once[i] by {
        if i < ls.len() {
            assert(once[i] == if has_key(ls[i], key) {
                entry(key, value)
            } else {
                ls[i]
            });
        }
    }
    assert(replaced(once, key, value) =~= once);
}

/// After an upsert exactly one line carries the key, where at most one
/// carried it before and the entry itself carries it. Lines that carried the
/// key before are each replaced, so that two of them stay two.
pub proof fn lemma_upsert_leaves_one_entry(ls: Seq<Seq<char>>, key: Seq<char>, value: Seq<char>)
    requires
        has_key(entry(key, value), key),
        forall|i: int, j: int|
            0 <= i < ls.len() && 0 <= j < ls.len() && has_key(#[trigger] ls[i], key) && has_key(
                #[trigger] ls[j],
                key,
            ) ==> i == j,
    ensures
        exists|k: int|
            0 <= k < upserted(ls, key, value).len() && #[trigger] upserted(ls, key, value)[k]
                == entry(key, value) && forall|j: int|
                0 <= j < upserted(ls, key, value).len() && has_key(
                    #[trigger] upserted(ls, key, value)[j],
                    key,
                ) ==> j == k,
{
    let out = upserted(ls, key, value);
    lemma_upsert_keeps_other_lines(ls, key, value);
    let k = if mentions(ls, key) {
        choose|i: int| 0 <= i < ls.len() && has_key(#[trigger] ls[i], key)
    } else {
        ls.len() as int
    };
    assert(out[k] == entry(key, value));
    assert forall|j: int| 0 <= j < out.len() && has_key(#[trigger] out[j], key) implies j == k by {
        if j < ls.len() {
            if !has_key(ls[j], key) {
                assert(out[j] == ls[j]);
            }
        }
    }
}

/// Every line that a removal leaves stood in the text before and does not
/// carry the key.
pub proof fn lemma_without_key_lines(ls: Seq<Seq<char>>, key: Seq<char>)
    ensures
        forall|j: int|
            0 <= j < without_key(ls, key).len() ==> !has_key(#[trigger] without_key(ls, key)[j], key)
                && ls.contains(without_key(ls, key)[j]),
    decreases ls.len(),
{
    if ls.len() > 0 {
        let head = ls.drop_last();
        lemma_without_key_lines(head, key);
        assert forall|j: int| 0 <= j < without_key(ls, key).len() implies !has_key(
            #[trigger] without_key(ls, key)[j],
            key,
        ) && ls.contains(without_key(ls, key)[j]) by {
            if j < without_key(head, key).len() {
                let line = without_key(head, key)[j];
                assert(head.contains(line));
                let i = choose|i: int| 0 <= i < head.len() && head[i] == line;
                assert(ls[i] == line);
            } else {
                assert(ls[ls.len() - 1] == ls.last());
            }
        }
    }
}

/// The entry that locks the configuration carries the version key, holds no
/// line feed and does not end in a carriage return.
pub proof fn lemma_lock_mark_shape()
    ensures
        has_key(lock_mark(), version_key()),
        newline_free(lock_mark()),
        strip_cr(lock_mark()) == lock_mark(),
        lock_mark().len() > 0,
{
    reveal_strlit("last_version");
    reveal_strlit("last_version=1.0.0.0");
    let mark = lock_mark();
    assert(crate::text::skip_blank(mark) == mark);
    assert(crate::text::drop_blank_end(mark) == mark);
    assert(mark.subrange(0, 12) =~= version_key());
}

/// Setting a key twice to the same value gives, byte for byte, the text
/// that setting it once gives, where the key and the value hold no line feed,
/// the entry itself carries the key, and the text after the first setting
/// splits into the lines it was joined from.
pub proof fn lemma_upsert_text_twice(content: Seq<char>, key: Seq<char>, value: Seq<char>)
    requires
        newline_free(key),
        newline_free(value),
        has_key(entry(key, value), key),
        resplits_alike(upserted(split_lines(content), key, value)),
    ensures
        upsert_text(upsert_text(content, key, value), key, value) == upsert_text(
            content,
            key,
            value,
        ),
{
    let ls = split_lines(content);
    let once = upserted(ls, key, value);
    lemma_lines_newline_free(content);
    lemma_upsert_keeps_other_lines(ls, key, value);
    assert(newline_free(entry(key, value)));
    assert forall|i: int| 0 <= i < once.len() implies newline_free(#[trigger] once[i]) by {
        if i < ls.len() && !has_key(ls[i], key) {
            assert(once[i] == ls[i]);
        } else {
            assert(once[i] == entry(key, value));
        }
    }
    lemma_resplit(once);
    lemma_upsert_twice(ls, key, value);
}

/// Locking a configuration that is locked already leaves it as it is, byte
/// for byte, where the locked text splits into the lines it was joined from:
/// where none of its lines but the last ends in a carriage return and its
/// last line is not empty.
pub proof fn lemma_lock_twice(content: Seq<char>)
    requires
        resplits_alike(upserted(split_lines(content), version_key(), pinned_version())),
    ensures
        locked_text(locked_text(content)) == locked_text(content),
{
    lemma_lock_mark_is_entry();
    lemma_lock_mark_shape();
    reveal_strlit("last_version");
    reveal_strlit("1.0.0.0");
    lemma_upsert_text_twice(content, version_key(), pinned_version());
}

/// Whether no line of `content` holds the lock mark without carrying the
/// version key.
pub open spec fn free_of_stray_marks(content: Seq<char>) -> bool {
    forall|i: int|
        0 <= i < split_lines(content).len() && !has_key(
            #[trigger] split_lines(content)[i],
            version_key(),
        ) ==> !contains_text(split_lines(content)[i], lock_mark())
}

/// After unlocking, the configuration does not hold the lock mark, where no
/// line other than a version line held it.
pub proof fn lemma_unlock_clears_the_mark(content: Seq<char>)
    requires
        free_of_stray_marks(content),
    ensures
        !contains_text(unlocked_text(content), lock_mark()),
{
    let ls = split_lines(content);
    let kept = without_key(ls, version_key());
    lemma_lock_mark_shape();
    if contains_text(join_lines(kept), lock_mark()) {
        lemma_contains_in_joined(kept, lock_mark());
        let j = choose|j: int| 0 <= j < kept.len() && contains_text(#[trigger] kept[j], lock_mark());
        lemma_without_key_lines(ls, version_key());
        assert(ls.contains(kept[j]));
        let i = choose|i: int| 0 <= i < ls.len() && ls[i] == kept[j];
        assert(!has_key(ls[i], version_key()));
    }
}

/// Locking puts the lock mark into no line that does not carry the version
/// key.
pub proof fn lemma_lock_adds_no_stray_mark(content: Seq<char>)
    requires
        free_of_stray_marks(content),
    ensures
        free_of_stray_marks(locked_text(content)),
{
    let ls = split_lines(content);
    let once = upserted(ls, version_key(), pinned_version());
    let back = split_lines(locked_text(content));
    lemma_lock_mark_is_entry();
    lemma_lock_mark_shape();
    lemma_lines_newline_free(content);
    lemma_upsert_keeps_other_lines(ls, version_key(), pinned_version());
    assert forall|i: int| 0 <= i < once.len() implies newline_free(#[trigger] once[i]) by {
        if i < ls.len() && !has_key(ls[i], version_key()) {
            assert(once[i] == ls[i]);
        } else {
            assert(once[i] == lock_mark());
        }
    }
    lemma_resplit(once);
    assert forall|j: int| 0 <= j < back.len() && !has_key(
        #[trigger] back[j],
        version_key(),
    ) implies !contains_text(back[j], lock_mark()) by {
        assert(back[j] == once[j] || back[j] == strip_cr(once[j]));
        if j < ls.len() && !has_key(ls[j], version_key()) {
            assert(once[j] == ls[j]);
            if contains_text(back[j], lock_mark()) {
                if back[j] != ls[j] {
                    assert(back[j] == ls[j].take(ls[j].len() - 1));
                    lemma_contains_in_prefix(ls[j], ls[j].len() - 1, lock_mark());
                }
                assert(contains_text(ls[j], lock_mark()));
            }
        } else {
            assert(once[j] == lock_mark());
        }
    }
}

/// Unlocking a configuration that was locked leaves it without the lock
/// mark, where no line other than a version line held the mark before.
pub proof fn lemma_unlock_undoes_lock(content: Seq<char>)
    requires
        free_of_stray_marks(content),
    ensures
        !contains_text(unlocked_text(locked_text(content)), lock_mark()),
{
    lemma_lock_adds_no_stray_mark(content);
    lemma_unlock_clears_the_mark(locked_text(content));
}

/// A locked configuration holds the lock mark.
pub proof fn lemma_lock_sets_the_mark(content: Seq<char>)
    ensures
        contains_text(locked_text(content), lock_mark()),
{
    let ls = split_lines(content);
    let once = upserted(ls, version_key(), pinned_version());
    lemma_lock_mark_is_entry();
    lemma_lock_mark_shape();
    lemma_upsert_keeps_other_lines(ls, version_key(), pinned_version());
    assert(mentions(once, version_key()));
    let i = choose|i: int| 0 <= i < once.len() && has_key(#[trigger] once[i], version_key());
    assert(once[i] == lock_mark()) by {
        if i < ls.len() {
            assert(once[i] == if has_key(ls[i], version_key()) {
                lock_mark()
            } else {
                ls[i]
            });
        }
    }
    lemma_line_in_joined(once, i);
}

/// What stands in a line stands in the joined lines.
pub proof fn lemma_line_in_joined(ls: Seq<Seq<char>>, i: int)
    requires
        0 <= i < ls.len(),
    ensures
        contains_text(join_lines(ls), ls[i]),
    decreases ls.len(),
{
    let text = join_lines(ls);
    if ls.len() == 1 {
        assert(text.subrange(0, text.len() as int) == text);
        assert(occurs_at(text, ls[0], 0));
    } else {
        let rest = ls.drop_first();
        assert(text == ls[0] + seq!['\n'] + join_lines(rest));
        if i == 0 {
            assert(text.subrange(0, ls[0].len() as int) == ls[0]);
            assert(occurs_at(text, ls[0], 0));
        } else {
            lemma_line_in_joined(rest, i - 1);
            let line = rest[i - 1];
            let at = choose|at: int| occurs_at(join_lines(rest), line, at);
            let shift = ls[0].len() + 1;
            assert(text.subrange(at + shift, at + shift + ls[i].len()) == join_lines(rest).subrange(
                at,
                at + rest[i - 1].len(),
            ));
            assert(occurs_at(text, ls[i], at + shift));
        }
    }
}

} // verus!
