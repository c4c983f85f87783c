use version_guard::config::{
    is_locked, lock_configuration, read_contains, remove_key, unlock_configuration, upsert_key,
};

#[test]
fn upsert_replaces_the_key_and_keeps_the_other_lines() {
    let out = upsert_key("a=1\nlast_version=old\nb=2", "last_version", "new");
    assert_eq!(out, "a=1\nlast_version=new\nb=2");
}

#[test]
fn upsert_appends_a_missing_key() {
    assert_eq!(upsert_key("a=1\nb=2", "last_version", "new"), "a=1\nb=2\nlast_version=new");
    assert_eq!(upsert_key("", "last_version", "new"), "last_version=new");
}

#[test]
fn upsert_sees_the_key_behind_white_space() {
    assert_eq!(
        upsert_key("  \tlast_version = 7 \r\nb=2\r\n", "last_version", "new"),
        "last_version=new\nb=2"
    );
}

#[test]
fn upsert_replaces_every_line_that_carries_the_key() {
    assert_eq!(
        upsert_key("last_version=1\nx\nlast_version_old=2", "last_version", "9"),
        "last_version=9\nx\nlast_version=9"
    );
}

#[test]
fn remove_key_drops_only_the_lines_of_the_key() {
    assert_eq!(remove_key("a=1\nlast_version=old\nb=2", "last_version"), "a=1\nb=2");
    assert_eq!(remove_key("last_version=old", "last_version"), "");
    assert_eq!(remove_key("a=1\r\n\r\nb=2\r\n", "last_version"), "a=1\n\nb=2");
}

#[test]
fn read_contains_is_a_plain_substring_test() {
    assert!(read_contains("x\nfoo last_version=1.0.0.0 bar", "last_version=1.0.0.0"));
    assert!(!read_contains("last_version=1.0.0", "last_version=1.0.0.0"));
    assert!(read_contains("abc", ""));
    assert!(!read_contains("", "a"));
}

#[test]
fn locking_pins_the_version_and_unlocking_takes_it_out() {
    let locked = lock_configuration("a=1\nlast_version=3.1.0.100\nb=2");
    assert_eq!(locked, "a=1\nlast_version=1.0.0.0\nb=2");
    assert!(is_locked(&locked));
    let unlocked = unlock_configuration(&locked);
    assert_eq!(unlocked, "a=1\nb=2");
    assert!(!is_locked(&unlocked));
}

#[test]
fn locking_twice_changes_nothing_more() {
    let once = lock_configuration("a=1\nb=2");
    let twice = lock_configuration(&once);
    assert_eq!(once, "a=1\nb=2\nlast_version=1.0.0.0");
    assert_eq!(twice, once);
}

#[test]
fn locking_twice_differs_where_the_locked_text_does_not_split_into_its_lines() {
    let once = lock_configuration("last_version=3.1.0.100\n\n");
    assert_eq!(once, "last_version=1.0.0.0\n");
    assert_eq!(lock_configuration(&once), "last_version=1.0.0.0");

    let once = lock_configuration("a\r");
    assert_eq!(once, "a\r\nlast_version=1.0.0.0");
    assert_eq!(lock_configuration(&once), "a\nlast_version=1.0.0.0");
}

#[test]
fn unlocking_leaves_a_mark_that_stands_in_another_line() {
    let unlocked = unlock_configuration("x last_version=1.0.0.0\nlast_version=1.0.0.0");
    assert_eq!(unlocked, "x last_version=1.0.0.0");
    assert!(is_locked(&unlocked));
}

fn words(alphabet: &[&str], longest: usize) -> Vec<String> {
    let mut all = vec![String::new()];
    let mut last = vec![String::new()];
    for _ in 0..longest {
        let mut next = Vec::new();
        for word in &last {
            for piece in alphabet {
                next.push(format!("{}{}", word, piece));
            }
        }
        all.extend(next.iter().cloned());
        last = next;
    }
    all
}

fn upsert_by_hand(content: &str, key: &str, value: &str) -> String {
    let mut new_lines: Vec<String> = Vec::new();
    let mut found = false;
    for line in content.lines() {
        if line.trim().starts_with(key) {
            new_lines.push(format!("{}={}", key, value));
            found = true;
        } else {
            new_lines.push(line.to_string());
        }
    }
    if !found {
        new_lines.push(format!("{}={}", key, value));
    }
    new_lines.join("\n")
}

fn remove_by_hand(content: &str, key: &str) -> String {
    content.lines().filter(|line| !line.trim().starts_with(key)).collect::<Vec<_>>().join("\n")
}

#[test]
fn every_short_configuration_is_patched_line_by_line() {
    let pieces = ["last_version=1.0.0.0", "last_version", "a=1", " ", "\n", "\r\n", "\r"];
    for content in words(&pieces, 5) {
        assert_eq!(
            lock_configuration(&content),
            upsert_by_hand(&content, "last_version", "1.0.0.0"),
            "{:?}",
            content
        );
        assert_eq!(
            unlock_configuration(&content),
            remove_by_hand(&content, "last_version"),
            "{:?}",
            content
        );
        assert_eq!(is_locked(&content), content.contains("last_version=1.0.0.0"), "{:?}", content);
    }
}

#[test]
fn every_short_configuration_obeys_the_laws_of_the_lock() {
    let pieces = ["last_version=1.0.0.0", "last_version", "a=1", " ", "\n", "\r\n", "\r"];
    for content in words(&pieces, 5) {
        let once = lock_configuration(&content);
        assert!(is_locked(&once), "{:?}", content);
        let lines: Vec<&str> = once.split('\n').collect();
        let settles = lines[..lines.len() - 1].iter().all(|line| !line.ends_with('\r'))
            && !lines[lines.len() - 1].is_empty();
        assert_eq!(lock_configuration(&once) == once, settles, "{:?}", content);
        let stray = content
            .lines()
            .any(|line| !line.trim().starts_with("last_version") && line.contains("last_version=1.0.0.0"));
        assert_eq!(is_locked(&unlock_configuration(&once)), stray, "{:?}", content);
        assert_eq!(is_locked(&unlock_configuration(&content)), stray, "{:?}", content);
    }
}
