use version_guard::paths::{is_separator_char, join_path, path_file_name, InstallPaths, PathStyle};
use version_guard::text::{
    concat2, concat3, from_chars, is_blank_char, join, lines, push_decimal, push_range,
    text_contains, to_chars, trimmed_starts_with,
};

fn chars(text: &str) -> Vec<char> {
    text.chars().collect()
}

fn strings(items: &[&str]) -> Vec<String> {
    items.iter().map(|s| s.to_string()).collect()
}

#[test]
fn text_goes_to_characters_and_back() {
    assert_eq!(to_chars("a\u{e9}\u{1f600}"), vec!['a', '\u{e9}', '\u{1f600}']);
    assert_eq!(from_chars(&chars("a\u{e9}\u{1f600}")), "a\u{e9}\u{1f600}");
    assert_eq!(from_chars(&Vec::new()), "");
    let mut out = "x".to_string();
    push_range(&mut out, &chars("hello"), 1, 3);
    assert_eq!(out, "xel");
    assert_eq!(concat2("ab", "cd"), "abcd");
    assert_eq!(concat3("ab", "", "cd"), "abcd");
}

#[test]
fn numbers_are_written_in_base_ten() {
    for (n, text) in [(0usize, "0"), (7, "7"), (10, "10"), (42, "42"), (1905, "1905")] {
        let mut out = String::new();
        push_decimal(&mut out, n);
        assert_eq!(out, text);
    }
    let mut out = "n=".to_string();
    push_decimal(&mut out, usize::MAX);
    assert_eq!(out, format!("n={}", usize::MAX));
}

#[test]
fn white_space_is_what_the_standard_library_calls_white_space() {
    for code in 0u32..=0x10ffff {
        if let Some(c) = char::from_u32(code) {
            assert_eq!(is_blank_char(c), c.is_whitespace(), "U+{:04X}", code);
        }
    }
}

#[test]
fn lines_are_split_as_the_standard_library_splits_them() {
    for text in [
        "",
        "a",
        "a\n",
        "a\n\n",
        "\n",
        "\r\n",
        "a\r\nb",
        "a\r",
        "a\r\r\nb\r",
        "\n\na\n",
        "one\ntwo\r\nthree\n\r\n",
    ] {
        let expected: Vec<String> = text.lines().map(|l| l.to_string()).collect();
        assert_eq!(lines(&chars(text)), expected, "{:?}", text);
    }
    assert_eq!(lines(&chars("a\r\nb\n")), strings(&["a", "b"]));
}

#[test]
fn lines_are_joined_by_single_line_feeds() {
    assert_eq!(join(&Vec::new()), "");
    assert_eq!(join(&strings(&["a"])), "a");
    assert_eq!(join(&strings(&["a", "", "b"])), "a\n\nb");
    assert_eq!(join(&strings(&["", ""])), "\n");
}

#[test]
fn a_prefix_is_looked_for_behind_the_white_space() {
    assert!(trimmed_starts_with(&chars("  \tkey=1  "), &chars("key")));
    assert!(trimmed_starts_with(&chars("key"), &chars("key")));
    assert!(trimmed_starts_with(&chars("anything"), &chars("")));
    assert!(trimmed_starts_with(&chars("   "), &chars("")));
    assert!(!trimmed_starts_with(&chars(" ke"), &chars("key")));
    assert!(!trimmed_starts_with(&chars("xkey"), &chars("key")));
    assert!(!trimmed_starts_with(&chars("key \t"), &chars("key ")));
    assert!(trimmed_starts_with(&chars("key x "), &chars("key ")));
    assert!(!trimmed_starts_with(&chars(""), &chars("k")));
}

#[test]
fn a_part_is_found_wherever_it_stands() {
    assert!(text_contains(&chars("hello"), &chars("hello")));
    assert!(text_contains(&chars("hello"), &chars("llo")));
    assert!(text_contains(&chars("hello"), &chars("")));
    assert!(text_contains(&chars(""), &chars("")));
    assert!(!text_contains(&chars("hello"), &chars("hellos")));
    assert!(!text_contains(&chars("aab"), &chars("abb")));
    assert!(text_contains(&chars("aaab"), &chars("aab")));
}

#[test]
fn names_are_put_below_a_directory() {
    assert_eq!(join_path("/data", "CapCut", PathStyle::Posix), "/data/CapCut");
    assert_eq!(join_path("/data/", "CapCut", PathStyle::Posix), "/data/CapCut");
    assert_eq!(join_path("", "CapCut", PathStyle::Posix), "CapCut");
    assert_eq!(join_path("C:\\data", "CapCut", PathStyle::Windows), "C:\\data\\CapCut");
    assert_eq!(join_path("C:\\data\\", "CapCut", PathStyle::Windows), "C:\\data\\CapCut");
    assert_eq!(join_path("C:/data/", "CapCut", PathStyle::Windows), "C:/data/CapCut");
    assert_eq!(join_path("C:\\data\\", "CapCut", PathStyle::Posix), "C:\\data\\/CapCut");
    assert!(is_separator_char(PathStyle::Windows, '\\'));
    assert!(!is_separator_char(PathStyle::Posix, '\\'));
    assert!(is_separator_char(PathStyle::Posix, '/'));
}

#[test]
fn a_path_is_named_by_its_last_component() {
    let name = |path: &str| path_file_name(path, PathStyle::Posix);
    assert_eq!(name("/nonexistent/9.9.9.9"), Some("9.9.9.9".to_string()));
    assert_eq!(name("tmp/foo.txt"), Some("foo.txt".to_string()));
    assert_eq!(name("foo.txt/."), Some("foo.txt".to_string()));
    assert_eq!(name("foo.txt/.//"), Some("foo.txt".to_string()));
    assert_eq!(name("foo.txt/.."), None);
    assert_eq!(name("/"), None);
    assert_eq!(name(""), None);
    assert_eq!(name("."), None);
    assert_eq!(name(".."), None);
    assert_eq!(name("..."), Some("...".to_string()));
    assert_eq!(name("a\\b"), Some("a\\b".to_string()));
    assert_eq!(path_file_name("a\\b", PathStyle::Windows), Some("b".to_string()));
    assert_eq!(path_file_name("C:\\v\\3.1.0.100\\", PathStyle::Windows), Some("3.1.0.100".to_string()));
    for path in ["/a/b", "a", "a/", "a/./", "./a", "a/..", "/", "", ".", "x/../y", "//"] {
        let expected = std::path::Path::new(path)
            .file_name()
            .map(|name| name.to_string_lossy().to_string());
        assert_eq!(name(path), expected, "{:?}", path);
    }
}

#[test]
fn the_installation_is_laid_out_below_the_data_directory() {
    let paths = InstallPaths::resolve("C:\\Users\\me\\AppData\\Local", PathStyle::Windows);
    assert_eq!(paths.root, "C:\\Users\\me\\AppData\\Local\\CapCut");
    assert_eq!(paths.apps_dir, "C:\\Users\\me\\AppData\\Local\\CapCut\\Apps");
    assert_eq!(paths.config_file, "C:\\Users\\me\\AppData\\Local\\CapCut\\Apps\\configure.ini");
    assert_eq!(paths.pointer_file, "C:\\Users\\me\\AppData\\Local\\CapCut\\Apps\\ProductInfo.xml");
    assert_eq!(paths.download_dir, "C:\\Users\\me\\AppData\\Local\\CapCut\\User Data\\Download");
    assert_eq!(
        paths.update_blocker,
        "C:\\Users\\me\\AppData\\Local\\CapCut\\User Data\\Download\\update.exe"
    );
    let copy = paths.duplicate();
    assert_eq!(copy.update_blocker, paths.update_blocker);
    let paths = InstallPaths::resolve("/data", PathStyle::Posix);
    assert_eq!(paths.update_blocker, "/data/CapCut/User Data/Download/update.exe");
}

fn words(alphabet: &[char], longest: usize) -> Vec<String> {
    let mut all = vec![String::new()];
    let mut last = vec![String::new()];
    for _ in 0..longest {
        let mut next = Vec::new();
        for word in &last {
            for c in alphabet {
                let mut longer = word.clone();
                longer.push(*c);
                next.push(longer);
            }
        }
        all.extend(next.iter().cloned());
        last = next;
    }
    all
}

#[test]
fn every_short_text_splits_as_the_standard_library_splits_it() {
    for text in words(&['a', '\n', '\r', ' '], 7) {
        let expected: Vec<String> = text.lines().map(|l| l.to_string()).collect();
        assert_eq!(lines(&chars(&text)), expected, "{:?}", text);
        assert_eq!(join(&expected), expected.join("\n"), "{:?}", text);
    }
}

#[test]
fn every_short_line_is_trimmed_as_the_standard_library_trims_it() {
    let keys = ["", "k", "ke", "k ", " k", "k\u{a0}"];
    for line in words(&['k', 'e', ' ', '\t', '\u{a0}', '\r'], 5) {
        for key in keys {
            assert_eq!(
                trimmed_starts_with(&chars(&line), &chars(key)),
                line.trim().starts_with(key),
                "{:?} {:?}",
                line,
                key
            );
        }
    }
}

#[test]
fn every_short_text_is_searched_as_the_standard_library_searches_it() {
    let all = words(&['a', 'b'], 6);
    for text in &all {
        for part in all.iter().filter(|part| part.len() <= 3) {
            assert_eq!(
                text_contains(&chars(text), &chars(part)),
                text.contains(part.as_str()),
                "{:?} {:?}",
                text,
                part
            );
        }
    }
}

#[test]
fn every_short_path_is_named_as_the_standard_library_names_it() {
    for path in words(&['a', '.', '/'], 8) {
        let expected = std::path::Path::new(&path)
            .file_name()
            .map(|name| name.to_string_lossy().to_string());
        assert_eq!(path_file_name(&path, PathStyle::Posix), expected, "{:?}", path);
    }
}

#[test]
fn every_short_path_is_joined_as_the_standard_library_joins_it() {
    for base in words(&['a', '.', '/'], 6) {
        for name in ["CapCut", "User Data", "update.exe"] {
            let expected = std::path::Path::new(&base).join(name).to_string_lossy().to_string();
            assert_eq!(join_path(&base, name, PathStyle::Posix), expected, "{:?}", base);
        }
    }
}
