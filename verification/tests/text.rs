use std::path::Path;

use herdr_focus_notify::paths::{file_name, join_path, parent, path_components};
use herdr_focus_notify::state::{
    cache_sway_container_id, cached_notification_id, cached_sway_container_id,
    cleared_notification_marker_path, notification_id_path, plugin_state_dir,
    read_pane_state_file, sway_container_path, write_pane_state_file,
};
use herdr_focus_notify::text::{
    contains, contains_char, ends_with, eq_ignore_ascii_case, filled_text, from_chars,
    index_of_char, is_ascii_alphanumeric, is_ascii_hexdigit, is_whitespace, join, lines,
    occurs_at_index, same_text, starts_with, to_ascii_lowercase, to_chars, trim, trim_start,
};
use herdr_focus_notify::util::{
    decimal_text, hexadecimal_text, notification_group_id, sanitize_group_id, shell_quote,
};

const TEXTS: [&str; 14] = [
    "", " ", "a", " a ", "a\nb", "a\r\nb\n", "\n\n", "\r", "a\r\r\n", "\u{3000}x\u{85}", "A1-é ÄÖ",
    "a\n\nb", "cursor-Agent", "\t x y \u{200b}",
];

#[test]
fn characters_are_classed_as_in_the_standard_library() {
    for code in 0..=0x10ffffu32 {
        if let Some(c) = char::from_u32(code) {
            assert_eq!(is_whitespace(c), c.is_whitespace(), "{c:?}");
            assert_eq!(is_ascii_alphanumeric(c), c.is_ascii_alphanumeric(), "{c:?}");
            assert_eq!(is_ascii_hexdigit(c), c.is_ascii_hexdigit(), "{c:?}");
        }
    }
}

#[test]
fn text_functions_agree_with_the_standard_library() {
    for text in TEXTS {
        assert_eq!(trim(text), text.trim(), "{text:?}");
        assert_eq!(trim_start(text), text.trim_start(), "{text:?}");
        assert_eq!(to_ascii_lowercase(text), text.to_ascii_lowercase());
        assert_eq!(lines(text), text.lines().collect::<Vec<_>>(), "{text:?}");
        assert_eq!(to_chars(text), text.chars().collect::<Vec<_>>());
        for other in TEXTS {
            assert_eq!(starts_with(text, other), text.starts_with(other));
            assert_eq!(ends_with(text, other), text.ends_with(other));
            assert_eq!(contains(text, other), text.contains(other), "{text:?} {other:?}");
            assert_eq!(same_text(text, other), text == other);
            assert_eq!(
                eq_ignore_ascii_case(text, other),
                text.eq_ignore_ascii_case(other)
            );
        }
    }
    assert!(eq_ignore_ascii_case("CurSOR", "cursor"));
    assert!(!eq_ignore_ascii_case("É", "é"));
}

#[test]
fn pieces_of_text_are_cut_and_joined() {
    let chars: Vec<char> = "héllo".chars().collect();
    assert_eq!(from_chars(&chars, 1, 3), "él");
    assert_eq!(from_chars(&chars, 5, 5), "");
    assert_eq!(index_of_char(&chars, 0, 'l'), 2);
    assert_eq!(index_of_char(&chars, 3, 'l'), 3);
    assert_eq!(index_of_char(&chars, 0, 'x'), 5);
    assert!(occurs_at_index(&chars, 2, &['l', 'l']));
    assert!(!occurs_at_index(&chars, 4, &['o', 'o']));
    assert!(contains_char("a/b", '/'));
    assert!(!contains_char("", '/'));
    let parts = vec!["a".to_string(), "".to_string(), "b".to_string()];
    assert_eq!(join(&parts, ", "), "a, , b");
    assert_eq!(join(&vec![], ", "), "");
    assert_eq!(filled_text(Some(" a ")), Some("a".to_string()));
    assert_eq!(filled_text(Some(" ")), None);
    assert_eq!(filled_text(None), None);
}

#[test]
fn trimming_twice_changes_nothing_more() {
    for text in TEXTS {
        assert_eq!(trim(trim(text)), trim(text));
    }
    assert_eq!(trim(" \u{a0}\n\u{2029}"), "");
}

/// What a POSIX shell makes of a word of single-quoted parts and escaped quotes.
fn read_word(word: &str) -> String {
    let mut out = String::new();
    let mut quoted = false;
    let mut chars = word.chars();
    while let Some(c) = chars.next() {
        match c {
            '\'' => quoted = !quoted,
            '\\' if !quoted => out.extend(chars.next()),
            c => {
                assert!(quoted);
                out.push(c)
            }
        }
    }
    assert!(!quoted);
    out
}

#[test]
fn quoted_words_are_read_back_by_a_shell() {
    assert_eq!(shell_quote(""), "''");
    assert_eq!(shell_quote("a b"), "'a b'");
    assert_eq!(shell_quote("it's"), "'it'\\''s'");
    for text in ["", "'", "''", "a'b\\c\"d $e `f` \n", "é"] {
        assert_eq!(read_word(&shell_quote(text)), text);
    }
    assert_ne!(shell_quote("a'"), shell_quote("a"));
}

#[test]
fn groups_are_made_of_plain_characters() {
    assert_eq!(sanitize_group_id("w1:p3"), "w1-p3");
    assert_eq!(sanitize_group_id("a_B-9 é/."), "a_B-9----");
    assert_eq!(notification_group_id("w1:p3"), "herdr-w1-p3");
    assert_eq!(notification_group_id(""), "herdr-");
}

#[test]
fn numbers_are_written_as_by_the_standard_library() {
    for n in [0u64, 1, 9, 10, 99, 100, 3600, 1 << 40, u64::MAX] {
        assert_eq!(decimal_text(n), format!("{n}"));
        assert_eq!(hexadecimal_text(n, 16), format!("{n:016x}"));
    }
}

#[test]
fn paths_agree_with_the_standard_library() {
    let paths = [
        "", "/", ".", "..", "a", "/a", "a/", "/a/b", "a//b", "a/./b", "./a", "/./a", "a/..",
        "/a/../b", "//a", "a/b/c.d", "/a/b/", "a/.", "/.", "/..", "./..", "a /b",
    ];
    for text in paths {
        let path = Path::new(text);
        assert_eq!(
            file_name(text),
            path.file_name().map(|name| name.to_str().unwrap().to_string()),
            "{text:?}"
        );
        assert_eq!(
            parent(text),
            path.parent().map(|dir| dir.to_str().unwrap().to_string()),
            "{text:?}"
        );
        assert_eq!(
            path_components(text),
            path.components()
                .map(|part| part.as_os_str().to_str().unwrap().to_string())
                .collect::<Vec<_>>(),
            "{text:?}"
        );
        for name in paths {
            assert_eq!(
                join_path(text, name),
                path.join(name).to_str().unwrap(),
                "{text:?} {name:?}"
            );
        }
    }
}

#[test]
fn state_lies_in_the_configured_directory() {
    assert_eq!(plugin_state_dir(Some("/s"), "/tmp"), "/s");
    assert_eq!(plugin_state_dir(Some(""), "/tmp"), "");
    assert_eq!(plugin_state_dir(None, "/tmp"), "/tmp/herdr-focus-notify");
    assert_eq!(
        cleared_notification_marker_path("/s", "w1:p3"),
        "/s/herdr-w1-p3.cleared"
    );
    assert_eq!(
        notification_id_path("/s", "w1:p3"),
        "/s/linux-notifications/herdr-w1-p3"
    );
    assert_eq!(
        sway_container_path("/s", "w1:p3"),
        "/s/sway-containers/herdr-w1-p3"
    );
    assert_eq!(
        cleared_notification_marker_path("", "w1:p3"),
        "herdr-w1-p3.cleared"
    );
}

#[test]
fn panes_of_one_group_share_their_files() {
    assert_eq!(
        sway_container_path("/s", "w1:p3"),
        sway_container_path("/s", "w1/p3")
    );
    assert_ne!(
        cleared_notification_marker_path("/s", "w1:p3"),
        cleared_notification_marker_path("/s", "w1:p4")
    );
}

#[test]
fn state_values_are_read_back_as_kept() {
    assert_eq!(write_pane_state_file(" 12 \n"), Some("12".to_string()));
    assert_eq!(write_pane_state_file(" \n"), None);
    assert_eq!(read_pane_state_file(Some("12\n")), Some("12".to_string()));
    assert_eq!(read_pane_state_file(Some("  ")), None);
    assert_eq!(read_pane_state_file(None), None);
    let kept = cache_sway_container_id(" 42 ").unwrap();
    assert_eq!(cached_sway_container_id(Some(&kept)), Some("42".to_string()));
    assert_eq!(cached_notification_id(Some("7")), Some("7".to_string()));
    assert_eq!(cached_notification_id(None), None);
}
