use tmpfs_mounts::inspect::{is_mounted_as, is_tmpfs, is_whitespace};

const LIST: &str = "\
/dev/root / virtiofs rw,relatime 0 0
proc /proc proc rw,nosuid,nodev,noexec,relatime 0 0
tmpfs /tmp tmpfs rw,relatime 0 0
tmpfs /run tmpfs rw,nosuid 0 0
";

#[test]
fn finds_a_tmpfs_row() {
    assert!(is_tmpfs(Some(LIST), "/tmp"));
    assert!(is_tmpfs(Some(LIST), "/run"));
}

#[test]
fn misses_a_path_that_no_row_names() {
    assert!(!is_tmpfs(Some(LIST), "/var/tmp"));
}

#[test]
fn misses_a_path_of_another_type() {
    assert!(!is_tmpfs(Some(LIST), "/"));
    assert!(!is_tmpfs(Some(LIST), "/proc"));
    assert!(is_mounted_as(LIST, "/", "virtiofs"));
    assert!(is_mounted_as(LIST, "/proc", "proc"));
}

#[test]
fn unreadable_list_shows_nothing() {
    assert!(!is_tmpfs(None, "/tmp"));
    assert!(!is_tmpfs(None, "/var/tmp"));
    assert!(!is_tmpfs(None, "/run"));
    assert!(!is_tmpfs(None, ""));
}

#[test]
fn empty_list_shows_nothing() {
    assert!(!is_tmpfs(Some(""), "/tmp"));
    assert!(!is_tmpfs(Some("\n\n"), "/tmp"));
}

#[test]
fn trailing_slash_is_no_match() {
    assert!(!is_tmpfs(Some("tmpfs /tmp/ tmpfs rw 0 0\n"), "/tmp"));
    assert!(!is_tmpfs(Some("tmpfs /tmp tmpfs rw 0 0\n"), "/tmp/"));
}

#[test]
fn other_case_is_no_match() {
    assert!(!is_tmpfs(Some("tmpfs /TMP tmpfs rw 0 0\n"), "/tmp"));
    assert!(!is_tmpfs(Some("tmpfs /tmp TMPFS rw 0 0\n"), "/tmp"));
}

#[test]
fn longer_or_shorter_path_is_no_match() {
    assert!(!is_tmpfs(Some("tmpfs /tmp/sub tmpfs rw 0 0\n"), "/tmp"));
    assert!(!is_tmpfs(Some("tmpfs /tm tmpfs rw 0 0\n"), "/tmp"));
    assert!(!is_tmpfs(Some("tmpfs /private/tmp tmpfs rw 0 0\n"), "/tmp"));
}

#[test]
fn the_device_column_is_not_the_mount_point() {
    assert!(!is_tmpfs(Some("/tmp /mnt tmpfs rw 0 0\n"), "/tmp"));
    assert!(!is_tmpfs(Some("/tmp tmpfs /tmp rw 0 0\n"), "/tmp"));
}

#[test]
fn short_rows_are_passed_over() {
    assert!(!is_tmpfs(Some("tmpfs /tmp\n"), "/tmp"));
    assert!(!is_tmpfs(Some("tmpfs\n"), "/tmp"));
    assert!(!is_tmpfs(Some("/tmp tmpfs\n"), "/tmp"));
    assert!(is_tmpfs(Some("garbage\n\ntmpfs /tmp\ntmpfs /tmp tmpfs\n"), "/tmp"));
}

#[test]
fn three_columns_are_enough() {
    assert!(is_tmpfs(Some("tmpfs /tmp tmpfs"), "/tmp"));
}

#[test]
fn a_row_does_not_run_over_the_line() {
    assert!(!is_tmpfs(Some("tmpfs /tmp\ntmpfs rw 0 0\n"), "/tmp"));
    assert!(!is_tmpfs(Some("tmpfs\n/tmp tmpfs rw 0 0\n"), "/tmp"));
}

#[test]
fn last_line_needs_no_line_feed() {
    assert!(is_tmpfs(Some("proc /proc proc rw 0 0\ntmpfs /run tmpfs rw 0 0"), "/run"));
}

#[test]
fn any_white_space_separates_columns() {
    assert!(is_tmpfs(Some("  tmpfs\t\t/tmp \t tmpfs\trw 0 0\n"), "/tmp"));
    assert!(is_tmpfs(Some("tmpfs /tmp tmpfs rw 0 0\r\n"), "/tmp"));
    assert!(is_tmpfs(Some("tmpfs /tmp tmpfs\r\n"), "/tmp"));
    assert!(is_tmpfs(Some("tmpfs\u{a0}/tmp\u{3000}tmpfs\u{2003}rw"), "/tmp"));
}

#[test]
fn a_path_with_white_space_is_never_found() {
    assert!(!is_tmpfs(Some("tmpfs /my dir tmpfs rw 0 0\n"), "/my dir"));
    assert!(!is_tmpfs(Some("tmpfs /tmp tmpfs rw 0 0\n"), "/tmp "));
    assert!(!is_tmpfs(Some("tmpfs /tmp tmpfs rw 0 0\n"), ""));
}

#[test]
fn other_letters_than_ascii_compare_by_character() {
    assert!(is_tmpfs(Some("tmpfs /t\u{e9}mp tmpfs rw 0 0\n"), "/t\u{e9}mp"));
    assert!(!is_tmpfs(Some("tmpfs /te\u{301}mp tmpfs rw 0 0\n"), "/t\u{e9}mp"));
}

#[test]
fn the_first_match_is_enough() {
    let text = "tmpfs /tmp tmpfs rw 0 0\ntmpfs /tmp tmpfs ro 0 0\n/dev/sda /tmp ext4 rw 0 0\n";
    assert!(is_tmpfs(Some(text), "/tmp"));
    assert!(is_mounted_as(text, "/tmp", "ext4"));
    assert!(!is_mounted_as(text, "/tmp", "ext"));
}

#[test]
fn white_space_is_what_std_calls_white_space() {
    let mut n: u32 = 0;
    while n <= 0x10FFFF {
        if let Some(c) = char::from_u32(n) {
            assert_eq!(is_whitespace(c), c.is_whitespace(), "U+{:04X}", n);
        }
        n += 1;
    }
}

#[test]
fn agrees_with_lines_and_split_whitespace() {
    let texts = [
        LIST,
        "",
        "\n",
        "a b c",
        "a b c\n",
        "a  b\tc d\n\n x\ty z \n",
        "tmpfs /tmp tmpfs\r\ntmpfs /run tmpfs\r",
        "tmpfs /tmp\r\n tmpfs",
        "\u{2028}tmpfs /tmp tmpfs",
        "x\u{85}/tmp\u{1680}tmpfs\u{205f}",
    ];
    let paths = ["/tmp", "/run", "/", "b", "y", "", "/proc"];
    let kinds = ["tmpfs", "c", "z", "proc", ""];
    for text in texts {
        for path in paths {
            for kind in kinds {
                let mut want = false;
                for line in text.lines() {
                    let parts: Vec<&str> = line.split_whitespace().collect();
                    if parts.len() >= 3 && parts[1] == path && parts[2] == kind {
                        want = true;
                    }
                }
                assert_eq!(is_mounted_as(text, path, kind), want, "{:?} {:?} {:?}", text, path, kind);
            }
        }
    }
}
