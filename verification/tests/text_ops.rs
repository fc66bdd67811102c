use comfyui_workflows::text::{
    after_last_char, before_first_char, contains, lines, pad_right, repeat, replace, starts_with,
    str_eq, trim, trim_end_char, trim_end_str,
};

#[test]
fn trim_drops_surrounding_whitespace() {
    assert_eq!(trim("  a b \n"), "a b");
    assert_eq!(trim("\u{3000}x\u{a0}\t"), "x");
    assert_eq!(trim(" \r\n "), "");
    assert_eq!(trim(""), "");
}

#[test]
fn trim_matches_std() {
    for s in ["", " ", "abc", "\tabc\n", "\u{2003}a b\u{85}", "x\u{200b}"] {
        assert_eq!(trim(s), s.trim());
    }
}

#[test]
fn lines_match_std() {
    for s in ["", "a", "a\n", "a\r\nb\n\nc", "\n", "x\ry\n", "a\n\r"] {
        let ours: Vec<String> = lines(s);
        let std_lines: Vec<String> = s.lines().map(|l| l.to_string()).collect();
        assert_eq!(ours, std_lines, "lines of {:?}", s);
    }
}

#[test]
fn prefix_and_substring() {
    assert!(starts_with("put_here", "put_"));
    assert!(!starts_with("pu", "put_"));
    assert!(contains("Already up to date.", "up to date"));
    assert!(!contains("Updating 1..2", "up to date"));
    assert!(contains("abc", ""));
    assert!(str_eq("yes", "yes"));
    assert!(!str_eq("yes", "yes\n"));
}

#[test]
fn splitting_at_characters() {
    assert_eq!(before_first_char("4.0G\t/opt/x", '\t'), "4.0G");
    assert_eq!(before_first_char("noTab", '\t'), "noTab");
    assert_eq!(after_last_char("a/b/c", '/'), "c");
    assert_eq!(after_last_char("abc", '/'), "abc");
    assert_eq!(after_last_char("abc/", '/'), "");
}

#[test]
fn trimming_suffixes_repeatedly() {
    assert_eq!(trim_end_char("a///", '/'), "a");
    assert_eq!(trim_end_str("x.git.git", ".git"), "x");
    assert_eq!(trim_end_str("x.gi", ".git"), "x.gi");
    assert_eq!(trim_end_str("x", ""), "x");
}

#[test]
fn replace_matches_std() {
    for (s, from, to) in [("aaa", "aa", "b"), ("/w/a.json", "/w/", ""), ("abc", "x", "y"), ("", "a", "b"), ("abc", "", "-"), ("", "", "-")] {
        assert_eq!(replace(s, from, to), s.replace(from, to));
    }
}

#[test]
fn padding_and_rules() {
    assert_eq!(pad_right("ab", 5), "ab   ");
    assert_eq!(pad_right("abcdef", 3), "abcdef");
    assert_eq!(pad_right("노드", 4), format!("{:<4}", "노드"));
    assert_eq!(repeat("-", 3), "---");
    assert_eq!(repeat("-", 0), "");
    assert_eq!(repeat("ab", 2), "abab");
}
