use misskey_post_viewer::text::{detect_url, scan_shortcodes, truncate_chars};

#[test]
fn truncation_counts_characters() {
    assert_eq!(truncate_chars("abcdef", 3), "abc...");
    assert_eq!(truncate_chars("abc", 3), "abc");
    assert_eq!(truncate_chars("", 0), "");
    assert_eq!(truncate_chars("日本語テキスト", 3), "日本語...");
}

#[test]
fn shortcodes_are_scanned_left_to_right() {
    assert_eq!(scan_shortcodes(":a: :b_c-1: text"), vec!["a".to_string(), "b_c-1".to_string()]);
    assert_eq!(scan_shortcodes(":a:b:"), vec!["a".to_string()]);
    assert_eq!(scan_shortcodes("::x: : y:"), vec!["x".to_string()]);
    assert!(scan_shortcodes("no codes : here").is_empty());
    assert!(scan_shortcodes(":日本:").is_empty());
}

#[test]
fn urls_run_to_the_next_white_space() {
    assert_eq!(detect_url("go https://a.b/c d").as_deref(), Some("https://a.b/c"));
    assert_eq!(detect_url("http://x").as_deref(), Some("http://x"));
    assert_eq!(detect_url("https:// nope http://ok\u{3000}after").as_deref(), Some("http://ok"));
    assert_eq!(detect_url("ftp://x"), None);
    assert_eq!(detect_url("https://"), None);
}
