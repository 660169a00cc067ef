use misskey_post_viewer::config::{Account, TimelineType};
use misskey_post_viewer::note::{emoji_lookups, normalize_frame, EmojiInfo, RawNote, RawUser, StreamFrame};

fn account() -> Account {
    Account::new(
        "main".to_string(),
        "misskey.io".to_string(),
        None,
        TimelineType::Home,
        true,
        [10, 20, 30],
    )
}

fn user(name: &str, username: &str, host: Option<&str>) -> Option<RawUser> {
    Some(RawUser {
        name: Some(name.to_string()),
        username: Some(username.to_string()),
        host: host.map(|h| h.to_string()),
    })
}

fn note(text: Option<&str>, cw: Option<&str>) -> RawNote {
    RawNote {
        user: user("Alice", "alice", None),
        text: text.map(|t| t.to_string()),
        cw: cw.map(|c| c.to_string()),
        emojis: Vec::new(),
        renote: None,
    }
}

fn frame(n: RawNote) -> StreamFrame {
    StreamFrame { body_type: Some("note".to_string()), note: Some(n) }
}

fn emoji(name: &str, url: &str) -> EmojiInfo {
    EmojiInfo { name: name.to_string(), url: url.to_string() }
}

#[test]
fn content_warning_is_shown_instead_of_text() {
    let c = normalize_frame(&frame(note(Some("ignored"), Some("spoiler"))), &account(), &Vec::new()).unwrap();
    assert_eq!(c.text, "CW: spoiler");
}

#[test]
fn empty_content_warning_falls_back_to_text() {
    let c = normalize_frame(&frame(note(Some("hello"), Some(""))), &account(), &Vec::new()).unwrap();
    assert_eq!(c.text, "hello");
}

#[test]
fn long_renote_text_is_cut_to_eighty_characters() {
    let reposted = "あ".repeat(90);
    let mut n = note(None, None);
    n.renote = Some(Box::new(RawNote {
        user: user("Bob", "bob", Some("example.com")),
        text: Some(reposted.clone()),
        cw: None,
        emojis: Vec::new(),
        renote: None,
    }));
    let c = normalize_frame(&frame(n), &account(), &Vec::new()).unwrap();
    let expected = format!("{}...", "あ".repeat(80));
    let info = c.renote_info.unwrap();
    assert_eq!(info.text, expected);
    assert_eq!(info.name, "Bob");
    assert_eq!(info.username, "bob");
    assert_eq!(info.host, "example.com");
    assert_eq!(c.text, expected);
    assert_eq!(c.text.chars().count(), 83);
}

#[test]
fn display_body_is_cut_to_one_hundred_characters() {
    let long = "x".repeat(250);
    let c = normalize_frame(&frame(note(Some(&long), None)), &account(), &Vec::new()).unwrap();
    assert_eq!(c.text, format!("{}...", "x".repeat(100)));
    let exact = "y".repeat(100);
    let c = normalize_frame(&frame(note(Some(&exact), None)), &account(), &Vec::new()).unwrap();
    assert_eq!(c.text, exact);
}

#[test]
fn body_lengths_stay_within_bounds() {
    for len in [0usize, 1, 79, 80, 81, 99, 100, 101, 500] {
        let text = "é".repeat(len);
        if let Some(c) = normalize_frame(&frame(note(Some(&text), None)), &account(), &Vec::new()) {
            assert!(c.text.chars().count() <= 103);
        }
        let mut n = note(None, None);
        n.renote = Some(Box::new(note(Some(&text), None)));
        let c = normalize_frame(&frame(n), &account(), &Vec::new()).unwrap();
        assert!(c.renote_info.unwrap().text.chars().count() <= 83);
    }
}

#[test]
fn record_carries_author_and_account() {
    let mut n = note(Some("hi"), None);
    n.user = user("Carol", "carol", Some("remote.example"));
    let c = normalize_frame(&frame(n), &account(), &Vec::new()).unwrap();
    assert_eq!(c.name, "Carol");
    assert_eq!(c.username, "carol");
    assert_eq!(c.user_host.as_deref(), Some("remote.example"));
    assert_eq!(c.account_name, "main");
    assert_eq!(c.account_color, [10, 20, 30]);
    assert!(c.renote_info.is_none());
    assert!(c.url_preview.is_none());
}

#[test]
fn missing_author_fields_read_unknown() {
    let mut n = note(Some("hi"), None);
    n.user = None;
    let c = normalize_frame(&frame(n), &account(), &Vec::new()).unwrap();
    assert_eq!(c.name, "Unknown");
    assert_eq!(c.username, "Unknown");
    assert_eq!(c.user_host, None);
}

#[test]
fn frames_that_are_no_notes_give_nothing() {
    let f = StreamFrame { body_type: Some("notification".to_string()), note: Some(note(Some("x"), None)) };
    assert!(normalize_frame(&f, &account(), &Vec::new()).is_none());
    assert!(emoji_lookups(&f).is_empty());
    let f = StreamFrame { body_type: None, note: Some(note(Some("x"), None)) };
    assert!(normalize_frame(&f, &account(), &Vec::new()).is_none());
    let f = StreamFrame { body_type: Some("note".to_string()), note: None };
    assert!(normalize_frame(&f, &account(), &Vec::new()).is_none());
}

#[test]
fn empty_note_gives_nothing_but_empty_renote_does() {
    assert!(normalize_frame(&frame(note(None, None)), &account(), &Vec::new()).is_none());
    assert!(normalize_frame(&frame(note(Some(""), None)), &account(), &Vec::new()).is_none());
    let mut n = note(None, None);
    n.renote = Some(Box::new(note(None, None)));
    let c = normalize_frame(&frame(n), &account(), &Vec::new()).unwrap();
    assert_eq!(c.text, "");
    assert_eq!(c.renote_info.unwrap().text, "");
}

#[test]
fn each_shortcode_is_looked_up_once() {
    let mut n = note(Some(":wave: hi :wave: :cat: :wave: :known:"), None);
    n.emojis = vec![emoji("known", "https://e/known.png")];
    let plan = emoji_lookups(&frame(n));
    assert_eq!(plan, vec!["wave".to_string(), "cat".to_string()]);
}

#[test]
fn author_name_and_renote_texts_are_scanned() {
    let mut n = note(Some(":a:"), None);
    n.user = user(":b: Dave", "dave", None);
    n.renote = Some(Box::new(RawNote {
        user: user("Eve :c:", "eve", None),
        text: Some(":a: :d:".to_string()),
        cw: Some(":e:".to_string()),
        emojis: vec![emoji("d", "https://e/d.png")],
        renote: None,
    }));
    let plan = emoji_lookups(&frame(n));
    assert_eq!(plan, vec!["a", "b", "e", "c"].into_iter().map(String::from).collect::<Vec<_>>());
}

#[test]
fn emojis_are_merged_first_occurrence_wins() {
    let mut n = note(Some(":x: :y:"), None);
    n.emojis = vec![emoji("own", "https://e/own.png")];
    n.renote = Some(Box::new(RawNote {
        user: user("Bob", "bob", None),
        text: Some(":z: :x:".to_string()),
        cw: None,
        emojis: vec![emoji("x", "https://renote/x.png"), emoji("own", "https://renote/own.png")],
        renote: None,
    }));
    let f = frame(n);
    let plan = emoji_lookups(&f);
    assert_eq!(plan, vec!["x".to_string(), "y".to_string(), "z".to_string()]);
    let resolved = vec![Some("https://api/x.png".to_string()), None, Some("https://api/z.png".to_string())];
    let c = normalize_frame(&f, &account(), &resolved).unwrap();
    let got: Vec<(String, String)> = c.emojis.iter().map(|e| (e.name.clone(), e.url.clone())).collect();
    assert_eq!(
        got,
        vec![
            ("own".to_string(), "https://e/own.png".to_string()),
            ("x".to_string(), "https://api/x.png".to_string()),
            ("z".to_string(), "https://api/z.png".to_string()),
        ]
    );
}

#[test]
fn first_url_of_the_shown_text_is_the_link() {
    let c = normalize_frame(&frame(note(Some("see https://example.com/a?b=1 and http://x.y"), None)), &account(), &Vec::new()).unwrap();
    assert_eq!(c.link.as_deref(), Some("https://example.com/a?b=1"));
    let c = normalize_frame(&frame(note(Some("no link here"), None)), &account(), &Vec::new()).unwrap();
    assert_eq!(c.link, None);
}
