use misskey_post_viewer::config::{
    decimal_string, default_text_color, deobfuscate_token, obfuscate_token, Account, AppConfig,
    TimelineType,
};

fn config(accounts: Vec<Account>) -> AppConfig {
    AppConfig { accounts, active_account_index: 0, debug: false, fallback_font: None }
}

#[test]
fn timeline_names() {
    assert_eq!(TimelineType::Hybrid.to_channel_name(), "hybridTimeline");
    assert_eq!(TimelineType::Local.to_channel_name(), "localTimeline");
    assert_eq!(TimelineType::Home.to_channel_name(), "homeTimeline");
    assert_eq!(TimelineType::Global.to_channel_name(), "globalTimeline");
    assert_eq!(TimelineType::Home.display_name(), "ホーム");
    assert_eq!(TimelineType::default(), TimelineType::Hybrid);
}

#[test]
fn default_account_is_white_and_enabled() {
    let a = Account::default();
    assert_eq!(a.name, "");
    assert!(a.enabled);
    assert_eq!(a.text_color, [255, 255, 255]);
    assert_eq!(default_text_color(), [255, 255, 255]);
    assert_eq!(a.timeline, TimelineType::Hybrid);
}

#[test]
fn obfuscation_has_known_values_and_round_trips() {
    assert_eq!(obfuscate_token("abc"), "LAsQ");
    assert_eq!(obfuscate_token("ab"), "LAs=");
    assert_eq!(obfuscate_token("a"), "LA==");
    assert_eq!(obfuscate_token("トークン"), "rur7kOjZmtLAkPfl");
    for t in ["", "abc", "SECRET-REDACTED", "トークン", "a much longer credential than the key itself"] {
        assert_eq!(deobfuscate_token(&obfuscate_token(t)).as_deref(), Some(t));
    }
    assert_eq!(deobfuscate_token("not base64!"), None);
    assert_eq!(deobfuscate_token("/w=="), None);
}

#[test]
fn tokens_are_restored_and_prepared() {
    let mut a = Account::new("n".into(), "h".into(), None, TimelineType::Home, true, [1, 2, 3]);
    a.token_obfuscated = Some(obfuscate_token("secret"));
    a.token_raw = Some("old".into());
    a.restore_token();
    assert_eq!(a.token.as_deref(), Some("secret"));
    let mut b = Account::new("n".into(), "h".into(), None, TimelineType::Home, true, [1, 2, 3]);
    b.token_raw = Some("old".into());
    b.restore_token();
    assert_eq!(b.token.as_deref(), Some("old"));
    assert_eq!(b.token_raw, None);
    b.prepare_for_save();
    assert_eq!(b.token_obfuscated, Some(obfuscate_token("old")));
    assert_eq!(b.token_raw, None);
    b.token = None;
    b.prepare_for_save();
    assert_eq!(b.token_obfuscated, None);
}

#[test]
fn active_account_lookup() {
    let mut c = config(vec![Account::new("a".into(), "h".into(), None, TimelineType::Home, true, [0, 0, 0])]);
    assert_eq!(c.get_active_account().unwrap().name, "a");
    c.active_account_index = 3;
    assert!(c.get_active_account().is_none());
}

#[test]
fn loading_without_accounts_adds_the_default() {
    let mut c = config(Vec::new());
    c.finish_load();
    assert_eq!(c.accounts.len(), 1);
    assert_eq!(c.accounts[0].name, "Default Account");
    assert_eq!(c.accounts[0].host, "misskey.io");
    assert!(c.accounts[0].enabled);
}

#[test]
fn decimals() {
    assert_eq!(decimal_string(0), "0");
    assert_eq!(decimal_string(7), "7");
    assert_eq!(decimal_string(255), "255");
    assert_eq!(decimal_string(u64::MAX), u64::MAX.to_string());
}

#[test]
fn settings_file_text() {
    let mut a = Account::new("Main".into(), "misskey.io".into(), Some("abc".into()), TimelineType::Global, false, [1, 22, 255]);
    a.token_raw = Some("ignored".into());
    let b = Account::new("Other".into(), "example.com".into(), None, TimelineType::Hybrid, true, [255, 255, 255]);
    let c = AppConfig { accounts: vec![a, b], active_account_index: 1, debug: true, fallback_font: Some("Noto".into()) };
    let expected = "# Misskey Post Viewer Configuration\n\n\
active_account_index = 1\n\
debug = true\n\
fallback_font = \"Noto\"\n\
\n\
[[accounts]]\n\
name = \"Main\"\n\
host = \"misskey.io\"\n\
token_obfuscated = \"LAsQ\"\n\
timeline = \"global\"\n\
enabled = false\n\
text_color = [1, 22, 255]\n\
\n\
[[accounts]]\n\
name = \"Other\"\n\
host = \"example.com\"\n\
timeline = \"hybrid\"\n\
enabled = true\n\
text_color = [255, 255, 255]\n\
\n";
    assert_eq!(c.to_toml(), expected);
}

#[test]
fn login_adds_or_updates_accounts() {
    let mut c = config(vec![Account::new("a".into(), "h".into(), None, TimelineType::Home, true, [0, 0, 0])]);
    assert!(!c.apply_login(0, "h", "t0".into(), None, ""));
    assert_eq!(c.accounts[0].token.as_deref(), Some("t0"));
    assert!(c.apply_login(1, "misskey.io", "t1".into(), Some("alice".into()), ""));
    assert_eq!(c.accounts[1].name, "alice (misskey.io)");
    assert_eq!(c.accounts[1].token.as_deref(), Some("t1"));
    assert!(c.apply_login(5, "misskey.io", "t2".into(), None, ""));
    assert_eq!(c.accounts[2].name, "misskey.io");
    assert!(c.apply_login(3, "misskey.io", "t3".into(), Some("bob".into()), "Typed"));
    assert_eq!(c.accounts[3].name, "Typed");
    assert_eq!(c.accounts[3].timeline, TimelineType::Hybrid);
}

#[test]
fn form_needs_name_and_server() {
    let mut c = config(Vec::new());
    assert!(!c.add_account_from_form("", "h", "t"));
    assert!(!c.add_account_from_form("n", "", "t"));
    assert!(c.accounts.is_empty());
    assert!(c.add_account_from_form("n", "h", ""));
    assert_eq!(c.accounts[0].token, None);
    assert!(c.add_account_from_form("m", "h", "tok"));
    assert_eq!(c.accounts[1].token.as_deref(), Some("tok"));
}
