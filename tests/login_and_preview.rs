use misskey_post_viewer::miauth::MiAuthSession;
use misskey_post_viewer::preview::preview_from_html;

#[test]
fn miauth_session_url() {
    let s = MiAuthSession::new("misskey.io", "Misskey Post Viewer", Some("説明 a&b"), &["read:account", "read:messaging"]);
    assert_eq!(s.session_id.chars().count(), 16);
    assert!(s.session_id.chars().all(|c| c.is_ascii_alphanumeric()));
    assert_eq!(s.host, "misskey.io");
    let expected = format!(
        "https://misskey.io/miauth/{}?name=Misskey%20Post%20Viewer&description=%E8%AA%AC%E6%98%8E%20a%26b&permission=read:account,read:messaging",
        s.session_id
    );
    assert_eq!(s.url, expected);
    assert_eq!(s.check_url(), format!("https://misskey.io/api/miauth/{}/check", s.session_id));
}

#[test]
fn miauth_session_without_extras() {
    let s = MiAuthSession::new("h.example", "app-1_.~", None, &[]);
    assert_eq!(s.url, format!("https://h.example/miauth/{}?name=app-1_.~", s.session_id));
    let t = MiAuthSession::new("h.example", "x", None, &[]);
    assert_ne!(s.session_id, t.session_id);
}

#[test]
fn preview_prefers_open_graph() {
    let html = r#"<html><head><title>Plain</title>
        <meta property="og:title" content="OG Title">
        <meta property="og:description" content="OG Desc">
        <meta name="description" content="Plain Desc">
        <meta property="og:image" content="https://img/x.png">
        <meta property="og:site_name" content="Site">
        <link rel="icon" href="/fav.png"></head><body></body></html>"#;
    let p = preview_from_html("https://example.com/page", html);
    assert_eq!(p.url, "https://example.com/page");
    assert_eq!(p.title, "OG Title");
    assert_eq!(p.description.as_deref(), Some("OG Desc"));
    assert_eq!(p.image_url.as_deref(), Some("https://img/x.png"));
    assert_eq!(p.site_name.as_deref(), Some("Site"));
    assert_eq!(p.favicon_url.as_deref(), Some("https://example.com/fav.png"));
}

#[test]
fn preview_falls_back() {
    let html = r#"<html><head><title>Plain</title><meta name="description" content="Plain Desc">
        <link rel="shortcut icon" href="icons/f.ico"></head></html>"#;
    let p = preview_from_html("http://example.org/a/b", html);
    assert_eq!(p.title, "Plain");
    assert_eq!(p.description.as_deref(), Some("Plain Desc"));
    assert_eq!(p.image_url, None);
    assert_eq!(p.site_name.as_deref(), Some("example.org"));
    assert_eq!(p.favicon_url.as_deref(), Some("http://example.org/icons/f.ico"));
    let bare = preview_from_html("https://bare.example/", "<html></html>");
    assert_eq!(bare.title, "https://bare.example/");
    assert_eq!(bare.favicon_url.as_deref(), Some("https://bare.example/favicon.ico"));
    let proto = preview_from_html("https://a.example/", r#"<link rel="icon" href="//cdn.example/i.png">"#);
    assert_eq!(proto.favicon_url.as_deref(), Some("https://cdn.example/i.png"));
}
