use misskey_post_viewer::config::{Account, TimelineType};
use misskey_post_viewer::connection::{
    backoff_secs, emoji_lookup_url, keepalive_text, streaming_url, subscribe_message,
    subscription_id, LinkAction, LinkEvent, RetryState, Supervisor,
};

fn account(name: &str, enabled: bool) -> Account {
    Account::new(name.to_string(), "misskey.io".to_string(), None, TimelineType::Local, enabled, [255, 255, 255])
}

fn retry_secs(a: LinkAction) -> u64 {
    match a {
        LinkAction::Retry(s) => s,
        _ => panic!("expected a retry"),
    }
}

#[test]
fn backoff_grows_and_is_capped() {
    let waits: Vec<u64> = (1..=8).map(backoff_secs).collect();
    assert_eq!(waits, vec![1, 2, 4, 5, 5, 5, 5, 5]);
    assert_eq!(backoff_secs(0), 1);
    assert_eq!(backoff_secs(u32::MAX), 5);
}

#[test]
fn consecutive_failures_follow_the_backoff() {
    let mut s = RetryState::new();
    let mut waits = Vec::new();
    for _ in 0..6 {
        waits.push(retry_secs(s.on_event(LinkEvent::ConnectFailed)));
    }
    assert_eq!(waits, vec![1, 2, 4, 5, 5, 5]);
    assert_eq!(s.consecutive_failures, 6);
}

#[test]
fn successful_subscribe_resets_the_backoff() {
    let mut s = RetryState::new();
    s.on_event(LinkEvent::ConnectFailed);
    s.on_event(LinkEvent::ConnectFailed);
    s.on_event(LinkEvent::ConnectFailed);
    assert!(matches!(s.on_event(LinkEvent::Connected), LinkAction::Subscribe));
    assert!(matches!(s.on_event(LinkEvent::Subscribed), LinkAction::Read));
    assert_eq!(s.consecutive_failures, 0);
    assert_eq!(retry_secs(s.on_event(LinkEvent::StreamEnded)), 1);
    assert_eq!(retry_secs(s.on_event(LinkEvent::SubscribeFailed)), 2);
}

#[test]
fn reconfiguration_cancels_and_disconnects() {
    let mut sup = Supervisor::new();
    let started = sup.start(&vec![account("a", true), account("b", false), account("c", true)]);
    assert_eq!(started.iter().map(|a| a.name.clone()).collect::<Vec<_>>(), vec!["a", "c"]);
    assert!(sup.connected);
    assert_eq!(sup.running, vec!["a".to_string(), "c".to_string()]);
    let old = sup.generation;
    assert!(sup.accepts(old));
    let new = sup.reconfigure();
    assert!(!sup.connected);
    assert!(sup.running.is_empty());
    assert!(!sup.accepts(old));
    assert!(sup.accepts(new));
    let started = sup.start(&vec![account("b", false)]);
    assert!(started.is_empty());
    assert!(!sup.connected);
    sup.start(&vec![account("d", true)]);
    assert!(sup.connected);
}

#[test]
fn spent_generation_counter_delivers_nothing() {
    let mut sup = Supervisor::new();
    sup.generation = u64::MAX;
    sup.start(&vec![account("a", true)]);
    assert!(sup.accepts(u64::MAX));
    let g = sup.reconfigure();
    assert_eq!(g, u64::MAX);
    assert!(sup.exhausted);
    assert!(!sup.connected);
    sup.start(&vec![account("a", true)]);
    assert!(!sup.accepts(u64::MAX));
}

#[test]
fn wire_texts() {
    assert_eq!(streaming_url("misskey.io", &None), "wss://misskey.io/streaming");
    assert_eq!(
        streaming_url("misskey.io", &Some("tok".to_string())),
        "wss://misskey.io/streaming?i=tok"
    );
    let a = account("main", true);
    assert_eq!(subscription_id(&a), "localTimeline-main");
    assert_eq!(
        subscribe_message("homeTimeline", "id \"1\""),
        r#"{"type":"connect","body":{"channel":"homeTimeline","id":"id \"1\"","params":{}}}"#
    );
    assert_eq!(
        subscribe_message("localTimeline", "a\\b\n\t\u{1}\u{1f}\u{8}\u{c}\r\u{7f}é"),
        "{\"type\":\"connect\",\"body\":{\"channel\":\"localTimeline\",\"id\":\"a\\\\b\\n\\t\\u0001\\u001f\\b\\f\\r\u{7f}é\",\"params\":{}}}"
    );
    assert_eq!(keepalive_text(), "h");
    assert_eq!(emoji_lookup_url("misskey.io", "wave"), "https://misskey.io/api/emoji?name=wave");
}
