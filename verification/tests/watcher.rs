use lemonade::framing::encode_frame;
use lemonade::watcher::ClipboardWatcher;

#[test]
fn first_nonempty_text_is_a_change() {
    let mut w = ClipboardWatcher::new();
    let change = w.observe(Some("abc".to_string()), "10.0.0.3").expect("a change");
    assert_eq!(change.content, "abc");
    assert_eq!(change.hub_frame, encode_frame(b"10.0.0.3:abc"));
}

#[test]
fn empty_text_at_start_is_no_change() {
    let mut w = ClipboardWatcher::new();
    assert!(w.observe(Some(String::new()), "10.0.0.3").is_none());
}

#[test]
fn same_text_is_reported_once() {
    let mut w = ClipboardWatcher::new();
    assert!(w.observe(Some("x".to_string()), "ip").is_some());
    assert!(w.observe(Some("x".to_string()), "ip").is_none());
    assert!(w.observe(None, "ip").is_none());
    assert!(w.observe(Some("x".to_string()), "ip").is_none());
    assert!(w.observe(Some("y".to_string()), "ip").is_some());
    assert!(w.observe(Some("x".to_string()), "ip").is_some());
}
