use lemonade::hub_message::{hub_frame, hub_message, receive_hub_payload, route_hub_message, HubRoute};
use lemonade::framing::encode_frame;

#[test]
fn hub_message_joins_source_and_content() {
    assert_eq!(hub_message("10.0.0.1", "hello"), "10.0.0.1:hello");
    assert_eq!(hub_message("", ""), ":");
}

#[test]
fn hub_frame_is_frame_of_message_bytes() {
    assert_eq!(hub_frame("1.2.3.4", "x"), encode_frame(b"1.2.3.4:x"));
}

#[test]
fn route_applies_change_of_other_machine() {
    assert_eq!(
        route_hub_message("10.0.0.2:hello", "10.0.0.1"),
        HubRoute::Apply("hello".to_string())
    );
}

#[test]
fn route_ignores_own_change() {
    assert_eq!(route_hub_message("10.0.0.1:hello", "10.0.0.1"), HubRoute::Ignore);
}

#[test]
fn route_splits_at_first_colon() {
    assert_eq!(
        route_hub_message("10.0.0.2:a:b:c", "10.0.0.1"),
        HubRoute::Apply("a:b:c".to_string())
    );
    assert_eq!(route_hub_message("10.0.0.2:", "10.0.0.1"), HubRoute::Apply(String::new()));
}

#[test]
fn route_applies_text_without_colon_as_it_stands() {
    assert_eq!(
        route_hub_message("from ntfy", "10.0.0.1"),
        HubRoute::Apply("from ntfy".to_string())
    );
    assert_eq!(route_hub_message("", "10.0.0.1"), HubRoute::Apply(String::new()));
}

#[test]
fn route_of_ipv6_source_splits_at_its_first_colon() {
    // An IPv6 source holds colons itself: the text splits at the first one.
    assert_eq!(route_hub_message("::1:hi", "::1"), HubRoute::Apply(":1:hi".to_string()));
}

#[test]
fn route_handles_multibyte_text() {
    assert_eq!(
        route_hub_message("héllo:wörld✓", "x"),
        HubRoute::Apply("wörld✓".to_string())
    );
}

#[test]
fn receive_payload_decodes_utf8() {
    assert_eq!(
        receive_hub_payload("10.0.0.2:wörld".as_bytes(), "10.0.0.1"),
        HubRoute::Apply("wörld".to_string())
    );
    assert_eq!(receive_hub_payload(b"10.0.0.1:x", "10.0.0.1"), HubRoute::Ignore);
}

#[test]
fn receive_payload_replaces_invalid_bytes() {
    assert_eq!(
        receive_hub_payload(&[b'a', 0xff, b'b'], "10.0.0.1"),
        HubRoute::Apply("a\u{FFFD}b".to_string())
    );
}
