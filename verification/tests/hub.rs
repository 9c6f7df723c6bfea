use lemonade::framing::encode_frame;
use lemonade::hub::{relay_frame, relay_text, HubConnection};

#[test]
fn relay_text_decodes_payload() {
    assert_eq!(relay_text("1.2.3.4:héllo".as_bytes()), "1.2.3.4:héllo");
    assert_eq!(relay_text(&[0xc3]), "\u{FFFD}");
}

#[test]
fn relay_frame_frames_text() {
    assert_eq!(relay_frame("ab"), vec![0, 0, 0, 2, b'a', b'b']);
}

#[test]
fn valid_payload_is_relayed_unchanged() {
    let payload = "10.0.0.2:naïve ✓".as_bytes();
    assert_eq!(relay_frame(&relay_text(payload)), encode_frame(payload));
}

#[test]
fn connection_yields_messages_in_order() {
    let mut bytes = encode_frame(b"a:1");
    bytes.extend(encode_frame(b"b:2"));
    let mut c = HubConnection::new();
    assert_eq!(c.receive(&bytes[..5]), Vec::<String>::new());
    assert_eq!(c.receive(&bytes[5..]), vec!["a:1".to_string(), "b:2".to_string()]);
}

#[test]
fn hub_receives_server_message_whole() {
    let frame = lemonade::hub_message::hub_frame("10.0.0.4", "ünïcode:text");
    let mut c = HubConnection::new();
    assert_eq!(c.receive(&frame), vec!["10.0.0.4:ünïcode:text".to_string()]);
}
