use lemonade::commands::{Command, Response};
use lemonade::framing::encode_frame;
use lemonade::hub_message::HubRoute;
use lemonade::server::{copy_response, open_response, paste_response, plan_command, CommandPlan, HubListener};

#[test]
fn copy_is_shared_with_hub_as_peer_and_text() {
    match plan_command(Command::Copy { text: "hello".to_string() }, "192.168.1.5") {
        CommandPlan::Copy { text, hub_frame } => {
            assert_eq!(text, "hello");
            assert_eq!(hub_frame, encode_frame(b"192.168.1.5:hello"));
        }
        _ => panic!("copy must be planned as a copy"),
    }
}

#[test]
fn paste_and_open_are_planned() {
    assert!(matches!(plan_command(Command::Paste, "1.1.1.1"), CommandPlan::Paste));
    match plan_command(Command::Open { url: "https://example.com".to_string() }, "1.1.1.1") {
        CommandPlan::Open { url } => assert_eq!(url, "https://example.com"),
        _ => panic!("open must be planned as an open"),
    }
}

#[test]
fn client_command_is_refused() {
    match plan_command(Command::Client, "1.1.1.1") {
        CommandPlan::Answer(r) => assert_eq!(
            r,
            Response { success: false, message: "Unexpected Client command".to_string() }
        ),
        _ => panic!("client command must be answered at once"),
    }
}

#[test]
fn copy_response_reports_success() {
    assert_eq!(
        copy_response(),
        Response { success: true, message: "Text copied to clipboard and sent to hub".to_string() }
    );
}

#[test]
fn paste_response_carries_text_or_error() {
    assert_eq!(
        paste_response(Ok("clip".to_string())),
        Response { success: true, message: "clip".to_string() }
    );
    assert_eq!(
        paste_response(Err("no clipboard".to_string())),
        Response { success: false, message: "Failed to paste: no clipboard".to_string() }
    );
}

#[test]
fn open_response_reports_outcome() {
    assert_eq!(
        open_response(Ok(())),
        Response { success: true, message: "URL opened".to_string() }
    );
    assert_eq!(
        open_response(Err("no browser".to_string())),
        Response { success: false, message: "Failed to open URL: no browser".to_string() }
    );
}

#[test]
fn hub_listener_routes_each_frame() {
    let mut bytes = encode_frame(b"10.0.0.2:first");
    bytes.extend(encode_frame(b"10.0.0.1:mine"));
    bytes.extend(encode_frame(b"plain"));
    let mut l = HubListener::new();
    let (a, b) = bytes.split_at(7);
    let mut routes = l.receive(a, "10.0.0.1");
    routes.extend(l.receive(b, "10.0.0.1"));
    assert_eq!(
        routes,
        vec![
            HubRoute::Apply("first".to_string()),
            HubRoute::Ignore,
            HubRoute::Apply("plain".to_string()),
        ]
    );
}

#[test]
fn copy_reaches_other_server_but_not_its_source() {
    // Scenario for the copy law: the frame a server sends reaches the others.
    let frame = match plan_command(Command::Copy { text: "shared".to_string() }, "10.0.0.7") {
        CommandPlan::Copy { hub_frame, .. } => hub_frame,
        _ => panic!(),
    };
    let mut other = HubListener::new();
    assert_eq!(other.receive(&frame, "10.0.0.8"), vec![HubRoute::Apply("shared".to_string())]);
    let mut same = HubListener::new();
    assert_eq!(same.receive(&frame, "10.0.0.7"), vec![HubRoute::Ignore]);
}

#[test]
fn copy_then_paste_gives_back_the_text() {
    // Scenario for the copy-then-paste law: the copied text, read back from
    // the clipboard and answered, is what the client's paste returns.
    let kept = match plan_command(Command::Copy { text: "round trip".to_string() }, "10.0.0.9") {
        CommandPlan::Copy { text, .. } => text,
        _ => panic!("copy must be planned as a copy"),
    };
    let answer = paste_response(Ok(kept));
    assert_eq!(
        lemonade::client::LemonadeClient::paste_result(answer),
        Ok("round trip".to_string())
    );
}
