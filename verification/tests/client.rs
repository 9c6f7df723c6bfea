use lemonade::client::{endpoint, ClientError, LemonadeClient, ListenAction, ListenEvent, DEFAULT_PORT, LISTEN_PORT};
use lemonade::commands::{Command, Response};

#[test]
fn new_client_address() {
    let c = LemonadeClient::new("localhost".to_string(), DEFAULT_PORT);
    assert_eq!(c.address(), "localhost:12489");
    let c = LemonadeClient::new("10.0.0.1".to_string(), LISTEN_PORT);
    assert_eq!(c.address(), "10.0.0.1:12490");
}

#[test]
fn endpoint_writes_port_in_decimal() {
    assert_eq!(endpoint("h", 0), "h:0");
    assert_eq!(endpoint("h", 9), "h:9");
    assert_eq!(endpoint("h", 10), "h:10");
    assert_eq!(endpoint("h", 65535), "h:65535");
    assert_eq!(endpoint("", 100), ":100");
}

#[test]
fn requests_carry_their_text() {
    assert_eq!(
        LemonadeClient::open_request("https://x.org"),
        Command::Open { url: "https://x.org".to_string() }
    );
    assert_eq!(LemonadeClient::copy_request("t"), Command::Copy { text: "t".to_string() });
    assert_eq!(LemonadeClient::paste_request(), Command::Paste);
}

#[test]
fn empty_reply_means_server_closed() {
    assert_eq!(LemonadeClient::check_reply(0), Err(ClientError::ServerClosed));
    assert_eq!(LemonadeClient::check_reply(17), Ok(17));
    assert_eq!(ClientError::ServerClosed.message(), "Server closed the connection");
}

#[test]
fn paste_result_follows_success() {
    assert_eq!(
        LemonadeClient::paste_result(Response { success: true, message: "clip".to_string() }),
        Ok("clip".to_string())
    );
    assert_eq!(
        LemonadeClient::paste_result(Response { success: false, message: "bad".to_string() }),
        Err("bad".to_string())
    );
}

#[test]
fn listen_step_decides() {
    assert_eq!(LemonadeClient::listen_step(ListenEvent::Closed), ListenAction::Stop);
    assert_eq!(LemonadeClient::listen_step(ListenEvent::ReadFailed), ListenAction::Stop);
    assert_eq!(
        LemonadeClient::listen_step(ListenEvent::Received(Response {
            success: true,
            message: "new".to_string()
        })),
        ListenAction::SetClipboard("new".to_string())
    );
    assert_eq!(
        LemonadeClient::listen_step(ListenEvent::Received(Response {
            success: false,
            message: "oops".to_string()
        })),
        ListenAction::ServerError("oops".to_string())
    );
}
