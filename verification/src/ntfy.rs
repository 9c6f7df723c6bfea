//! Clipboard text published on an ntfy topic. Each text frame of the topic's
//! websocket is a JSON event; its `message` member, where it is a string, is
//! the text.
use vstd::prelude::*;
use crate::text::concat;

verus! {

/// The ntfy server that servers subscribe to.
pub const NTFY_HOST: &'static str = "ntfy.sh";

/// How long to wait before connecting again after a failed connection, in
/// seconds.
pub const RECONNECT_DELAY_SECS: u64 = 5;

/// The member of an ntfy event that holds the published text.
pub const MESSAGE_KEY: &'static str = "message";

#[verifier::external_type_specification]
#[verifier::external_body]
pub struct ExJsonError(serde_json::Error);

/// A name for what serde_json makes of `text` and `key`: `None` where
/// `text` is not JSON; otherwise the string that member `key` of the JSON
/// value holds, or `None` where the value is not an object, has no such
/// member, or the member is not a string.
pub uninterp spec fn json_string_member(text: Seq<char>, key: Seq<char>) -> Option<Option<Seq<char>>>;

/// The text inside `s`, if any.
pub open spec fn opt_text(s: Option<String>) -> Option<Seq<char>> {
    match s {
        Some(t) => Some(t@),
        None => None,
    }
}

/// Parses `text` with `serde_json::from_str` into a `serde_json::Value`,
/// then reads member `key` with `Value`'s index and `Value::as_str`. The
/// result is tied to the name `json_string_member` of the two arguments;
/// what JSON text parses, and into what, is left to serde_json.
#[verifier::external_body]
fn read_json_string_member(text: &str, key: &str) -> (r: Result<Option<String>, serde_json::Error>)
    ensures
        match r {
            Ok(member) => json_string_member(text@, key@) == Some(opt_text(member)),
            Err(_) => json_string_member(text@, key@) is None,
        },
{
    let value: serde_json::Value = serde_json::from_str(text)?;
    Ok(value[key].as_str().map(String::from))
}

/// What a subscriber does with an event that is not JSON.
#[derive(Debug, PartialEq, Eq)]
pub enum MalformedEvent {
    /// Stop listening to the topic (the hub's subscriber).
    Stop,
    /// Report it and go on with the next event (a server's subscriber).
    Skip,
}

/// What a subscriber does with a text frame of the topic.
#[derive(Debug, PartialEq, Eq)]
pub enum NtfyAction {
    /// Hand on this text.
    Deliver(String),
    /// Nothing to hand on; wait for the next event.
    Ignore,
    /// The event was not JSON: report it and wait for the next event.
    Skip,
    /// The event was not JSON: stop listening.
    Stop,
}

/// Decides what to do with an event, given its `message` member as read
/// from its JSON: `Ok(Some(text))` delivers `text`, `Ok(None)` ignores the
/// event, and `Err(())` (the event was not JSON) stops or skips as
/// `on_malformed` says.
pub fn ntfy_decision(member: Result<Option<String>, ()>, on_malformed: MalformedEvent) -> (r:
    NtfyAction)
    ensures
        match member {
            Ok(Some(text)) => r matches NtfyAction::Deliver(t) && t@ == text@,
            Ok(None) => r is Ignore,
            Err(_) => if on_malformed is Stop {
                r is Stop
            } else {
                r is Skip
            },
        },
{
    match member {
        Ok(Some(text)) => NtfyAction::Deliver(text),
        Ok(None) => NtfyAction::Ignore,
        Err(()) => match on_malformed {
            MalformedEvent::Stop => NtfyAction::Stop,
            MalformedEvent::Skip => NtfyAction::Skip,
        },
    }
}

/// Decides what to do with the text frame `text` of the topic: its JSON is
/// read and its `message` member decides, as `ntfy_decision` says.
pub fn ntfy_text_action(text: &str, on_malformed: MalformedEvent) -> (r: NtfyAction)
    ensures
        match json_string_member(text@, MESSAGE_KEY@) {
            Some(Some(message)) => r matches NtfyAction::Deliver(t) && t@ == message,
            Some(None) => r is Ignore,
            None => if on_malformed is Stop {
                r is Stop
            } else {
                r is Skip
            },
        },
{
    let member = match read_json_string_member(text, MESSAGE_KEY) {
        Ok(m) => Ok(m),
        Err(_) => Err(()),
    };
    ntfy_decision(member, on_malformed)
}

/// The websocket address of `topic` on the ntfy server `host`:
/// `wss://host/topic/ws`.
pub fn ntfy_url(host: &str, topic: &str) -> (r: String)
    ensures
        r@ == "wss://"@ + host@ + "/"@ + topic@ + "/ws"@,
{
    let a = concat("wss://", host);
    let b = concat(a.as_str(), "/");
    let c = concat(b.as_str(), topic);
    concat(c.as_str(), "/ws")
}

} // verus!
