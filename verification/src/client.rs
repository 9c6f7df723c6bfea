//! The client: one request to a server at a time, or listening for the
//! clipboard text that a server pushes.
use vstd::prelude::*;
use crate::commands::{Command, Response, result_texts};
use crate::server::paste_answer;
use crate::text::{all_digits, decimal, digits_value, lemma_decimal_reads_back, push_char, push_decimal};

verus! {

/// The port that servers listen on, unless told otherwise.
pub const DEFAULT_PORT: u16 = 12489;

/// The port that a listening client connects to.
pub const LISTEN_PORT: u16 = 12490;

/// The most bytes that the client reads of one answer.
pub const REPLY_BUFFER_LEN: usize = 1024;

/// A client of the server at `host` and `port`.
pub struct LemonadeClient {
    host: String,
    port: u16,
}

/// Why a request failed before an answer came.
#[derive(Debug, PartialEq, Eq)]
pub enum ClientError {
    /// The server closed the connection without answering.
    ServerClosed,
}

impl ClientError {
    /// The error's description.
    pub fn message(&self) -> (r: String)
        ensures
            r@ == "Server closed the connection"@,
    {
        match self {
            ClientError::ServerClosed => "Server closed the connection".to_owned(),
        }
    }
}

/// Something that happened on a listening client's connection.
pub enum ListenEvent {
    /// The server closed the connection.
    Closed,
    /// Reading from the connection failed.
    ReadFailed,
    /// An answer came.
    Received(Response),
}

/// What a listening client does next.
#[derive(Debug, PartialEq, Eq)]
pub enum ListenAction {
    /// Stop listening.
    Stop,
    /// Put this text on the local clipboard, and go on listening.
    SetClipboard(String),
    /// The server reported this error; go on listening.
    ServerError(String),
}

/// The address `host:port`, the port written in decimal.
pub fn endpoint(host: &str, port: u16) -> (r: String)
    ensures
        r@ == host@ + seq![':'] + decimal(port as nat),
        r@.take(host@.len() as int) == host@,
        r@[host@.len() as int] == ':',
        all_digits(r@.skip(host@.len() as int + 1)),
        r@.len() > host@.len() + 1,
        r@[host@.len() as int + 1] == '0' ==> port == 0,
        digits_value(r@.skip(host@.len() as int + 1)) == port,
{
    proof {
        lemma_decimal_reads_back(port as nat);
    }
    let mut r = host.to_owned();
    push_char(&mut r, ':');
    push_decimal(&mut r, port);
    assert(r@.take(host@.len() as int) =~= host@);
    assert(r@.skip(host@.len() as int + 1) =~= decimal(port as nat));
    r
}

/// The outcome of a paste whose answer has success `success` and message
/// `message`: the message as the text, or as the error.
pub open spec fn paste_outcome(success: bool, message: Seq<char>) -> Result<Seq<char>, Seq<char>> {
    if success {
        Ok(message)
    } else {
        Err(message)
    }
}

/// Copy then paste gives back the text: a copy keeps its text `t` on the
/// server's clipboard (`plan_command`); a paste that then reads `t` there is
/// answered with it (`paste_response`), and the client takes that answer as
/// `Ok(t)` (`paste_result`).
pub proof fn lemma_copy_then_paste(t: Seq<char>)
    ensures
        paste_outcome(paste_answer(Ok(t)).0, paste_answer(Ok(t)).1) == Ok::<Seq<char>, Seq<char>>(t),
{
}

/// A paste fails exactly when the clipboard could not be read, and the
/// client's error then carries the reason.
pub proof fn lemma_failed_paste(e: Seq<char>)
    ensures
        paste_outcome(paste_answer(Err(e)).0, paste_answer(Err(e)).1) == Err::<Seq<char>, Seq<char>>(
            "Failed to paste: "@ + e,
        ),
{
}

impl LemonadeClient {
    /// The server's host.
    pub closed spec fn spec_host(&self) -> Seq<char> {
        self.host@
    }

    /// The server's port.
    pub closed spec fn spec_port(&self) -> u16 {
        self.port
    }

    /// A client of the server at `host` and `port`.
    pub fn new(host: String, port: u16) -> (r: LemonadeClient)
        ensures
            r.spec_host() == host@,
            r.spec_port() == port,
    {
        LemonadeClient { host, port }
    }

    /// The server's address, `host:port`, to connect to.
    pub fn address(&self) -> (r: String)
        ensures
            r@ == self.spec_host() + seq![':'] + decimal(self.spec_port() as nat),
    {
        endpoint(self.host.as_str(), self.port)
    }

    /// The request to open `url`.
    pub fn open_request(url: &str) -> (r: Command)
        ensures
            r matches Command::Open { url: u } && u@ == url@,
    {
        Command::Open { url: url.to_owned() }
    }

    /// The request to copy `text`.
    pub fn copy_request(text: &str) -> (r: Command)
        ensures
            r matches Command::Copy { text: t } && t@ == text@,
    {
        Command::Copy { text: text.to_owned() }
    }

    /// The request for the server's clipboard text.
    pub fn paste_request() -> (r: Command)
        ensures
            r is Paste,
    {
        Command::Paste
    }

    /// Checks the number of bytes read as the answer: none means the server
    /// closed the connection.
    pub fn check_reply(read: usize) -> (r: Result<usize, ClientError>)
        ensures
            read == 0 ==> r == Err::<usize, ClientError>(ClientError::ServerClosed),
            read != 0 ==> r == Ok::<usize, ClientError>(read),
    {
        if read == 0 {
            Err(ClientError::ServerClosed)
        } else {
            Ok(read)
        }
    }

    /// The outcome of a paste: the clipboard text where the server answered
    /// with success, its message as the error otherwise.
    pub fn paste_result(response: Response) -> (r: Result<String, String>)
        ensures
            result_texts(r) == paste_outcome(response.success, response.message@),
            response.success ==> (r matches Ok(t) && t@ == response.message@),
            !response.success ==> (r matches Err(e) && e@ == response.message@),
    {
        if response.success {
            Ok(response.message)
        } else {
            Err(response.message)
        }
    }

    /// What a listening client does after `event`: it stops when the
    /// connection closes or fails, takes the text of a successful answer
    /// onto its clipboard, and reports a failed one.
    pub fn listen_step(event: ListenEvent) -> (r: ListenAction)
        ensures
            match event {
                ListenEvent::Closed => r is Stop,
                ListenEvent::ReadFailed => r is Stop,
                ListenEvent::Received(resp) => if resp.success {
                    r matches ListenAction::SetClipboard(t) && t@ == resp.message@
                } else {
                    r matches ListenAction::ServerError(m) && m@ == resp.message@
                },
            },
    {
        match event {
            ListenEvent::Closed => ListenAction::Stop,
            ListenEvent::ReadFailed => ListenAction::Stop,
            ListenEvent::Received(resp) => if resp.success {
                ListenAction::SetClipboard(resp.message)
            } else {
                ListenAction::ServerError(resp.message)
            },
        }
    }
}

} // verus!
