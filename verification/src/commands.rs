//! The requests that a client sends to a server, and the server's answers.
use vstd::prelude::*;

verus! {

/// A request from a client to a server.
#[derive(Debug, PartialEq, Eq)]
pub enum Command {
    /// Put `text` on the server's clipboard and share it.
    Copy { text: String },
    /// Send back the text on the server's clipboard.
    Paste,
    /// Open `url` on the server's machine.
    Open { url: String },
    /// A listening client; a server does not take this request.
    Client,
}

/// A server's answer: whether the request succeeded, and a message (the
/// clipboard text, for a paste that succeeded).
#[derive(Debug, PartialEq, Eq)]
pub struct Response {
    pub success: bool,
    pub message: String,
}

/// The texts inside `r`.
pub open spec fn result_texts(r: Result<String, String>) -> Result<Seq<char>, Seq<char>> {
    match r {
        Ok(t) => Ok(t@),
        Err(e) => Err(e@),
    }
}

} // verus!
