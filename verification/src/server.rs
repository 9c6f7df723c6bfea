//! What a server does with a client's request.
use vstd::prelude::*;
use vstd::utf8::{decode_utf8, encode_utf8, valid_utf8};
use crate::commands::{Command, Response, result_texts};
use crate::framing::{FrameDecoder, decode_frames, frame, frames, lemma_frames_round_trip};
use crate::hub_message::{
    HubRoute,
    colon_free,
    hub_frame,
    hub_route,
    hub_text,
    lemma_change_reaches_other_servers,
    receive_hub_payload,
};
use crate::text::{concat, utf8_lossy};

verus! {

/// The most bytes that a server reads of one request.
pub const REQUEST_BUFFER_LEN: usize = 1024;

/// The work that a request asks of the server.
pub enum CommandPlan {
    /// Put `text` on the clipboard, pass it to local subscribers, send
    /// `hub_frame` to the hub, then answer with `copy_response`.
    Copy { text: String, hub_frame: Vec<u8> },
    /// Read the clipboard, then answer with `paste_response`.
    Paste,
    /// Open `url`, then answer with `open_response`.
    Open { url: String },
    /// Answer at once.
    Answer(Response),
}

/// Decides what the server does with `command` from the client at
/// `peer_ip`. A copy is shared with the hub as `peer_ip:text`; a listening
/// client's request is refused.
pub fn plan_command(command: Command, peer_ip: &str) -> (r: CommandPlan)
    ensures
        match command {
            Command::Copy { text } => r matches CommandPlan::Copy { text: t, hub_frame: f } && t@
                == text@ && f@ == frame(encode_utf8(hub_text(peer_ip@, text@))),
            Command::Paste => r is Paste,
            Command::Open { url } => r matches CommandPlan::Open { url: u } && u@ == url@,
            Command::Client => r matches CommandPlan::Answer(resp) && !resp.success
                && resp.message@ == "Unexpected Client command"@,
        },
{
    match command {
        Command::Copy { text } => {
            let hub_frame = hub_frame(peer_ip, text.as_str());
            CommandPlan::Copy { text, hub_frame }
        },
        Command::Paste => CommandPlan::Paste,
        Command::Open { url } => CommandPlan::Open { url },
        Command::Client => CommandPlan::Answer(
            Response { success: false, message: "Unexpected Client command".to_owned() },
        ),
    }
}

/// The answer to a copy that went through.
pub fn copy_response() -> (r: Response)
    ensures
        r.success,
        r.message@ == "Text copied to clipboard and sent to hub"@,
{
    Response { success: true, message: "Text copied to clipboard and sent to hub".to_owned() }
}

/// The answer to a paste, as its success and its message, given what
/// reading the clipboard gave: its text, or the error's description.
pub open spec fn paste_answer(clipboard: Result<Seq<char>, Seq<char>>) -> (bool, Seq<char>) {
    match clipboard {
        Ok(text) => (true, text),
        Err(e) => (false, "Failed to paste: "@ + e),
    }
}

/// The answer to a paste, given what reading the clipboard gave: its text,
/// or the error's description.
pub fn paste_response(clipboard: Result<String, String>) -> (r: Response)
    ensures
        (r.success, r.message@) == paste_answer(result_texts(clipboard)),
        match clipboard {
            Ok(text) => r.success && r.message@ == text@,
            Err(e) => !r.success && r.message@ == "Failed to paste: "@ + e@,
        },
{
    match clipboard {
        Ok(text) => Response { success: true, message: text },
        Err(e) => Response { success: false, message: concat("Failed to paste: ", e.as_str()) },
    }
}

/// The answer to an open, given what opening the URL gave: nothing, or the
/// error's description.
pub fn open_response(opened: Result<(), String>) -> (r: Response)
    ensures
        match opened {
            Ok(()) => r.success && r.message@ == "URL opened"@,
            Err(e) => !r.success && r.message@ == "Failed to open URL: "@ + e@,
        },
{
    match opened {
        Ok(()) => Response { success: true, message: "URL opened".to_owned() },
        Err(e) => Response { success: false, message: concat("Failed to open URL: ", e.as_str()) },
    }
}

/// The routes that a server takes for the payloads `payloads` from the hub,
/// where its own address is `local`.
pub open spec fn hub_routes(payloads: Seq<Seq<u8>>, local: Seq<char>) -> Seq<Option<Seq<char>>> {
    payloads.map_values(|p: Seq<u8>| hub_route(utf8_lossy(p), local))
}

/// The targets of the routes `v`.
pub open spec fn targets(v: Seq<HubRoute>) -> Seq<Option<Seq<char>>> {
    v.map_values(|r: HubRoute| r.spec_target())
}

/// A server's end of its connection to the hub: the bytes that come in, and
/// what the server does with the messages that they make.
pub struct HubListener {
    decoder: FrameDecoder,
}

impl View for HubListener {
    type V = Seq<u8>;

    /// The bytes received that do not yet make a whole frame.
    closed spec fn view(&self) -> Seq<u8> {
        self.decoder@
    }
}

impl HubListener {
    /// A connection on which nothing has come in.
    pub fn new() -> (r: HubListener)
        ensures
            r@ == Seq::<u8>::empty(),
    {
        HubListener { decoder: FrameDecoder::new() }
    }

    /// Takes in bytes read from the hub and gives back, in order, what the
    /// server at `local_ip` does with each message completed so far.
    pub fn receive(&mut self, bytes: &[u8], local_ip: &str) -> (r: Vec<HubRoute>)
        ensures
            targets(r@) == hub_routes(decode_frames(old(self)@ + bytes@).0, local_ip@),
            forall|i: int|
                0 <= i < r@.len() && valid_utf8(#[trigger] decode_frames(old(self)@ + bytes@).0[i])
                    ==> r@[i].spec_target() == hub_route(
                    decode_utf8(decode_frames(old(self)@ + bytes@).0[i]),
                    local_ip@,
                ),
            final(self)@ == decode_frames(old(self)@ + bytes@).1,
    {
        self.decoder.push(bytes);
        let payloads = self.decoder.drain_frames();
        let ghost ps = payloads.deep_view();
        let mut out: Vec<HubRoute> = Vec::new();
        let n = payloads.len();
        for i in 0..n
            invariant
                n == payloads.len(),
                ps == payloads.deep_view(),
                targets(out@) == hub_routes(ps.take(i as int), local_ip@),
                out@.len() == i,
                forall|j: int|
                    0 <= j < i && valid_utf8(#[trigger] ps[j]) ==> out@[j].spec_target()
                        == hub_route(decode_utf8(ps[j]), local_ip@),
        {
            assert(payloads[i as int]@ == ps[i as int]);
            let route = receive_hub_payload(payloads[i].as_slice(), local_ip);
            let ghost before = out@;
            out.push(route);
            assert(ps.take(i + 1) == ps.take(i as int).push(ps[i as int]));
            assert(targets(out@) =~= targets(before).push(route.spec_target()));
            assert(hub_routes(ps.take(i + 1), local_ip@) =~= hub_routes(
                ps.take(i as int),
                local_ip@,
            ).push(hub_route(utf8_lossy(ps[i as int]), local_ip@)));
        }
        assert(ps.take(n as int) =~= ps);
        out
    }
}

/// A copy reaches every other server: the frame that a server sends to the
/// hub for a copy of `content` by the machine `source` (no colon in
/// `source`, and the message shorter than 2^32 bytes) decodes into one
/// valid UTF-8 payload, which the server at `local` applies as `content`
/// unless `local` is `source`.
pub proof fn lemma_copy_reaches_other_servers(
    source: Seq<char>,
    content: Seq<char>,
    local: Seq<char>,
)
    requires
        colon_free(source),
        encode_utf8(hub_text(source, content)).len() < 0x1_0000_0000,
    ensures
        decode_frames(frame(encode_utf8(hub_text(source, content)))) == (
            seq![encode_utf8(hub_text(source, content))],
            Seq::<u8>::empty(),
        ),
        valid_utf8(encode_utf8(hub_text(source, content))),
        hub_route(decode_utf8(encode_utf8(hub_text(source, content))), local) == if source
            == local {
            None::<Seq<char>>
        } else {
            Some(content)
        },
{
    let p = encode_utf8(hub_text(source, content));
    let ps = seq![p];
    assert(frames(ps) =~= frame(p)) by {
        assert(frames(ps.drop_first()) =~= Seq::<u8>::empty());
    }
    lemma_frames_round_trip(ps);
    lemma_change_reaches_other_servers(source, content, local);
}

} // verus!
