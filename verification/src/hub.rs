//! The hub: every message that a server sends is passed on to all servers.
use vstd::prelude::*;
use vstd::utf8::{decode_utf8, encode_utf8, valid_utf8};
use crate::framing::{FrameDecoder, decode_frames, encode_frame, frame, frames, lemma_frames_round_trip};
use crate::text::{decode_lossy, utf8_lossy};

verus! {

/// The port that the hub listens on.
pub const HUB_PORT: u16 = 12491;

/// How many messages the hub holds for a server that is behind.
pub const BROADCAST_CAPACITY: usize = 100;

/// The texts of `v`.
pub open spec fn texts(v: Seq<String>) -> Seq<Seq<char>> {
    v.map_values(|s: String| s@)
}

/// The texts that the hub makes of the payloads `payloads`.
pub open spec fn relayed(payloads: Seq<Seq<u8>>) -> Seq<Seq<char>> {
    payloads.map_values(|p: Seq<u8>| utf8_lossy(p))
}

/// The text that the hub passes on for a payload it received: the payload
/// decoded as UTF-8, invalid sequences replaced.
pub fn relay_text(payload: &[u8]) -> (r: String)
    ensures
        r@ == utf8_lossy(payload@),
        valid_utf8(payload@) ==> r@ == decode_utf8(payload@),
{
    decode_lossy(payload)
}

/// The frame in which the hub sends `message` to a server.
pub fn relay_frame(message: &str) -> (r: Vec<u8>)
    ensures
        r@ == frame(encode_utf8(message@)),
{
    encode_frame(message.as_bytes())
}

/// The hub passes valid UTF-8 on unchanged: the bytes that it sends for the
/// text it decoded from a valid UTF-8 payload are that payload.
pub proof fn lemma_relay_keeps_valid_payload(payload: Seq<u8>)
    requires
        valid_utf8(payload),
    ensures
        encode_utf8(decode_utf8(payload)) == payload,
{
    vstd::utf8::decode_utf8_encode_utf8(payload);
}

/// The hub's end of a server's connection: the bytes that come in, and the
/// messages that they make.
pub struct HubConnection {
    decoder: FrameDecoder,
}

impl View for HubConnection {
    type V = Seq<u8>;

    /// The bytes received that do not yet make a whole frame.
    closed spec fn view(&self) -> Seq<u8> {
        self.decoder@
    }
}

impl HubConnection {
    /// A connection on which nothing has come in.
    pub fn new() -> (r: HubConnection)
        ensures
            r@ == Seq::<u8>::empty(),
    {
        HubConnection { decoder: FrameDecoder::new() }
    }

    /// Takes in bytes read from the server and gives back, in order, the
    /// texts of the messages completed so far, to pass on to all servers.
    pub fn receive(&mut self, bytes: &[u8]) -> (r: Vec<String>)
        ensures
            texts(r@) == relayed(decode_frames(old(self)@ + bytes@).0),
            forall|i: int|
                0 <= i < r@.len() && valid_utf8(#[trigger] decode_frames(old(self)@ + bytes@).0[i])
                    ==> r@[i]@ == decode_utf8(decode_frames(old(self)@ + bytes@).0[i]),
            final(self)@ == decode_frames(old(self)@ + bytes@).1,
    {
        self.decoder.push(bytes);
        let payloads = self.decoder.drain_frames();
        let ghost ps = payloads.deep_view();
        let mut out: Vec<String> = Vec::new();
        let n = payloads.len();
        for i in 0..n
            invariant
                n == payloads.len(),
                ps == payloads.deep_view(),
                texts(out@) == relayed(ps.take(i as int)),
                out@.len() == i,
                forall|j: int|
                    0 <= j < i && valid_utf8(#[trigger] ps[j]) ==> out@[j]@ == decode_utf8(ps[j]),
        {
            assert(payloads[i as int]@ == ps[i as int]);
            let text = relay_text(payloads[i].as_slice());
            let ghost before = out@;
            out.push(text);
            assert(ps.take(i + 1) == ps.take(i as int).push(ps[i as int]));
            assert(texts(out@) =~= texts(before).push(text@));
            assert(relayed(ps.take(i + 1)) =~= relayed(ps.take(i as int)).push(
                utf8_lossy(ps[i as int]),
            ));
        }
        assert(ps.take(n as int) =~= ps);
        out
    }
}

/// The hub gets a server's message whole: the frame that a server sends for
/// a text `message` (shorter than 2^32 bytes in UTF-8) decodes at the hub into
/// one valid UTF-8 payload, whose text is `message`.
pub proof fn lemma_hub_receives_message(message: Seq<char>)
    requires
        encode_utf8(message).len() < 0x1_0000_0000,
    ensures
        decode_frames(frame(encode_utf8(message))) == (
            seq![encode_utf8(message)],
            Seq::<u8>::empty(),
        ),
        valid_utf8(encode_utf8(message)),
        decode_utf8(encode_utf8(message)) == message,
{
    let p = encode_utf8(message);
    let ps = seq![p];
    assert(frames(ps) =~= frame(p)) by {
        assert(frames(ps.drop_first()) =~= Seq::<u8>::empty());
    }
    lemma_frames_round_trip(ps);
    vstd::utf8::encode_utf8_valid_utf8(message);
    vstd::utf8::encode_utf8_decode_utf8(message);
}

} // verus!
