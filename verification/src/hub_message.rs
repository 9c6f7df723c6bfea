//! Clipboard changes as servers send them through the hub: the text
//! `source:content`, where `source` is the address of the machine whose
//! clipboard changed. Text that comes through the hub without a source (from
//! ntfy) is clipboard content as it stands.
use vstd::prelude::*;
use vstd::utf8::{decode_utf8, encode_utf8, encode_utf8_decode_utf8, encode_utf8_valid_utf8, valid_utf8};
use crate::framing::{encode_frame, frame};
use crate::text::{decode_lossy, push_char, utf8_lossy};

verus! {

/// No character of `s` is a colon.
pub open spec fn colon_free(s: Seq<char>) -> bool {
    forall|i: int| 0 <= i < s.len() ==> s[i] != ':'
}

/// The text before the first colon of `s` and the text after it, or `None`
/// where `s` holds no colon.
pub open spec fn split_source(s: Seq<char>) -> Option<(Seq<char>, Seq<char>)> {
    if colon_free(s) {
        None
    } else {
        let i = choose|i: int| 0 <= i < s.len() && s[i] == ':' && colon_free(s.take(i));
        Some((s.take(i), s.skip(i + 1)))
    }
}

/// The text of a clipboard change of `content` on the machine `source`.
pub open spec fn hub_text(source: Seq<char>, content: Seq<char>) -> Seq<char> {
    source + seq![':'] + content
}

/// What a server does with the text `message` that came from the hub, where
/// its own address is `local`: `None` to leave its clipboard alone (the change
/// is its own), or the text to put on its clipboard.
pub open spec fn hub_route(message: Seq<char>, local: Seq<char>) -> Option<Seq<char>> {
    match split_source(message) {
        Some((source, content)) => if source == local {
            None
        } else {
            Some(content)
        },
        None => Some(message),
    }
}

/// What a server does with a clipboard change from the hub.
#[derive(Debug, PartialEq, Eq)]
pub enum HubRoute {
    /// The change is the server's own: its clipboard stays as it is.
    Ignore,
    /// Put this text on the clipboard and pass it to local subscribers.
    Apply(String),
}

impl HubRoute {
    /// The route as `None` (ignore) or the text to apply.
    pub open spec fn spec_target(self) -> Option<Seq<char>> {
        match self {
            HubRoute::Ignore => None,
            HubRoute::Apply(text) => Some(text@),
        }
    }
}

/// The text of a change holds the whole source, then one colon, then the
/// whole content, whatever the source and content hold (colons too).
pub proof fn lemma_hub_text_parts(source: Seq<char>, content: Seq<char>)
    ensures
        hub_text(source, content) == source + seq![':'] + content,
        hub_text(source, content).len() == source.len() + 1 + content.len(),
        hub_text(source, content).take(source.len() as int) == source,
        hub_text(source, content)[source.len() as int] == ':',
        hub_text(source, content).skip(source.len() as int + 1) == content,
{
    let t = hub_text(source, content);
    assert(t.take(source.len() as int) =~= source);
    assert(t.skip(source.len() as int + 1) =~= content);
}

proof fn lemma_split_unique(s: Seq<char>, i: int, j: int)
    requires
        0 <= i < s.len() && s[i] == ':' && colon_free(s.take(i)),
        0 <= j < s.len() && s[j] == ':' && colon_free(s.take(j)),
    ensures
        i == j,
{
    if i < j {
        assert(s.take(j)[i] == ':');
    } else if j < i {
        assert(s.take(i)[j] == ':');
    }
}

/// The text before the first colon splits off: where `source` holds no
/// colon, the text `source:content` splits into `source` and `content`.
pub proof fn lemma_split_hub_text(source: Seq<char>, content: Seq<char>)
    requires
        colon_free(source),
    ensures
        split_source(hub_text(source, content)) == Some((source, content)),
{
    let s = hub_text(source, content);
    let k = source.len() as int;
    assert(s[k] == ':');
    assert(s.take(k) =~= source);
    assert(!colon_free(s));
    let i = choose|i: int| 0 <= i < s.len() && s[i] == ':' && colon_free(s.take(i));
    lemma_split_unique(s, i, k);
    assert(s.skip(k + 1) =~= content);
}

/// Every server applies another machine's change and ignores its own: where
/// `source` holds no colon, the text of a change of `content` on `source`
/// is ignored by the server whose address is `source` and applied as
/// `content` by every other.
pub proof fn lemma_route_hub_text(source: Seq<char>, content: Seq<char>, local: Seq<char>)
    requires
        colon_free(source),
    ensures
        hub_route(hub_text(source, content), local) == if source == local {
            None::<Seq<char>>
        } else {
            Some(content)
        },
{
    lemma_split_hub_text(source, content);
}

/// Text without a colon comes from ntfy and is applied as it stands.
pub proof fn lemma_route_plain_text(message: Seq<char>, local: Seq<char>)
    requires
        colon_free(message),
    ensures
        hub_route(message, local) == Some(message),
{
}

/// The text of a clipboard change of `content` on the machine `source`:
/// `source:content`.
pub fn hub_message(source: &str, content: &str) -> (r: String)
    ensures
        r@ == hub_text(source@, content@),
        r@.len() == source@.len() + 1 + content@.len(),
        r@.take(source@.len() as int) == source@,
        r@[source@.len() as int] == ':',
        r@.skip(source@.len() as int + 1) == content@,
{
    proof {
        lemma_hub_text_parts(source@, content@);
    }
    let mut r = source.to_owned();
    push_char(&mut r, ':');
    r.append(content);
    r
}

/// The frame that carries the change of `content` on `source` to the hub:
/// the UTF-8 bytes of `source:content` behind their length.
pub fn hub_frame(source: &str, content: &str) -> (r: Vec<u8>)
    ensures
        r@ == frame(encode_utf8(hub_text(source@, content@))),
        r@ == frame(encode_utf8(source@ + seq![':'] + content@)),
{
    proof {
        lemma_hub_text_parts(source@, content@);
    }
    let message = hub_message(source, content);
    encode_frame(message.as_str().as_bytes())
}

/// Decides what a server does with the text `message` from the hub, where
/// its own address is `local_ip`. Text of the form `source:content` (split
/// at its first colon) is applied as `content` unless `source` is
/// `local_ip`; text without a colon is applied as it stands.
pub fn route_hub_message(message: &str, local_ip: &str) -> (r: HubRoute)
    ensures
        r.spec_target() == hub_route(message@, local_ip@),
{
    let mut source = String::new();
    let mut content = String::new();
    let mut seen = false;
    let ghost mut k: int = 0;
    for c in it: message.chars()
        invariant
            it.seq() == message@,
            !seen ==> source@ == message@.take(it.index() as int) && colon_free(source@)
                && content@.len() == 0,
            seen ==> 0 <= k < it.index() && message@[k] == ':' && source@ == message@.take(k)
                && colon_free(source@) && content@ == message@.subrange(
                k + 1,
                it.index() as int,
            ),
    {
        let ghost idx = it.index() as int;
        if seen {
            push_char(&mut content, c);
            assert(content@ =~= message@.subrange(k + 1, idx + 1));
        } else if c == ':' {
            seen = true;
            proof {
                k = idx;
            }
            assert(content@ =~= message@.subrange(k + 1, idx + 1));
        } else {
            push_char(&mut source, c);
            assert(source@ =~= message@.take(idx + 1));
        }
    }
    if seen {
        proof {
            let m = message@;
            assert(m.skip(k + 1) =~= content@);
            assert(!colon_free(m));
            let i = choose|i: int| 0 <= i < m.len() && m[i] == ':' && colon_free(m.take(i));
            lemma_split_unique(m, i, k);
        }
        let local = local_ip.to_owned();
        if source == local {
            HubRoute::Ignore
        } else {
            HubRoute::Apply(content)
        }
    } else {
        assert(source@ =~= message@);
        HubRoute::Apply(source)
    }
}

/// Decides what a server does with the payload of a frame from the hub: the
/// payload is decoded as UTF-8, invalid sequences replaced, and the text is
/// routed as `route_hub_message` does.
pub fn receive_hub_payload(payload: &[u8], local_ip: &str) -> (r: HubRoute)
    ensures
        r.spec_target() == hub_route(utf8_lossy(payload@), local_ip@),
        valid_utf8(payload@) ==> r.spec_target() == hub_route(
            decode_utf8(payload@),
            local_ip@,
        ),
{
    let message = decode_lossy(payload);
    route_hub_message(message.as_str(), local_ip)
}

/// A change travels whole: the payload that a server sends for a change of
/// `content` on `source` (no colon in `source`) is routed, by the server
/// whose address is `local`, to `content` unless `local` is `source`.
pub proof fn lemma_change_reaches_other_servers(
    source: Seq<char>,
    content: Seq<char>,
    local: Seq<char>,
)
    requires
        colon_free(source),
    ensures
        valid_utf8(encode_utf8(hub_text(source, content))),
        hub_route(decode_utf8(encode_utf8(hub_text(source, content))), local) == if source
            == local {
            None::<Seq<char>>
        } else {
            Some(content)
        },
{
    encode_utf8_valid_utf8(hub_text(source, content));
    encode_utf8_decode_utf8(hub_text(source, content));
    lemma_route_hub_text(source, content, local);
}

} // verus!
