//! Watching the local clipboard: every change of its text is passed to local
//! subscribers and sent to the hub.
use vstd::prelude::*;
use vstd::utf8::encode_utf8;
use crate::framing::frame;
use crate::hub_message::{hub_frame, hub_text};

verus! {

/// How often the clipboard is read, in milliseconds.
pub const POLL_INTERVAL_MS: u64 = 100;

/// The text last seen on the clipboard after one reading `current` (the
/// text, or `None` where the clipboard could not be read), and the change
/// that the reading shows, if any.
pub open spec fn watch_step(last: Seq<char>, current: Option<Seq<char>>) -> (
    Seq<char>,
    Option<Seq<char>>,
) {
    match current {
        Some(text) => if text != last {
            (text, Some(text))
        } else {
            (last, None)
        },
        None => (last, None),
    }
}

/// A change of the clipboard's text.
pub struct ClipboardChange {
    /// The new text, to pass to local subscribers.
    pub content: String,
    /// The frame to send to the hub.
    pub hub_frame: Vec<u8>,
}

/// Remembers the clipboard text last seen. It starts from the empty text.
pub struct ClipboardWatcher {
    last_content: String,
}

impl View for ClipboardWatcher {
    type V = Seq<char>;

    /// The clipboard text last seen.
    closed spec fn view(&self) -> Seq<char> {
        self.last_content@
    }
}

impl ClipboardWatcher {
    /// A watcher that has seen the empty text.
    pub fn new() -> (r: ClipboardWatcher)
        ensures
            r@ == Seq::<char>::empty(),
    {
        ClipboardWatcher { last_content: String::new() }
    }

    /// Takes one reading of the clipboard on the machine at `local_ip`:
    /// its text, or `None` where it could not be read. Text that differs
    /// from the last text seen is a change: it becomes the last text seen,
    /// and the change comes back with the frame of `local_ip:text` for the
    /// hub. Anything else changes nothing.
    pub fn observe(&mut self, current: Option<String>, local_ip: &str) -> (r: Option<
        ClipboardChange,
    >)
        ensures
            final(self)@ == watch_step(old(self)@, opt_view(current)).0,
            match watch_step(old(self)@, opt_view(current)).1 {
                Some(text) => r matches Some(change) && change.content@ == text
                    && change.hub_frame@ == frame(encode_utf8(hub_text(local_ip@, text))),
                None => r is None,
            },
    {
        match current {
            Some(text) => {
                if text != self.last_content {
                    let hub_frame = hub_frame(local_ip, text.as_str());
                    self.last_content = text.clone();
                    Some(ClipboardChange { content: text, hub_frame })
                } else {
                    None
                }
            },
            None => None,
        }
    }
}

/// The text inside `s`, if any.
pub open spec fn opt_view(s: Option<String>) -> Option<Seq<char>> {
    match s {
        Some(t) => Some(t@),
        None => None,
    }
}

/// A change is reported once: reading the same text a second time, right
/// after it was reported as a change, reports nothing.
pub proof fn lemma_change_reported_once(last: Seq<char>, text: Seq<char>)
    ensures
        watch_step(watch_step(last, Some(text)).0, Some(text)).1 is None,
        watch_step(watch_step(last, Some(text)).0, Some(text)).0 == text,
{
}

/// A reading that differs from the last text seen is always reported.
pub proof fn lemma_new_text_reported(last: Seq<char>, text: Seq<char>)
    requires
        text != last,
    ensures
        watch_step(last, Some(text)) == (text, Some(text)),
{
}

/// A failed reading changes nothing.
pub proof fn lemma_failed_read_ignored(last: Seq<char>)
    ensures
        watch_step(last, None) == (last, None::<Seq<char>>),
{
}

} // verus!
