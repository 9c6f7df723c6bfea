//! The wire format between servers and the hub: every message travels as a
//! frame made of a four-byte big-endian length followed by the payload.
use vstd::prelude::*;

verus! {

/// The four big-endian bytes of `n`.
pub open spec fn be_bytes(n: u32) -> Seq<u8> {
    seq![
        (n / 0x100_0000) as u8,
        ((n / 0x1_0000) % 0x100) as u8,
        ((n / 0x100) % 0x100) as u8,
        (n % 0x100) as u8,
    ]
}

/// The number that the first four bytes of `buf` stand for, read big-endian.
pub open spec fn header_value(buf: Seq<u8>) -> nat
    recommends
        buf.len() >= 4,
{
    (buf[0] as nat) * 0x100_0000 + (buf[1] as nat) * 0x1_0000 + (buf[2] as nat) * 0x100 + (
    buf[3] as nat)
}

/// The length written in front of a payload of `len` bytes: the length taken
/// modulo 2^32, as a `u32`.
pub open spec fn length_field(len: nat) -> u32 {
    (len % 0x1_0000_0000) as u32
}

/// The frame that carries `payload`.
pub open spec fn frame(payload: Seq<u8>) -> Seq<u8> {
    be_bytes(length_field(payload.len())) + payload
}

/// The first frame of `buf`, as its payload and the bytes after it, or `None`
/// while `buf` does not yet hold a whole frame.
pub open spec fn split_frame(buf: Seq<u8>) -> Option<(Seq<u8>, Seq<u8>)> {
    if buf.len() < 4 {
        None
    } else if buf.len() < 4 + header_value(buf) {
        None
    } else {
        let end = 4 + header_value(buf);
        Some((buf.subrange(4, end as int), buf.subrange(end as int, buf.len() as int)))
    }
}

/// The payloads of all the whole frames at the start of `buf`, in order, and
/// the bytes that are left after them.
pub open spec fn decode_frames(buf: Seq<u8>) -> (Seq<Seq<u8>>, Seq<u8>)
    decreases buf.len(),
{
    match split_frame(buf) {
        Some((payload, rest)) => {
            let (more, left) = decode_frames(rest);
            (seq![payload] + more, left)
        },
        None => (Seq::empty(), buf),
    }
}

/// The frames of `payloads`, one after the other.
pub open spec fn frames(payloads: Seq<Seq<u8>>) -> Seq<u8>
    decreases payloads.len(),
{
    if payloads.len() == 0 {
        Seq::empty()
    } else {
        frame(payloads[0]) + frames(payloads.drop_first())
    }
}

/// Every payload of `payloads` is shorter than 2^32 bytes.
pub open spec fn all_fit(payloads: Seq<Seq<u8>>) -> bool {
    forall|i: int| 0 <= i < payloads.len() ==> #[trigger] payloads[i].len() < 0x1_0000_0000
}

/// The bytes `buf` (at least four) do not yet hold a whole frame: fewer
/// bytes follow the first four than those four announce, read big-endian.
pub open spec fn incomplete(buf: Seq<u8>) -> bool {
    buf.len() < 4 || buf.len() < 4 + header_value(buf)
}

/// Writing a length and reading it back gives the length: the four
/// big-endian bytes of `n` read back as `n`.
pub proof fn lemma_be_bytes_value(n: u32)
    ensures
        header_value(be_bytes(n)) == n,
        be_bytes(n).len() == 4,
{
    assert(n / 0x100_0000 < 0x100 && n == (n / 0x100_0000) * 0x100_0000 + ((n / 0x1_0000) % 0x100)
        * 0x1_0000 + ((n / 0x100) % 0x100) * 0x100 + n % 0x100) by (bit_vector);
}

/// Reading a length and writing it again gives the same bytes: any four
/// bytes stand for a number below 2^32 whose big-endian bytes they are.
pub proof fn lemma_header_bytes(buf: Seq<u8>)
    requires
        buf.len() >= 4,
    ensures
        header_value(buf) < 0x1_0000_0000,
        be_bytes(header_value(buf) as u32) == buf.take(4),
{
    let b0 = buf[0];
    let b1 = buf[1];
    let b2 = buf[2];
    let b3 = buf[3];
    let n: u32 = ((b0 as u32) * 0x100_0000 + (b1 as u32) * 0x1_0000 + (b2 as u32) * 0x100 + (b3 as u32)) as u32;
    assert(b0 as u32 * 0x100_0000 + b1 as u32 * 0x1_0000 + b2 as u32 * 0x100 + b3 as u32
        <= 0xffff_ffff && (n == (b0 as u32 * 0x100_0000 + b1 as u32 * 0x1_0000 + b2 as u32 * 0x100
        + b3 as u32) as u32 ==> (n / 0x100_0000) as u8 == b0 && ((n / 0x1_0000) % 0x100) as u8
        == b1 && ((n / 0x100) % 0x100) as u8 == b2 && (n % 0x100) as u8 == b3)) by (bit_vector);
    assert(header_value(buf) == n);
    assert(be_bytes(header_value(buf) as u32) =~= buf.take(4));
}

/// Nothing is handed out of an incomplete frame: bytes that do not yet hold
/// a whole frame all stay pending.
pub proof fn lemma_incomplete_kept(buf: Seq<u8>)
    requires
        incomplete(buf),
    ensures
        decode_frames(buf) == (Seq::<Seq<u8>>::empty(), buf),
{
}

/// Decoding loses no byte and cuts no frame short: the frames of the
/// payloads handed out, followed by the bytes kept, are exactly the bytes
/// received; every payload has the length its header announced (so less
/// than 2^32); and the bytes kept do not hold a whole frame.
pub proof fn lemma_decode_frames_exact(buf: Seq<u8>)
    ensures
        frames(decode_frames(buf).0) + decode_frames(buf).1 == buf,
        all_fit(decode_frames(buf).0),
        incomplete(decode_frames(buf).1),
    decreases buf.len(),
{
    match split_frame(buf) {
        Some((payload, rest)) => {
            lemma_decode_frames_exact(rest);
            lemma_header_bytes(buf);
            let n = header_value(buf);
            let (more, left) = decode_frames(rest);
            let ps = seq![payload] + more;
            assert(ps[0] == payload);
            assert(ps.drop_first() =~= more);
            assert(payload.len() == n);
            assert(length_field(payload.len()) == n as u32);
            assert(frame(payload) =~= buf.take(4 + n as int)) by {
                assert(buf.take(4 + n as int) =~= buf.take(4) + payload);
            }
            assert(frames(ps) + left =~= buf.take(4 + n as int) + (frames(more) + left));
            assert(buf =~= buf.take(4 + n as int) + rest);
            assert forall|i: int| 0 <= i < ps.len() implies #[trigger] ps[i].len() < 0x1_0000_0000 by {
                if i > 0 {
                    assert(ps[i] == more[i - 1]);
                }
            }
        },
        None => {
            assert(frames(Seq::<Seq<u8>>::empty()) + buf =~= buf);
        },
    }
}

/// A frame read back: the frame of a payload shorter than 2^32 bytes,
/// followed by any bytes, splits into that payload and those bytes.
pub proof fn lemma_split_frame(payload: Seq<u8>, rest: Seq<u8>)
    requires
        payload.len() < 0x1_0000_0000,
    ensures
        split_frame(frame(payload) + rest) == Some((payload, rest)),
{
    let n = length_field(payload.len());
    lemma_be_bytes_value(n);
    let buf = frame(payload) + rest;
    assert(n == payload.len());
    assert(header_value(buf) == header_value(be_bytes(n)));
    assert(buf.subrange(4, 4 + payload.len() as int) =~= payload);
    assert(buf.subrange(4 + payload.len() as int, buf.len() as int) =~= rest);
}

/// Frames read back in order: the frames of payloads that are each shorter
/// than 2^32 bytes, followed by any bytes, decode into those payloads first,
/// and then into what those bytes decode into.
pub proof fn lemma_decode_frames(payloads: Seq<Seq<u8>>, rest: Seq<u8>)
    requires
        all_fit(payloads),
    ensures
        decode_frames(frames(payloads) + rest) == (payloads + decode_frames(rest).0,
        decode_frames(rest).1),
    decreases payloads.len(),
{
    if payloads.len() == 0 {
        assert(frames(payloads) + rest =~= rest);
        assert(payloads + decode_frames(rest).0 =~= decode_frames(rest).0);
    } else {
        let tail = payloads.drop_first();
        assert(all_fit(tail)) by {
            assert forall|i: int| 0 <= i < tail.len() implies #[trigger] tail[i].len()
                < 0x1_0000_0000 by {
                assert(tail[i] == payloads[i + 1]);
            }
        }
        assert(payloads[0].len() < 0x1_0000_0000);
        lemma_decode_frames(tail, rest);
        let buf = frames(payloads) + rest;
        assert(buf =~= frame(payloads[0]) + (frames(tail) + rest));
        lemma_split_frame(payloads[0], frames(tail) + rest);
        assert(payloads =~= seq![payloads[0]] + tail);
        assert(seq![payloads[0]] + (tail + decode_frames(rest).0) =~= payloads + decode_frames(
            rest,
        ).0);
    }
}

/// The frames of a whole conversation decode into its messages, in order,
/// with nothing left over.
pub proof fn lemma_frames_round_trip(payloads: Seq<Seq<u8>>)
    requires
        all_fit(payloads),
    ensures
        decode_frames(frames(payloads)) == (payloads, Seq::<u8>::empty()),
{
    lemma_decode_frames(payloads, Seq::empty());
    assert(frames(payloads) + Seq::<u8>::empty() =~= frames(payloads));
    assert(split_frame(Seq::<u8>::empty()) is None);
    assert(payloads + Seq::<Seq<u8>>::empty() =~= payloads);
}

/// The four big-endian bytes of `n`.
pub fn u32_to_be_bytes(n: u32) -> (r: [u8; 4])
    ensures
        r@ == be_bytes(n),
{
    let r = [
        (n / 0x100_0000) as u8,
        ((n / 0x1_0000) % 0x100) as u8,
        ((n / 0x100) % 0x100) as u8,
        (n % 0x100) as u8,
    ];
    assert(r@ =~= be_bytes(n));
    r
}

/// The length that a frame header announces, read big-endian.
pub fn frame_length(header: [u8; 4]) -> (r: u32)
    ensures
        r == header_value(header@),
{
    let r: u32 = (header[0] as u32) * 0x100_0000 + (header[1] as u32) * 0x1_0000 + (header[2] as u32)
        * 0x100 + (header[3] as u32);
    r
}

/// The frame that carries `payload`: its length modulo 2^32 as four
/// big-endian bytes, then the payload.
pub fn encode_frame(payload: &[u8]) -> (r: Vec<u8>)
    ensures
        r@ == frame(payload@),
{
    let len: u64 = payload.len() as u64;
    let field: u32 = (len % 0x1_0000_0000) as u32;
    let header = u32_to_be_bytes(field);
    let mut out: Vec<u8> = Vec::new();
    out.push(header[0]);
    out.push(header[1]);
    out.push(header[2]);
    out.push(header[3]);
    out.extend_from_slice(payload);
    assert(out@ =~= frame(payload@));
    out
}

/// Splits a byte stream into frames. Bytes come in as they are read, in
/// chunks of any size; whole frames come out in order.
pub struct FrameDecoder {
    pending: Vec<u8>,
}

impl View for FrameDecoder {
    type V = Seq<u8>;

    /// The bytes received and not yet handed out as part of a frame.
    closed spec fn view(&self) -> Seq<u8> {
        self.pending@
    }
}

impl FrameDecoder {
    /// A decoder that has received nothing.
    pub fn new() -> (r: FrameDecoder)
        ensures
            r@ == Seq::<u8>::empty(),
    {
        FrameDecoder { pending: Vec::new() }
    }

    /// Takes in bytes read from the stream.
    pub fn push(&mut self, bytes: &[u8])
        ensures
            final(self)@ == old(self)@ + bytes@,
    {
        self.pending.extend_from_slice(bytes);
    }

    /// Hands out the payloads of all the whole frames received so far, in
    /// order, and keeps the bytes of the frame that is not complete yet.
    pub fn drain_frames(&mut self) -> (r: Vec<Vec<u8>>)
        ensures
            r.deep_view() == decode_frames(old(self)@).0,
            final(self)@ == decode_frames(old(self)@).1,
            frames(r.deep_view()) + final(self)@ == old(self)@,
            all_fit(r.deep_view()),
            incomplete(final(self)@),
            incomplete(old(self)@) ==> r@.len() == 0 && final(self)@ == old(self)@,
    {
        proof {
            lemma_decode_frames_exact(self.pending@);
            if incomplete(self.pending@) {
                lemma_incomplete_kept(self.pending@);
            }
        }
        let mut out: Vec<Vec<u8>> = Vec::new();
        let mut pos: usize = 0;
        let len = self.pending.len();
        let ghost whole = self.pending@;
        assert(whole.subrange(0, len as int) =~= whole);
        assert(out.deep_view() + decode_frames(whole).0 =~= decode_frames(whole).0);
        loop
            invariant
                self.pending@ == whole,
                len == whole.len(),
                pos <= len,
                decode_frames(whole) == (out.deep_view() + decode_frames(
                    whole.subrange(pos as int, len as int),
                ).0, decode_frames(whole.subrange(pos as int, len as int)).1),
            ensures
                self.pending@ == whole,
                pos <= len,
                decode_frames(whole) == (out.deep_view() + decode_frames(
                    whole.subrange(pos as int, len as int),
                ).0, decode_frames(whole.subrange(pos as int, len as int)).1),
                split_frame(whole.subrange(pos as int, len as int)) is None,
            decreases len - pos,
        {
            let ghost buf = whole.subrange(pos as int, len as int);
            if len - pos < 4 {
                assert(split_frame(buf) is None);
                break ;
            }
            let header = [
                self.pending[pos],
                self.pending[pos + 1],
                self.pending[pos + 2],
                self.pending[pos + 3],
            ];
            let n = frame_length(header);
            assert(header@ =~= buf.subrange(0, 4));
            assert(header_value(header@) == header_value(buf));
            if ((len - pos - 4) as u64) < (n as u64) {
                assert(split_frame(buf) is None);
                break ;
            }
            let end: usize = pos + 4 + n as usize;
            let mut payload: Vec<u8> = Vec::new();
            payload.extend_from_slice(&self.pending.as_slice()[pos + 4..end]);
            let ghost rest = whole.subrange(end as int, len as int);
            assert(payload@ =~= buf.subrange(4, 4 + n));
            assert(rest =~= buf.subrange(4 + n, buf.len() as int));
            assert(split_frame(buf) == Some((payload@, rest)));
            let ghost before = out.deep_view();
            assert(payload.deep_view() =~= payload@);
            out.push(payload);
            assert(out.deep_view() =~= before + seq![payload@]);
            assert(before + seq![payload@] + decode_frames(rest).0 =~= before + (seq![payload@]
                + decode_frames(rest).0));
            pos = end;
        }
        assert(decode_frames(whole.subrange(pos as int, len as int)).0 =~= Seq::<Seq<u8>>::empty());
        let rest = self.pending.split_off(pos);
        self.pending = rest;
        assert(out.deep_view() + Seq::<Seq<u8>>::empty() =~= out.deep_view());
        out
    }
}

} // verus!
