//! Length-prefixed frames: eight big-endian length bytes, then that many
//! payload bytes. A frame that declares an empty payload is invalid.
//!
//! `FrameReader` holds the bytes received so far, in whatever chunks the
//! stream delivered them, and hands out each complete frame in turn.

use vstd::prelude::*;
use crate::be::{be_bytes, be_value, lemma_be_value_of_bytes, push_be_u64, read_be_u64};

verus! {

/// Length of a frame header.
pub const HEADER_LEN: usize = 8;

/// Largest chunk in which a payload is written to the stream.
pub const BUFFER_SIZE: usize = 8192;

/// Why no frame could be read.
#[derive(Clone, Copy, Debug, PartialEq, Eq, Structural)]
pub enum TransportError {
    /// The peer shut down before any byte of a frame arrived.
    Closed,
    /// The stream ended inside a frame.
    Truncated,
    /// A frame declared a length of zero.
    EmptyFrame,
    /// The stream failed.
    Io,
}

/// What the front of a byte sequence holds.
pub enum FrameSplit {
    /// Not yet a whole frame.
    Incomplete,
    /// A header that declares an empty payload.
    Empty,
    /// A whole frame: its payload, and the bytes that follow it.
    Frame(Seq<u8>, Seq<u8>),
}

/// The bytes of a frame that carries `payload`.
pub open spec fn frame_bytes(payload: Seq<u8>) -> Seq<u8> {
    be_bytes(payload.len() as u64) + payload
}

/// The payload length that the header at the front of `s` declares.
pub open spec fn declared_len(s: Seq<u8>) -> int {
    be_value(s.subrange(0, 8)) as int
}

/// Splits the first frame off `s`.
pub open spec fn split_frame(s: Seq<u8>) -> FrameSplit {
    if s.len() < 8 {
        FrameSplit::Incomplete
    } else if declared_len(s) == 0 {
        FrameSplit::Empty
    } else if s.len() - 8 < declared_len(s) {
        FrameSplit::Incomplete
    } else {
        FrameSplit::Frame(
            s.subrange(8, 8 + declared_len(s)),
            s.subrange(8 + declared_len(s), s.len() as int),
        )
    }
}

/// The error that ends of stream gives when `pending` bytes are unread.
pub open spec fn eof_error(pending: Seq<u8>) -> TransportError {
    if pending.len() == 0 {
        TransportError::Closed
    } else {
        TransportError::Truncated
    }
}

/// The bytes a reader holds after receiving `chunks` in order, starting from `start`.
pub open spec fn feed_all(start: Seq<u8>, chunks: Seq<Seq<u8>>) -> Seq<u8>
    decreases chunks.len(),
{
    if chunks.len() == 0 {
        start
    } else {
        feed_all(start + chunks[0], chunks.drop_first())
    }
}

/// The whole frames at the front of `s`, in order, and the bytes after them.
/// Draining stops at the first incomplete frame or at an invalid header, which
/// stays at the front of the bytes left.
pub open spec fn drain(s: Seq<u8>) -> (Seq<Seq<u8>>, Seq<u8>)
    decreases s.len(),
{
    match split_frame(s) {
        FrameSplit::Frame(p, r) => if r.len() < s.len() {
            (seq![p] + drain(r).0, drain(r).1)
        } else {
            (Seq::empty(), s)
        },
        _ => (Seq::empty(), s),
    }
}

/// A reader that starts from `start` and, after each chunk of `chunks`,
/// takes every whole frame: the payloads it takes, in order, and what it
/// holds at the end.
pub open spec fn drain_chunks(start: Seq<u8>, chunks: Seq<Seq<u8>>) -> (Seq<Seq<u8>>, Seq<u8>)
    decreases chunks.len(),
{
    if chunks.len() == 0 {
        drain(start)
    } else {
        let first = drain(start);
        let later = drain_chunks(first.1 + chunks[0], chunks.drop_first());
        (first.0 + later.0, later.1)
    }
}

/// The header and payload of a frame, ready to be written.
pub fn encode_frame(payload: &[u8]) -> (r: Vec<u8>)
    ensures
        r@ == frame_bytes(payload@),
{
    let mut out: Vec<u8> = Vec::new();
    push_be_u64(&mut out, payload.len() as u64);
    let mut i: usize = 0;
    while i < payload.len()
        invariant
            i <= payload@.len(),
            out@ == be_bytes(payload@.len() as u64) + payload@.subrange(0, i as int),
        decreases payload@.len() - i,
    {
        out.push(payload[i]);
        i += 1;
        assert(out@ =~= be_bytes(payload@.len() as u64) + payload@.subrange(0, i as int));
    }
    assert(payload@.subrange(0, i as int) =~= payload@);
    out
}

/// The eight header bytes of a frame whose payload has `len` bytes.
pub fn frame_header(len: usize) -> (r: Vec<u8>)
    ensures
        r@ == be_bytes(len as u64),
{
    let mut out: Vec<u8> = Vec::with_capacity(HEADER_LEN);
    push_be_u64(&mut out, len as u64);
    assert(out@ =~= be_bytes(len as u64));
    out
}

/// Reassembles frames from a byte stream delivered in chunks.
pub struct FrameReader {
    pending: Vec<u8>,
}

impl View for FrameReader {
    type V = Seq<u8>;

    /// The bytes received and not yet handed out.
    closed spec fn view(&self) -> Seq<u8> {
        self.pending@
    }
}

impl FrameReader {
    /// A reader that has received nothing.
    pub fn new() -> (r: FrameReader)
        ensures
            r@ == Seq::<u8>::empty(),
    {
        FrameReader { pending: Vec::new() }
    }

    /// Takes in the next chunk of the stream.
    pub fn feed(&mut self, chunk: &[u8])
        ensures
            final(self)@ == old(self)@ + chunk@,
    {
        let mut i: usize = 0;
        while i < chunk.len()
            invariant
                i <= chunk@.len(),
                self@ == old(self)@ + chunk@.subrange(0, i as int),
            decreases chunk@.len() - i,
        {
            self.pending.push(chunk[i]);
            i += 1;
            assert(self@ =~= old(self)@ + chunk@.subrange(0, i as int));
        }
        assert(chunk@.subrange(0, i as int) =~= chunk@);
    }

    /// How many more bytes must arrive before the next frame is whole
    /// (zero once it is, or once its header is known to be invalid).
    pub fn bytes_wanted(&self) -> (r: u64)
        ensures
            match split_frame(self@) {
                FrameSplit::Incomplete => r > 0 && (self@.len() < 8 ==> r == 8 - self@.len()) && (
                self@.len() >= 8 ==> r == declared_len(self@) - (self@.len() - 8)),
                _ => r == 0,
            },
    {
        let n = self.pending.len();
        if n < HEADER_LEN {
            return (HEADER_LEN - n) as u64;
        }
        let len = read_be_u64(self.pending.as_slice(), 0);
        if len == 0 || len <= (n - HEADER_LEN) as u64 {
            0
        } else {
            len - (n - HEADER_LEN) as u64
        }
    }

    /// Hands out the next whole frame's payload, if one has arrived. A header
    /// that declares an empty payload is an error, and is dropped with it.
    pub fn next_frame(&mut self) -> (r: Result<Option<Vec<u8>>, TransportError>)
        ensures
            match split_frame(old(self)@) {
                FrameSplit::Incomplete => r == Ok::<Option<Vec<u8>>, TransportError>(None)
                    && final(self)@ == old(self)@,
                FrameSplit::Empty => r == Err::<Option<Vec<u8>>, TransportError>(
                    TransportError::EmptyFrame,
                ) && final(self)@ == old(self)@.subrange(8, old(self)@.len() as int),
                FrameSplit::Frame(payload, rest) => r matches Ok(Some(p)) && p@ == payload
                    && final(self)@ == rest,
            },
    {
        let n = self.pending.len();
        if n < HEADER_LEN {
            return Ok(None);
        }
        let len = read_be_u64(self.pending.as_slice(), 0);
        if len == 0 {
            let rest = vstd::slice::slice_to_vec(
                vstd::slice::slice_subrange(self.pending.as_slice(), HEADER_LEN, n),
            );
            self.pending = rest;
            return Err(TransportError::EmptyFrame);
        }
        if len > (n - HEADER_LEN) as u64 {
            return Ok(None);
        }
        let end = HEADER_LEN + len as usize;
        let payload = vstd::slice::slice_to_vec(
            vstd::slice::slice_subrange(self.pending.as_slice(), HEADER_LEN, end),
        );
        let rest = vstd::slice::slice_to_vec(
            vstd::slice::slice_subrange(self.pending.as_slice(), end, n),
        );
        self.pending = rest;
        Ok(Some(payload))
    }

    /// Hands out every whole frame that has arrived, in order, with the error
    /// of a header that declares an empty payload if one follows them; that
    /// header is dropped.
    pub fn take_frames(&mut self) -> (r: (Vec<Vec<u8>>, Option<TransportError>))
        ensures
            r.0@.map_values(|f: Vec<u8>| f@) == drain(old(self)@).0,
            match r.1 {
                None => final(self)@ == drain(old(self)@).1 && split_frame(final(self)@) is Incomplete,
                Some(e) => e == TransportError::EmptyFrame && split_frame(drain(old(self)@).1) is Empty
                    && final(self)@ == drain(old(self)@).1.subrange(
                    8,
                    drain(old(self)@).1.len() as int,
                ),
            },
    {
        let mut frames: Vec<Vec<u8>> = Vec::new();
        loop
            invariant
                drain(old(self)@).0 == frames@.map_values(|f: Vec<u8>| f@) + drain(self@).0,
                drain(old(self)@).1 == drain(self@).1,
            decreases self@.len(),
        {
            let ghost before = self@;
            proof {
                lemma_frame_shrinks(before);
            }
            match self.next_frame() {
                Ok(Some(p)) => {
                    let ghost prev = frames@;
                    frames.push(p);
                    assert(frames@.map_values(|f: Vec<u8>| f@) =~= prev.map_values(|f: Vec<u8>| f@).push(
                        p@,
                    ));
                    assert(drain(before).0 == seq![p@] + drain(self@).0);
                    assert(frames@.map_values(|f: Vec<u8>| f@) + drain(self@).0 =~= prev.map_values(
                        |f: Vec<u8>| f@,
                    ) + drain(before).0);
                },
                Ok(None) => {
                    assert(drain(before).0 =~= Seq::<Seq<u8>>::empty());
                    assert(frames@.map_values(|f: Vec<u8>| f@) =~= frames@.map_values(|f: Vec<u8>| f@)
                        + drain(before).0);
                    return (frames, None);
                },
                Err(e) => {
                    assert(drain(before).0 =~= Seq::<Seq<u8>>::empty());
                    assert(frames@.map_values(|f: Vec<u8>| f@) =~= frames@.map_values(|f: Vec<u8>| f@)
                        + drain(before).0);
                    return (frames, Some(e));
                },
            }
        }
    }

    /// The error to report when the stream ends now.
    pub fn at_eof(&self) -> (r: TransportError)
        ensures
            r == eof_error(self@),
    {
        if self.pending.len() == 0 {
            TransportError::Closed
        } else {
            TransportError::Truncated
        }
    }
}

/// A frame written for a non-empty payload is read back as that payload, and
/// whatever followed it on the stream stays unread.
pub proof fn lemma_frame_round_trip(payload: Seq<u8>, rest: Seq<u8>)
    requires
        0 < payload.len() <= u64::MAX,
    ensures
        split_frame(frame_bytes(payload) + rest) == FrameSplit::Frame(payload, rest),
{
    let s = frame_bytes(payload) + rest;
    lemma_be_value_of_bytes(payload.len() as u64);
    assert(s.subrange(0, 8) =~= be_bytes(payload.len() as u64));
    assert(s.subrange(8, 8 + payload.len() as int) =~= payload);
    assert(s.subrange(8 + payload.len() as int, s.len() as int) =~= rest);
}

/// A header that declares length zero is an error, whatever follows it.
pub proof fn lemma_empty_frame_rejected(rest: Seq<u8>)
    ensures
        split_frame(be_bytes(0) + rest) == FrameSplit::Empty,
{
    let s = be_bytes(0) + rest;
    lemma_be_value_of_bytes(0);
    assert(s.subrange(0, 8) =~= be_bytes(0));
}

/// What a reader holds depends only on the concatenation of the chunks it
/// received, not on where the chunk boundaries fell.
pub proof fn lemma_feed_all_is_concat(start: Seq<u8>, chunks: Seq<Seq<u8>>)
    ensures
        feed_all(start, chunks) == start + chunks.flatten(),
    decreases chunks.len(),
{
    if chunks.len() == 0 {
        assert(start + chunks.flatten() =~= start);
    } else {
        lemma_feed_all_is_concat(start + chunks[0], chunks.drop_first());
        assert(chunks.flatten() == chunks[0] + chunks.drop_first().flatten());
        assert(start + chunks[0] + chunks.drop_first().flatten() =~= start + (chunks[0]
            + chunks.drop_first().flatten()));
    }
}

/// Two ways of cutting the same bytes into chunks leave a reader with the
/// same first frame.
pub proof fn lemma_chunking_invariant(a: Seq<Seq<u8>>, b: Seq<Seq<u8>>)
    requires
        a.flatten() == b.flatten(),
    ensures
        feed_all(Seq::empty(), a) == feed_all(Seq::empty(), b),
        split_frame(feed_all(Seq::empty(), a)) == split_frame(feed_all(Seq::empty(), b)),
{
    lemma_feed_all_is_concat(Seq::empty(), a);
    lemma_feed_all_is_concat(Seq::empty(), b);
}

/// Once the front of the received bytes is a whole frame (or an invalid
/// header), more bytes arriving do not change it: a reader that checks after
/// every chunk hands out the payload it would hand out after the last.
pub proof fn lemma_split_stable(s: Seq<u8>, more: Seq<u8>)
    ensures
        split_frame(s) matches FrameSplit::Frame(p, r) ==> split_frame(s + more)
            == FrameSplit::Frame(p, r + more),
        split_frame(s) is Empty ==> split_frame(s + more) is Empty,
{
    if s.len() >= 8 {
        assert((s + more).subrange(0, 8) =~= s.subrange(0, 8));
        let n = declared_len(s);
        if n > 0 && s.len() - 8 >= n {
            assert((s + more).subrange(8, 8 + n) =~= s.subrange(8, 8 + n));
            assert((s + more).subrange(8 + n, (s + more).len() as int) =~= s.subrange(
                8 + n,
                s.len() as int,
            ) + more);
        }
    }
}

/// A whole frame is shorter than the bytes it was split from.
proof fn lemma_frame_shrinks(s: Seq<u8>)
    ensures
        split_frame(s) matches FrameSplit::Frame(p, r) ==> r.len() < s.len() && drain(s) == (
        seq![p] + drain(r).0, drain(r).1),
        !(split_frame(s) is Frame) ==> drain(s) == (Seq::<Seq<u8>>::empty(), s),
{
}

/// Draining `x` and then, after more bytes `y` arrive, draining again takes
/// the same frames, and leaves the same bytes, as draining `x + y` at once.
pub proof fn lemma_drain_append(x: Seq<u8>, y: Seq<u8>)
    ensures
        drain(x + y) == (drain(x).0 + drain(drain(x).1 + y).0, drain(drain(x).1 + y).1),
    decreases x.len(),
{
    lemma_frame_shrinks(x);
    lemma_split_stable(x, y);
    match split_frame(x) {
        FrameSplit::Frame(p, r) => {
            lemma_frame_shrinks(x + y);
            lemma_drain_append(r, y);
            assert(seq![p] + drain(r).0 + drain(drain(r).1 + y).0 =~= seq![p] + (drain(r).0 + drain(
                drain(r).1 + y,
            ).0));
        },
        _ => {
            assert(Seq::<Seq<u8>>::empty() + drain(x + y).0 =~= drain(x + y).0);
        },
    }
}

/// However the bytes of a stream are cut into chunks, a reader that takes
/// every whole frame after each chunk takes the same payloads, in the same
/// order, and is left holding the same bytes, as one that receives all the
/// bytes at once.
pub proof fn lemma_drain_chunks(start: Seq<u8>, chunks: Seq<Seq<u8>>)
    ensures
        drain_chunks(start, chunks) == drain(start + chunks.flatten()),
    decreases chunks.len(),
{
    if chunks.len() == 0 {
        assert(start + chunks.flatten() =~= start);
    } else {
        let first = drain(start);
        lemma_drain_chunks(first.1 + chunks[0], chunks.drop_first());
        lemma_drain_append(start, chunks[0] + chunks.drop_first().flatten());
        assert(first.1 + chunks[0] + chunks.drop_first().flatten() =~= first.1 + (chunks[0]
            + chunks.drop_first().flatten()));
        assert(chunks.flatten() == chunks[0] + chunks.drop_first().flatten());
    }
}

} // verus!
