//! Length-prefixed packet framing.
//!
//! A frame is a four-byte big-endian length followed by exactly that many
//! payload bytes. This module builds frames and takes them apart again,
//! whatever way the bytes of a stream happen to be cut into chunks.

use vstd::prelude::*;

verus! {

/// Number of bytes in a frame header.
pub const HEADER_LEN: usize = 4;

/// Largest payload length that a frame header can announce.
pub const MAX_PAYLOAD_LEN: usize = 0xffff_ffff;

/// Why a packet could not be put into a frame, or a payload not be read.
#[derive(Debug, Clone, Copy, PartialEq, Eq)]
pub enum Error {
    /// The payload has more bytes than four header bytes can count.
    PayloadTooLong,
    /// The payload has no byte, and so no tag.
    EmptyPayload,
    /// The payload begins with a tag that stands for no packet.
    UnknownTag(u8),
}

/// The four bytes of `n`, most significant first.
pub open spec fn be_bytes(n: u32) -> Seq<u8> {
    seq![
        (n / 0x100_0000) as u8,
        (n / 0x1_0000 % 0x100) as u8,
        (n / 0x100 % 0x100) as u8,
        (n % 0x100) as u8,
    ]
}

/// The number whose big-endian bytes are the first four of `bytes`.
pub open spec fn be_value(bytes: Seq<u8>) -> int
    recommends
        bytes.len() >= 4,
{
    bytes[0] * 0x100_0000 + bytes[1] * 0x1_0000 + bytes[2] * 0x100 + bytes[3]
}

/// The frame that carries `payload`.
pub open spec fn frame(payload: Seq<u8>) -> Seq<u8>
    recommends
        payload.len() <= MAX_PAYLOAD_LEN,
{
    be_bytes(payload.len() as u32) + payload
}

/// The payload of a packet: its tag, then its body.
pub open spec fn payload_of(tag: u8, body: Seq<u8>) -> Seq<u8> {
    seq![tag] + body
}

/// Whether `bytes` starts with a complete frame.
pub open spec fn has_frame(bytes: Seq<u8>) -> bool {
    bytes.len() >= 4 && bytes.len() >= 4 + be_value(bytes)
}

/// The payload of the frame that `bytes` starts with.
pub open spec fn first_payload(bytes: Seq<u8>) -> Seq<u8>
    recommends
        has_frame(bytes),
{
    bytes.subrange(4, 4 + be_value(bytes))
}

/// What follows the frame that `bytes` starts with.
pub open spec fn after_first(bytes: Seq<u8>) -> Seq<u8>
    recommends
        has_frame(bytes),
{
    bytes.subrange(4 + be_value(bytes), bytes.len() as int)
}

/// The payloads of all the complete frames at the front of `bytes`, in order.
pub open spec fn frames(bytes: Seq<u8>) -> Seq<Seq<u8>>
    decreases bytes.len(),
{
    if has_frame(bytes) {
        seq![first_payload(bytes)] + frames(after_first(bytes))
    } else {
        Seq::empty()
    }
}

/// What is left of `bytes` behind its complete frames: the beginning of a
/// frame whose end has not arrived, or nothing.
pub open spec fn remainder(bytes: Seq<u8>) -> Seq<u8>
    decreases bytes.len(),
{
    if has_frame(bytes) {
        remainder(after_first(bytes))
    } else {
        bytes
    }
}

/// The frames of `payloads`, one after another, as they travel on a stream.
pub open spec fn stream(payloads: Seq<Seq<u8>>) -> Seq<u8>
    decreases payloads.len(),
{
    if payloads.len() == 0 {
        Seq::empty()
    } else {
        frame(payloads[0]) + stream(payloads.drop_first())
    }
}

/// The bytes of `chunks`, joined.
pub open spec fn joined(chunks: Seq<Seq<u8>>) -> Seq<u8>
    decreases chunks.len(),
{
    if chunks.len() == 0 {
        Seq::empty()
    } else {
        chunks[0] + joined(chunks.drop_first())
    }
}

/// The payloads that a reader holding `pending` delivers while `chunks`
/// arrive one after another, each followed by a drain of what is complete.
pub open spec fn pumped(pending: Seq<u8>, chunks: Seq<Seq<u8>>) -> Seq<Seq<u8>>
    decreases chunks.len(),
{
    if chunks.len() == 0 {
        Seq::empty()
    } else {
        frames(pending + chunks[0]) + pumped(
            remainder(pending + chunks[0]),
            chunks.drop_first(),
        )
    }
}

/// What such a reader still holds when all of `chunks` have arrived.
pub open spec fn pumped_rest(pending: Seq<u8>, chunks: Seq<Seq<u8>>) -> Seq<u8>
    decreases chunks.len(),
{
    if chunks.len() == 0 {
        pending
    } else {
        pumped_rest(remainder(pending + chunks[0]), chunks.drop_first())
    }
}

/// The views of the byte vectors in `items`.
pub open spec fn payload_views(items: Seq<Vec<u8>>) -> Seq<Seq<u8>> {
    Seq::new(items.len(), |i: int| items[i]@)
}

/// The header of a frame whose payload has `len` bytes.
pub fn frame_header(len: usize) -> (r: Result<[u8; 4], Error>)
    ensures
        len <= MAX_PAYLOAD_LEN ==> r is Ok && r->Ok_0@ == be_bytes(len as u32),
        len > MAX_PAYLOAD_LEN ==> r == Err::<[u8; 4], Error>(Error::PayloadTooLong),
{
    if len > MAX_PAYLOAD_LEN {
        return Err(Error::PayloadTooLong);
    }
    let n: u32 = len as u32;
    let header: [u8; 4] = [
        (n / 0x100_0000) as u8,
        (n / 0x1_0000 % 0x100) as u8,
        (n / 0x100 % 0x100) as u8,
        (n % 0x100) as u8,
    ];
    Ok(header)
}

/// The payload length that the header bytes `b0` to `b3` announce.
pub fn announced_len(b0: u8, b1: u8, b2: u8, b3: u8) -> (n: u32)
    ensures
        n == be_value(seq![b0, b1, b2, b3]),
{
    let n0: u32 = b0 as u32;
    let n1: u32 = b1 as u32;
    let n2: u32 = b2 as u32;
    let n3: u32 = b3 as u32;
    n0 * 0x100_0000 + n1 * 0x1_0000 + n2 * 0x100 + n3
}

/// Builds the frame that carries `payload`: fails if the payload is too
/// long for the header, and otherwise gives header and payload in one piece.
pub fn encode_frame(payload: &[u8]) -> (r: Result<Vec<u8>, Error>)
    ensures
        payload@.len() <= MAX_PAYLOAD_LEN ==> r is Ok && r->Ok_0@ == frame(payload@),
        payload@.len() > MAX_PAYLOAD_LEN ==> r == Err::<Vec<u8>, Error>(Error::PayloadTooLong),
{
    let header = match frame_header(payload.len()) {
        Ok(header) => header,
        Err(e) => {
            return Err(e);
        },
    };
    let mut out: Vec<u8> = Vec::new();
    out.push(header[0]);
    out.push(header[1]);
    out.push(header[2]);
    out.push(header[3]);
    append_bytes(&mut out, payload);
    Ok(out)
}

/// Builds the frame of a packet from its tag and its body: fails if tag
/// and body together are too long for the header, and otherwise gives the
/// header, the tag and the body in one piece.
pub fn encode_packet(tag: u8, body: &[u8]) -> (r: Result<Vec<u8>, Error>)
    ensures
        body@.len() < MAX_PAYLOAD_LEN ==> r is Ok && r->Ok_0@ == frame(payload_of(tag, body@)),
        body@.len() >= MAX_PAYLOAD_LEN ==> r == Err::<Vec<u8>, Error>(Error::PayloadTooLong),
{
    if body.len() >= MAX_PAYLOAD_LEN {
        return Err(Error::PayloadTooLong);
    }
    let header = match frame_header(body.len() + 1) {
        Ok(header) => header,
        Err(e) => {
            return Err(e);
        },
    };
    let mut out: Vec<u8> = Vec::new();
    out.push(header[0]);
    out.push(header[1]);
    out.push(header[2]);
    out.push(header[3]);
    out.push(tag);
    append_bytes(&mut out, body);
    Ok(out)
}

/// Appends `bytes` to `out`.
fn append_bytes(out: &mut Vec<u8>, bytes: &[u8])
    ensures
        final(out)@ == old(out)@ + bytes@,
{
    let mut i: usize = 0;
    while i < bytes.len()
        invariant
            i <= bytes@.len(),
            out@ == old(out)@ + bytes@.subrange(0, i as int),
        decreases bytes@.len() - i,
    {
        out.push(bytes[i]);
        i += 1;
    }
}

/// How far the frame at the front of a reader's buffer has arrived.
#[derive(Debug, Clone, Copy, PartialEq, Eq)]
pub enum Progress {
    /// The header is incomplete: so many of its bytes are missing.
    Header(usize),
    /// The header is there and announces a payload of which so many bytes
    /// are missing.
    Body(usize),
    /// A whole frame is there.
    Ready,
}

/// The progress of the frame at the front of `bytes`.
pub open spec fn progress_of(bytes: Seq<u8>) -> Progress {
    if bytes.len() < 4 {
        Progress::Header((4 - bytes.len()) as usize)
    } else if bytes.len() < 4 + be_value(bytes) {
        Progress::Body((4 + be_value(bytes) - bytes.len()) as usize)
    } else {
        Progress::Ready
    }
}

/// Takes the frames out of a stream of bytes that arrives in chunks of any
/// size. It keeps what has arrived of a frame until the frame is whole, so
/// that no caller has to manage partial frames.
pub struct FrameReader {
    buf: Vec<u8>,
}

impl View for FrameReader {
    type V = Seq<u8>;

    /// The bytes that have arrived and were not yet delivered.
    closed spec fn view(&self) -> Seq<u8> {
        self.buf@
    }
}

impl FrameReader {
    /// A reader that holds nothing.
    pub fn new() -> (r: FrameReader)
        ensures
            r@ == Seq::<u8>::empty(),
    {
        FrameReader { buf: Vec::new() }
    }

    /// Number of bytes held.
    pub fn buffered(&self) -> (n: usize)
        ensures
            n == self@.len(),
    {
        self.buf.len()
    }

    /// Takes in `chunk`, the bytes that arrived next.
    pub fn push(&mut self, chunk: &[u8])
        ensures
            final(self)@ == old(self)@ + chunk@,
    {
        append_bytes(&mut self.buf, chunk);
    }

    /// Says what the frame at the front is waiting for.
    pub fn progress(&self) -> (p: Progress)
        ensures
            p == progress_of(self@),
            p is Ready <==> has_frame(self@),
    {
        let have = self.buf.len();
        if have < HEADER_LEN {
            return Progress::Header(HEADER_LEN - have);
        }
        let len = announced_len(self.buf[0], self.buf[1], self.buf[2], self.buf[3]) as usize;
        let body = have - HEADER_LEN;
        if body < len {
            Progress::Body(len - body)
        } else {
            Progress::Ready
        }
    }

    /// Takes the first frame out if it is whole, and gives its payload;
    /// otherwise leaves everything as it is.
    pub fn next_frame(&mut self) -> (r: Option<Vec<u8>>)
        ensures
            has_frame(old(self)@) ==> r is Some && r->Some_0@ == first_payload(old(self)@)
                && final(self)@ == after_first(old(self)@),
            !has_frame(old(self)@) ==> r is None && final(self)@ == old(self)@,
    {
        let have = self.buf.len();
        if have < HEADER_LEN {
            return None;
        }
        let len = announced_len(self.buf[0], self.buf[1], self.buf[2], self.buf[3]) as usize;
        if have - HEADER_LEN < len {
            return None;
        }
        let rest = self.buf.split_off(HEADER_LEN + len);
        let payload = self.buf.split_off(HEADER_LEN);
        self.buf = rest;
        Some(payload)
    }

    /// Takes out every whole frame, and gives the payloads in order.
    pub fn drain(&mut self) -> (r: Vec<Vec<u8>>)
        ensures
            payload_views(r@) == frames(old(self)@),
            final(self)@ == remainder(old(self)@),
            !has_frame(final(self)@),
    {
        let mut out: Vec<Vec<u8>> = Vec::new();
        loop
            invariant
                payload_views(out@) + frames(self@) == frames(old(self)@),
                remainder(self@) == remainder(old(self)@),
            ensures
                !has_frame(self@),
            decreases self@.len(),
        {
            match self.next_frame() {
                Some(payload) => {
                    out.push(payload);
                },
                None => {
                    break ;
                },
            }
        }
        proof {
            lemma_remainder_has_no_frame(old(self)@);
        }
        out
    }

    /// Takes in `chunk` and hands out every frame that it completed: one
    /// turn of the pump.
    pub fn receive(&mut self, chunk: &[u8]) -> (r: Vec<Vec<u8>>)
        ensures
            payload_views(r@) == frames(old(self)@ + chunk@),
            final(self)@ == remainder(old(self)@ + chunk@),
            !has_frame(final(self)@),
    {
        self.push(chunk);
        self.drain()
    }
}

/// Reading back the bytes of a number gives the number.
pub proof fn lemma_be_round_trip(n: u32)
    ensures
        be_bytes(n).len() == 4,
        be_value(be_bytes(n)) == n,
{
}

/// A frame followed by anything starts with that frame: its payload comes
/// out unchanged and what followed is what is left.
pub proof fn lemma_frame_round_trip(payload: Seq<u8>, tail: Seq<u8>)
    requires
        payload.len() <= MAX_PAYLOAD_LEN,
    ensures
        has_frame(frame(payload) + tail),
        first_payload(frame(payload) + tail) == payload,
        after_first(frame(payload) + tail) == tail,
{
    lemma_be_round_trip(payload.len() as u32);
}

/// The frame of a packet gives back its tag and its body: the payload that
/// comes out of the frame begins with the tag, and the body follows.
pub proof fn lemma_packet_round_trip(tag: u8, body: Seq<u8>, tail: Seq<u8>)
    requires
        body.len() < MAX_PAYLOAD_LEN,
    ensures
        has_frame(frame(payload_of(tag, body)) + tail),
        first_payload(frame(payload_of(tag, body)) + tail) == payload_of(tag, body),
        after_first(frame(payload_of(tag, body)) + tail) == tail,
        payload_of(tag, body).len() > 0,
        payload_of(tag, body)[0] == tag,
        payload_of(tag, body).skip(1) == body,
{
    lemma_frame_round_trip(payload_of(tag, body), tail);
}

/// When as many bytes arrive as a frame is said to miss, the header is
/// whole if the header was missing them, and the frame is whole if the
/// body was missing them.
pub proof fn lemma_missing_bytes_complete(bytes: Seq<u8>, chunk: Seq<u8>)
    ensures
        progress_of(bytes) matches Progress::Header(missing) && chunk.len() == missing ==> (bytes
            + chunk).len() == 4,
        progress_of(bytes) matches Progress::Body(missing) && chunk.len() == missing ==> has_frame(
            bytes + chunk,
        ) && first_payload(bytes + chunk) == (bytes + chunk).skip(4) && after_first(bytes + chunk)
            == Seq::<u8>::empty(),
        progress_of(bytes) is Ready <==> has_frame(bytes),
{
}

/// More bytes behind a complete frame leave that frame as it is.
pub proof fn lemma_first_frame_extends(bytes: Seq<u8>, more: Seq<u8>)
    requires
        has_frame(bytes),
    ensures
        has_frame(bytes + more),
        first_payload(bytes + more) == first_payload(bytes),
        after_first(bytes + more) == after_first(bytes) + more,
{
}

/// What is left behind the complete frames holds no complete frame.
pub proof fn lemma_remainder_has_no_frame(bytes: Seq<u8>)
    ensures
        !has_frame(remainder(bytes)),
        frames(remainder(bytes)) == Seq::<Seq<u8>>::empty(),
        remainder(remainder(bytes)) == remainder(bytes),
    decreases bytes.len(),
{
    if has_frame(bytes) {
        lemma_remainder_has_no_frame(after_first(bytes));
    }
}

/// Cutting a stream in two changes nothing: the frames of the whole are the
/// frames of the first part, then those of what it left joined to the second.
pub proof fn lemma_frames_split(first: Seq<u8>, second: Seq<u8>)
    ensures
        frames(first + second) == frames(first) + frames(remainder(first) + second),
        remainder(first + second) == remainder(remainder(first) + second),
    decreases first.len(),
{
    if has_frame(first) {
        lemma_first_frame_extends(first, second);
        lemma_frames_split(after_first(first), second);
    }
}

/// The stream of some payloads holds exactly those payloads, in order, and
/// nothing besides.
pub proof fn lemma_frames_of_stream(payloads: Seq<Seq<u8>>)
    requires
        forall|i: int| 0 <= i < payloads.len() ==> (#[trigger] payloads[i]).len() <= MAX_PAYLOAD_LEN,
    ensures
        frames(stream(payloads)) == payloads,
        remainder(stream(payloads)) == Seq::<u8>::empty(),
    decreases payloads.len(),
{
    if payloads.len() > 0 {
        let rest = payloads.drop_first();
        lemma_frame_round_trip(payloads[0], stream(rest));
        lemma_frames_of_stream(rest);
    }
}

/// A reader that is fed chunk by chunk delivers what it would deliver if
/// all the bytes had come at once, and is left holding the same.
pub proof fn lemma_pumped_is_frames_of_joined(pending: Seq<u8>, chunks: Seq<Seq<u8>>)
    requires
        !has_frame(pending),
    ensures
        pumped(pending, chunks) == frames(pending + joined(chunks)),
        pumped_rest(pending, chunks) == remainder(pending + joined(chunks)),
    decreases chunks.len(),
{
    if chunks.len() > 0 {
        let head = pending + chunks[0];
        let tail = chunks.drop_first();
        lemma_remainder_has_no_frame(head);
        lemma_pumped_is_frames_of_joined(remainder(head), tail);
        lemma_frames_split(head, joined(tail));
        assert(head + joined(tail) =~= pending + joined(chunks));
    }
}

/// However the frames of some payloads are cut into chunks, down to single
/// bytes, a fresh reader fed with the chunks in order delivers exactly
/// those payloads, in their order, and holds nothing afterwards.
pub proof fn lemma_pump_delivers_payloads(payloads: Seq<Seq<u8>>, chunks: Seq<Seq<u8>>)
    requires
        forall|i: int| 0 <= i < payloads.len() ==> (#[trigger] payloads[i]).len() <= MAX_PAYLOAD_LEN,
        joined(chunks) == stream(payloads),
    ensures
        pumped(Seq::empty(), chunks) == payloads,
        pumped_rest(Seq::empty(), chunks) == Seq::<u8>::empty(),
{
    lemma_pumped_is_frames_of_joined(Seq::empty(), chunks);
    lemma_frames_of_stream(payloads);
}

} // verus!
