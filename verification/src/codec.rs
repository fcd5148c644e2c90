//! Length-delimited framing used by RustDesk on the wire.
//!
//! The on-wire format is a variable-length header (1 to 4 bytes) whose low 2
//! bits hold `header_len - 1` and whose remaining bits hold the payload length,
//! in little-endian byte order.

use vstd::prelude::*;

use bytes::{Bytes, BytesMut};

use crate::buffer::{
    advance, as_slice, buffered, frozen, frozen_slice, growth_limit, may_grow, put_slice, put_u8,
    reserve, split_to,
};

verus! {

broadcast use vstd::seq::group_seq_axioms;

/// The largest payload that a frame may announce: 64 MiB.
pub const MAX_PACKET: usize = 67_108_864;

/// What the decoder waits for.
#[derive(Debug, Clone, Copy)]
enum State {
    /// The header of the next frame.
    Head,
    /// A payload of this many bytes.
    Body(usize),
}

/// Why a frame was refused.
#[derive(Debug, Clone, Copy, PartialEq, Eq, Structural)]
pub enum CodecError {
    /// The frame exceeds the maximum packet length.
    FrameTooLong,
}

/// The framing codec of one connection.
#[derive(Debug, Clone, Copy)]
pub struct RustDeskCodec {
    state: State,
    raw: bool,
    max: usize,
}

/// A codec as the contracts see it: whether it passes bytes through, and the
/// payload length that it has read a header for, if any.
pub struct CodecView {
    pub raw: bool,
    pub body: Option<nat>,
}

/// What one call of `decode` finds in the buffer.
pub enum Decoded {
    Incomplete,
    Frame(Seq<u8>),
    TooLong,
}

/// The number that `bytes` holds in little-endian order.
pub open spec fn le_value(bytes: Seq<u8>) -> nat
    decreases bytes.len(),
{
    if bytes.len() == 0 {
        0
    } else {
        bytes[0] as nat + 256 * le_value(bytes.skip(1))
    }
}

/// `value` in little-endian order, in `len` bytes.
pub open spec fn le_bytes(value: nat, len: nat) -> Seq<u8>
    decreases len,
{
    if len == 0 {
        Seq::empty()
    } else {
        seq![(value % 256) as u8] + le_bytes(value / 256, (len - 1) as nat)
    }
}

/// The header length that the first byte of a frame announces.
pub open spec fn header_len(buf: Seq<u8>) -> int {
    buf[0] as int % 4 + 1
}

/// The payload length that the header in front of `buf` announces.
pub open spec fn payload_len(buf: Seq<u8>) -> nat {
    le_value(buf.take(header_len(buf))) / 4
}

/// The number of header bytes that a payload of `n` bytes takes.
pub open spec fn header_size(n: nat) -> nat {
    if n < 0x40 {
        1
    } else if n < 0x4000 {
        2
    } else if n < 0x40_0000 {
        3
    } else {
        4
    }
}

/// The header of a payload of `n` bytes.
pub open spec fn frame_header(n: nat) -> Seq<u8> {
    le_bytes((4 * n + header_size(n) - 1) as nat, header_size(n))
}

/// A payload with its header.
pub open spec fn frame(payload: Seq<u8>) -> Seq<u8> {
    frame_header(payload.len()) + payload
}

/// Waits for `n` payload bytes.
pub open spec fn decode_body(c: CodecView, n: nat, buf: Seq<u8>) -> (
    Decoded,
    CodecView,
    Seq<u8>,
) {
    if buf.len() < n {
        (Decoded::Incomplete, CodecView { raw: c.raw, body: Some(n) }, buf)
    } else {
        (
            Decoded::Frame(buf.take(n as int)),
            CodecView { raw: c.raw, body: None },
            buf.skip(n as int),
        )
    }
}

/// One call of `decode`: what it finds, the codec after it, and the bytes that
/// it leaves in the buffer.
pub open spec fn decode_step(c: CodecView, buf: Seq<u8>) -> (Decoded, CodecView, Seq<u8>) {
    if c.raw {
        if buf.len() == 0 {
            (Decoded::Incomplete, c, buf)
        } else {
            (Decoded::Frame(buf), c, Seq::empty())
        }
    } else {
        match c.body {
            Some(n) => decode_body(c, n, buf),
            None => {
                if buf.len() == 0 || buf.len() < header_len(buf) {
                    (Decoded::Incomplete, c, buf)
                } else if payload_len(buf) > MAX_PACKET {
                    (Decoded::TooLong, c, buf)
                } else {
                    decode_body(c, payload_len(buf), buf.skip(header_len(buf)))
                }
            },
        }
    }
}

/// The bytes that `encode` appends, or `None` where it refuses the item.
pub open spec fn encoded(c: CodecView, item: Seq<u8>) -> Option<Seq<u8>> {
    if c.raw {
        Some(item)
    } else if item.len() > MAX_PACKET {
        None
    } else {
        Some(frame(item))
    }
}

/// One call of `encode`: the codec after it, which is the same, and the bytes
/// that it appends, or `None` where it refuses the item.
pub open spec fn encode_step(c: CodecView, item: Seq<u8>) -> (CodecView, Option<Seq<u8>>) {
    (c, encoded(c, item))
}

/// A result of `decode` as `decode_step` describes it.
pub open spec fn decoded(r: Result<Option<BytesMut>, CodecError>) -> Decoded {
    match r {
        Ok(None) => Decoded::Incomplete,
        Ok(Some(b)) => Decoded::Frame(buffered(b)),
        Err(CodecError::FrameTooLong) => Decoded::TooLong,
    }
}

impl View for RustDeskCodec {
    type V = CodecView;

    closed spec fn view(&self) -> CodecView {
        CodecView {
            raw: self.raw,
            body: match self.state {
                State::Head => None,
                State::Body(n) => Some(n as nat),
            },
        }
    }
}

impl Default for RustDeskCodec {
    /// A codec that frames and waits for a header.
    fn default() -> (r: Self)
        ensures
            r@ == (CodecView { raw: false, body: None }),
    {
        RustDeskCodec { state: State::Head, raw: false, max: MAX_PACKET }
    }
}

impl RustDeskCodec {
    #[verifier::type_invariant]
    spec fn wf(self) -> bool {
        self.max == MAX_PACKET && (self.state matches State::Body(n) ==> n <= self.max)
    }

    /// A codec that frames and waits for a header.
    pub fn new() -> (r: Self)
        ensures
            r@ == (CodecView { raw: false, body: None }),
    {
        Self::default()
    }

    /// Switch into raw passthrough: no framing, hand the buffer up untouched.
    pub fn set_raw(&mut self)
        ensures
            final(self)@ == (CodecView { raw: true, body: old(self)@.body }),
    {
        proof {
            use_type_invariant(&*self);
        }
        self.raw = true;
    }

    /// Take the next frame out of `src`, if it is there.
    ///
    /// `Ok(None)` asks for more bytes. A header that announces more than
    /// `MAX_PACKET` bytes is refused and stays in the buffer.
    pub fn decode(&mut self, src: &mut BytesMut) -> (r: Result<Option<BytesMut>, CodecError>)
        ensures
            (decoded(r), final(self)@, buffered(*final(src))) == decode_step(
                old(self)@,
                buffered(*old(src)),
            ),
    {
        proof {
            use_type_invariant(&*self);
        }
        let available = as_slice(src).len();
        if self.raw {
            if available == 0 {
                return Ok(None);
            }
            let all = split_to(src, available);
            assert(buffered(all) =~= buffered(*old(src)));
            assert(buffered(*src) =~= Seq::empty());
            return Ok(Some(all));
        }
        let n = match self.state {
            State::Body(n) => n,
            State::Head => {
                if available == 0 {
                    return Ok(None);
                }
                let head_len = announced_header(as_slice(src)[0]);
                if available < head_len {
                    return Ok(None);
                }
                let n = announced_payload(as_slice(src), head_len);
                if n > self.max {
                    return Err(CodecError::FrameTooLong);
                }
                advance(src, head_len);
                let rest = as_slice(src).len();
                if may_grow(rest, n) {
                    reserve(src, n);
                }
                self.state = State::Body(n);
                n
            },
        };
        if as_slice(src).len() < n {
            return Ok(None);
        }
        let frame = split_to(src, n);
        self.state = State::Head;
        Ok(Some(frame))
    }

    /// Append `item` to `dst`: framed, or as it is in raw mode.
    ///
    /// A payload of more than `MAX_PACKET` bytes is refused in framed mode.
    pub fn encode(&mut self, item: Bytes, dst: &mut BytesMut) -> (r: Result<(), CodecError>)
        requires
            encoded(old(self)@, frozen(item)) matches Some(bytes) ==> buffered(*old(dst)).len()
                + bytes.len() <= growth_limit(),
        ensures
            *final(self) == *old(self),
            final(self)@ == encode_step(old(self)@, frozen(item)).0,
            match encode_step(old(self)@, frozen(item)).1 {
                Some(bytes) => r is Ok && buffered(*final(dst)) == buffered(*old(dst)) + bytes,
                None => r == Err::<(), CodecError>(CodecError::FrameTooLong) && buffered(
                    *final(dst),
                ) == buffered(*old(dst)),
            },
    {
        proof {
            use_type_invariant(&*self);
        }
        let bytes = frozen_slice(&item);
        let n = bytes.len();
        if self.raw {
            reserve(dst, n);
            put_slice(dst, bytes);
            return Ok(());
        }
        if n > self.max {
            return Err(CodecError::FrameTooLong);
        }
        let head_len = header_bytes(n);
        proof {
            lemma_le_bytes_len((4 * n + head_len - 1) as nat, head_len as nat);
        }
        let header: u32 = 4 * (n as u32) + (head_len as u32 - 1);
        reserve(dst, head_len + n);
        let ghost start = buffered(*dst);
        let mut rest: u32 = header;
        let mut i: usize = 0;
        while i < head_len
            invariant
                i <= head_len <= 4,
                start.len() + head_len <= growth_limit(),
                buffered(*dst).len() == start.len() + i,
                start + le_bytes(header as nat, head_len as nat) == buffered(*dst) + le_bytes(
                    rest as nat,
                    (head_len - i) as nat,
                ),
            decreases head_len - i,
        {
            put_u8(dst, (rest % 256) as u8);
            rest = rest / 256;
            i += 1;
        }
        put_slice(dst, bytes);
        proof {
            assert(buffered(*dst) =~= start + frame(frozen(item)));
        }
        Ok(())
    }

    /// `encode`, where `dst` may grow by what it appends. `None` leaves `dst` as
    /// it is, which may not grow so far.
    pub fn try_encode(&mut self, item: Bytes, dst: &mut BytesMut) -> (r: Option<
        Result<(), CodecError>,
    >)
        ensures
            *final(self) == *old(self),
            final(self)@ == encode_step(old(self)@, frozen(item)).0,
            match encode_step(old(self)@, frozen(item)).1 {
                Some(bytes) => if buffered(*old(dst)).len() + bytes.len() <= growth_limit() {
                    r matches Some(Ok(_)) && buffered(*final(dst)) == buffered(*old(dst)) + bytes
                } else {
                    r is None && buffered(*final(dst)) == buffered(*old(dst))
                },
                None => r == Some(Err::<(), CodecError>(CodecError::FrameTooLong)) && buffered(
                    *final(dst),
                ) == buffered(*old(dst)),
            },
    {
        proof {
            use_type_invariant(&*self);
        }
        let n = frozen_slice(&item).len();
        let mut cost = n;
        if !self.raw {
            if n > self.max {
                return Some(Err(CodecError::FrameTooLong));
            }
            cost = header_bytes(n) + n;
            proof {
                lemma_le_bytes_len(
                    (4 * n + header_size(n as nat) - 1) as nat,
                    header_size(n as nat),
                );
            }
        }
        if may_grow(as_slice(dst).len(), cost) {
            Some(self.encode(item, dst))
        } else {
            None
        }
    }
}

/// The number of header bytes that a payload of `n` bytes takes.
fn header_bytes(n: usize) -> (r: usize)
    ensures
        r == header_size(n as nat),
{
    if n < 0x40 {
        1
    } else if n < 0x4000 {
        2
    } else if n < 0x40_0000 {
        3
    } else {
        4
    }
}

/// The header length in the low two bits of a frame's first byte.
fn announced_header(first: u8) -> (r: usize)
    ensures
        r == first as int % 4 + 1,
{
    assert(first & 0x03 == first % 4) by (bit_vector);
    (first & 0x03) as usize + 1
}

/// The payload length in a header of `head_len` bytes.
fn announced_payload(buf: &[u8], head_len: usize) -> (r: usize)
    requires
        1 <= head_len <= 4,
        head_len <= buf@.len(),
    ensures
        r == le_value(buf@.take(head_len as int)) / 4,
{
    let b0 = buf[0];
    let b1: u8 = if head_len > 1 { buf[1] } else { 0 };
    let b2: u8 = if head_len > 2 { buf[2] } else { 0 };
    let b3: u8 = if head_len > 3 { buf[3] } else { 0 };
    let n: u32 = b0 as u32 | (b1 as u32) << 8 | (b2 as u32) << 16 | (b3 as u32) << 24;
    assert(n >> 2 == n / 4) by (bit_vector);
    assert(n == b0 + 256 * b1 + 65536 * b2 + 16777216 * b3) by (bit_vector)
        requires
            n == b0 as u32 | (b1 as u32) << 8 | (b2 as u32) << 16 | (b3 as u32) << 24,
    ;
    proof {
        lemma_le_value_upto_four(buf@.take(head_len as int));
    }
    (n >> 2) as usize
}

/// `le_value` of at most four bytes, written out.
proof fn lemma_le_value_upto_four(s: Seq<u8>)
    requires
        1 <= s.len() <= 4,
    ensures
        le_value(s) == s[0] + (if s.len() > 1 { 256 * s[1] } else { 0int }) + (if s.len() > 2 {
            65536 * s[2]
        } else { 0int }) + (if s.len() > 3 { 16777216 * s[3] } else { 0int }),
{
    reveal_with_fuel(le_value, 5);
}

proof fn lemma_le_bytes_len(value: nat, len: nat)
    ensures
        le_bytes(value, len).len() == len,
    decreases len,
{
    if len > 0 {
        lemma_le_bytes_len(value / 256, (len - 1) as nat);
    }
}

/// A number that fits is read back from the bytes that it was written in.
proof fn lemma_le_roundtrip(value: nat, len: nat)
    requires
        value < le_capacity(len),
    ensures
        le_value(le_bytes(value, len)) == value,
    decreases len,
{
    if len > 0 {
        lemma_le_roundtrip(value / 256, (len - 1) as nat);
        assert(le_bytes(value, len).skip(1) =~= le_bytes(value / 256, (len - 1) as nat));
    }
}

/// The header of a payload announces its own length and that of the payload,
/// and every byte after it is left alone.
proof fn lemma_header_announces(n: nat, rest: Seq<u8>)
    requires
        n <= MAX_PACKET,
    ensures
        header_len(frame_header(n) + rest) == frame_header(n).len(),
        payload_len(frame_header(n) + rest) == n,
        (frame_header(n) + rest).skip(header_len(frame_header(n) + rest)) == rest,
{
    let k = header_size(n);
    let value = (4 * n + k - 1) as nat;
    let buf = frame_header(n) + rest;
    lemma_le_bytes_len(value, k);
    reveal_with_fuel(le_capacity, 5);
    lemma_le_roundtrip(value, k);
    assert(buf[0] == (value % 256) as u8);
    assert(value % 256 % 4 == k - 1) by {
        assert(value == 4 * n + (k - 1));
    }
    assert(buf.take(header_len(buf)) =~= frame_header(n));
    assert(buf.skip(header_len(buf)) =~= rest);
}

/// A framing codec that waits for a header.
pub open spec fn fresh_codec() -> CodecView {
    CodecView { raw: false, body: None }
}

/// What was encoded is decoded: a frame at the front of the buffer gives back
/// its payload and leaves the bytes behind it.
pub proof fn law_decode_gives_back_encoded(payload: Seq<u8>, rest: Seq<u8>)
    requires
        payload.len() <= MAX_PACKET,
    ensures
        encoded(fresh_codec(), payload) == Some(frame(payload)),
        decode_step(fresh_codec(), frame(payload) + rest) == (
            Decoded::Frame(payload),
            fresh_codec(),
            rest,
        ),
{
    let n = payload.len();
    assert(frame(payload) + rest =~= frame_header(n) + (payload + rest));
    lemma_le_bytes_len((4 * n + header_size(n) - 1) as nat, header_size(n));
    lemma_header_announces(n, payload + rest);
    assert((payload + rest).take(n as int) =~= payload);
    assert((payload + rest).skip(n as int) =~= rest);
}

/// Every payload of `payloads`, framed, one behind the other.
pub open spec fn frames(payloads: Seq<Seq<u8>>) -> Seq<u8>
    decreases payloads.len(),
{
    if payloads.len() == 0 {
        Seq::empty()
    } else {
        frame(payloads[0]) + frames(payloads.skip(1))
    }
}

/// The payloads that `count` calls of `decode` give, as long as each gives one.
pub open spec fn decode_many(c: CodecView, buf: Seq<u8>, count: nat) -> Seq<Seq<u8>>
    decreases count,
{
    if count == 0 {
        Seq::empty()
    } else {
        match decode_step(c, buf) {
            (Decoded::Frame(payload), c2, rest) => seq![payload] + decode_many(
                c2,
                rest,
                (count - 1) as nat,
            ),
            _ => Seq::empty(),
        }
    }
}

/// A stream of frames is decoded into the payloads that it was made of, in
/// their order.
pub proof fn law_stream_of_frames(payloads: Seq<Seq<u8>>)
    requires
        forall|i: int| 0 <= i < payloads.len() ==> (#[trigger] payloads[i]).len() <= MAX_PACKET,
    ensures
        decode_many(fresh_codec(), frames(payloads), payloads.len()) == payloads,
    decreases payloads.len(),
{
    if payloads.len() > 0 {
        law_stream_of_frames(payloads.skip(1));
        law_decode_gives_back_encoded(payloads[0], frames(payloads.skip(1)));
        assert(seq![payloads[0]] + payloads.skip(1) =~= payloads);
    } else {
        assert(payloads =~= Seq::empty());
    }
}

/// How the bytes arrive makes no difference: a call that asks for more leaves
/// the codec and the buffer so that, with `more` appended, the next call finds
/// what one call on all the bytes would have found.
pub proof fn law_arrival_in_pieces(c: CodecView, buf: Seq<u8>, more: Seq<u8>)
    requires
        decode_step(c, buf).0 is Incomplete,
    ensures
        decode_step(decode_step(c, buf).1, decode_step(c, buf).2 + more) == decode_step(
            c,
            buf + more,
        ),
{
    let (_, c2, rest) = decode_step(c, buf);
    if c.raw {
        assert(buf + more =~= more);
    } else if c.body is None && buf.len() > 0 && buf.len() >= header_len(buf) {
        lemma_header_stays(buf, more);
        assert(c2.body == Some(payload_len(buf)));
    } else if c.body is None && buf.len() == 0 {
        assert(buf + more =~= more);
    }
}

/// A frame is found, and an oversized header refused, whatever follows it.
pub proof fn law_later_bytes_do_not_matter(c: CodecView, buf: Seq<u8>, more: Seq<u8>)
    requires
        !c.raw,
        !(decode_step(c, buf).0 is Incomplete),
    ensures
        decode_step(c, buf + more) == (
            decode_step(c, buf).0,
            decode_step(c, buf).1,
            decode_step(c, buf).2 + more,
        ),
{
    if c.body is None {
        lemma_header_stays(buf, more);
        let k = header_len(buf);
        let n = payload_len(buf) as int;
        if n <= MAX_PACKET {
            assert((buf + more).skip(k).take(n) =~= buf.skip(k).take(n));
            assert((buf + more).skip(k).skip(n) =~= buf.skip(k).skip(n) + more);
        }
    } else {
        let n = c.body->0 as int;
        assert((buf + more).take(n) =~= buf.take(n));
        assert((buf + more).skip(n) =~= buf.skip(n) + more);
    }
}

proof fn lemma_header_stays(buf: Seq<u8>, more: Seq<u8>)
    requires
        buf.len() > 0,
        buf.len() >= header_len(buf),
    ensures
        header_len(buf + more) == header_len(buf),
        payload_len(buf + more) == payload_len(buf),
        (buf + more).skip(header_len(buf)) == buf.skip(header_len(buf)) + more,
{
    let k = header_len(buf);
    assert((buf + more).take(k) =~= buf.take(k));
    assert((buf + more).skip(k) =~= buf.skip(k) + more);
}

/// A frame costs one to four bytes on top of its payload, its first byte holds
/// that number less one in its low two bits, and no shorter header could hold
/// the payload's length.
pub proof fn law_header_is_minimal(n: nat)
    requires
        n <= MAX_PACKET,
    ensures
        1 <= frame_header(n).len() <= 4,
        frame_header(n)[0] as int % 4 == frame_header(n).len() - 1,
        frame_header(n).len() == 1 || 4 * n >= le_capacity((frame_header(n).len() - 1) as nat),
        4 * n < le_capacity(frame_header(n).len()),
{
    let k = header_size(n);
    lemma_le_bytes_len((4 * n + k - 1) as nat, k);
    lemma_header_announces(n, Seq::empty());
    assert(frame_header(n) + Seq::empty() =~= frame_header(n));
    reveal_with_fuel(le_capacity, 5);
}

/// How many numbers `len` bytes can hold.
pub open spec fn le_capacity(len: nat) -> nat
    decreases len,
{
    if len == 0 {
        1
    } else {
        256 * le_capacity((len - 1) as nat)
    }
}

/// What happens to a codec: an item is encoded, or bytes arrive and `decode` is
/// called.
pub enum CodecUse {
    Encode(Seq<u8>),
    Decode(Seq<u8>),
}

/// What the calls of `decode` find among `uses`, where `buf` holds the bytes
/// that are not decoded yet.
pub open spec fn decode_results(c: CodecView, buf: Seq<u8>, uses: Seq<CodecUse>) -> Seq<Decoded>
    decreases uses.len(),
{
    if uses.len() == 0 {
        Seq::empty()
    } else {
        match uses[0] {
            CodecUse::Encode(item) => decode_results(encode_step(c, item).0, buf, uses.skip(1)),
            CodecUse::Decode(more) => {
                let (found, c2, rest) = decode_step(c, buf + more);
                seq![found] + decode_results(c2, rest, uses.skip(1))
            },
        }
    }
}

/// `uses` without the calls of `encode`.
pub open spec fn without_encodes(uses: Seq<CodecUse>) -> Seq<CodecUse>
    decreases uses.len(),
{
    if uses.len() == 0 {
        Seq::empty()
    } else {
        match uses[0] {
            CodecUse::Encode(_) => without_encodes(uses.skip(1)),
            CodecUse::Decode(_) => seq![uses[0]] + without_encodes(uses.skip(1)),
        }
    }
}

/// Encoding does not disturb decoding: in whatever state a codec is, its calls
/// of `decode` find what they would find without the calls of `encode` between
/// them.
pub proof fn law_encoding_does_not_disturb_decoding(
    c: CodecView,
    buf: Seq<u8>,
    uses: Seq<CodecUse>,
)
    ensures
        decode_results(c, buf, uses) == decode_results(c, buf, without_encodes(uses)),
    decreases uses.len(),
{
    if uses.len() > 0 {
        let rest = without_encodes(uses.skip(1));
        match uses[0] {
            CodecUse::Encode(_) => {
                law_encoding_does_not_disturb_decoding(c, buf, uses.skip(1));
            },
            CodecUse::Decode(more) => {
                let (_, c2, left) = decode_step(c, buf + more);
                law_encoding_does_not_disturb_decoding(c2, left, uses.skip(1));
                assert((seq![uses[0]] + rest).skip(1) =~= rest);
            },
        }
    }
}

/// All bytes that arrive among `uses`, one behind the other.
pub open spec fn arrived(uses: Seq<CodecUse>) -> Seq<u8>
    decreases uses.len(),
{
    if uses.len() == 0 {
        Seq::empty()
    } else {
        match uses[0] {
            CodecUse::Encode(_) => arrived(uses.skip(1)),
            CodecUse::Decode(more) => more + arrived(uses.skip(1)),
        }
    }
}

/// The codec and the bytes that are not decoded yet, after `uses`.
pub open spec fn decode_end(c: CodecView, buf: Seq<u8>, uses: Seq<CodecUse>) -> (
    CodecView,
    Seq<u8>,
)
    decreases uses.len(),
{
    if uses.len() == 0 {
        (c, buf)
    } else {
        match uses[0] {
            CodecUse::Encode(item) => decode_end(encode_step(c, item).0, buf, uses.skip(1)),
            CodecUse::Decode(more) => {
                let (_, c2, rest) = decode_step(c, buf + more);
                decode_end(c2, rest, uses.skip(1))
            },
        }
    }
}

/// The payloads among the results of `decode`.
pub open spec fn payloads_found(results: Seq<Decoded>) -> Seq<Seq<u8>>
    decreases results.len(),
{
    if results.len() == 0 {
        Seq::empty()
    } else {
        match results[0] {
            Decoded::Frame(payload) => seq![payload] + payloads_found(results.skip(1)),
            _ => payloads_found(results.skip(1)),
        }
    }
}

/// A stream of frames comes out whole, however it is cut: where all bytes that
/// arrive are those of the framed payloads, and `decode` was called until it
/// asked for more, it found exactly the payloads, in their order. It refused
/// nothing, no byte is left, and the codec waits for a header.
pub proof fn law_stream_comes_out_whole(payloads: Seq<Seq<u8>>, uses: Seq<CodecUse>)
    requires
        forall|i: int| 0 <= i < payloads.len() ==> (#[trigger] payloads[i]).len() <= MAX_PACKET,
        arrived(uses) == frames(payloads),
        ({
            let results = decode_results(fresh_codec(), Seq::empty(), uses);
            results.len() > 0 && results.last() is Incomplete
        }),
    ensures
        ({
            let results = decode_results(fresh_codec(), Seq::empty(), uses);
            &&& payloads_found(results) == payloads
            &&& forall|i: int|
                0 <= i < results.len() ==> !(#[trigger] results[i] is TooLong)
        }),
        decode_end(fresh_codec(), Seq::empty(), uses) == (fresh_codec(), Seq::<u8>::empty()),
{
    assert(Seq::<u8>::empty() + arrived(uses) =~= frames(payloads));
    lemma_rest_comes_out(fresh_codec(), Seq::empty(), uses, payloads);
}

/// Whether `bytes` is what is left of the framed `payloads`, where the codec
/// may have read the header of the first one already.
spec fn left_of(c: CodecView, bytes: Seq<u8>, payloads: Seq<Seq<u8>>) -> bool {
    &&& !c.raw
    &&& match c.body {
        None => bytes == frames(payloads),
        Some(n) => payloads.len() > 0 && payloads[0].len() == n && bytes == payloads[0] + frames(
            payloads.skip(1),
        ),
    }
}

/// One call of `decode` on all bytes that are left finds the first payload.
proof fn lemma_first_comes_out(c: CodecView, bytes: Seq<u8>, payloads: Seq<Seq<u8>>)
    requires
        payloads.len() > 0,
        payloads[0].len() <= MAX_PACKET,
        left_of(c, bytes, payloads),
    ensures
        decode_step(c, bytes) == (
            Decoded::Frame(payloads[0]),
            fresh_codec(),
            frames(payloads.skip(1)),
        ),
{
    let rest = frames(payloads.skip(1));
    if c.body is None {
        assert(c == fresh_codec());
        law_decode_gives_back_encoded(payloads[0], rest);
    } else {
        let n = payloads[0].len() as int;
        assert(bytes.take(n) =~= payloads[0]);
        assert(bytes.skip(n) =~= rest);
    }
}

/// A call of `decode` that asks for more leaves what was left.
proof fn lemma_left_stays(c: CodecView, buf: Seq<u8>, later: Seq<u8>, payloads: Seq<Seq<u8>>)
    requires
        payloads.len() > 0 ==> payloads[0].len() <= MAX_PACKET,
        left_of(c, buf + later, payloads),
        decode_step(c, buf).0 is Incomplete,
    ensures
        left_of(decode_step(c, buf).1, decode_step(c, buf).2 + later, payloads),
        payloads.len() == 0 ==> decode_step(c, buf) == (Decoded::Incomplete, c, buf),
{
    let all = buf + later;
    if payloads.len() == 0 {
        assert(all.len() == 0);
        assert(buf.len() == 0);
    } else if c.body is None && buf.len() > 0 && buf.len() >= header_len(buf) {
        let n = payloads[0].len();
        let tail = payloads[0] + frames(payloads.skip(1));
        assert(all =~= frame_header(n) + tail);
        lemma_header_announces(n, tail);
        lemma_header_stays(buf, later);
    }
}

/// From any point of the stream on, the payloads that are left come out.
proof fn lemma_rest_comes_out(
    c: CodecView,
    buf: Seq<u8>,
    uses: Seq<CodecUse>,
    payloads: Seq<Seq<u8>>,
)
    requires
        forall|i: int| 0 <= i < payloads.len() ==> (#[trigger] payloads[i]).len() <= MAX_PACKET,
        left_of(c, buf + arrived(uses), payloads),
        ({
            let results = decode_results(c, buf, uses);
            results.len() > 0 && results.last() is Incomplete
        }),
    ensures
        ({
            let results = decode_results(c, buf, uses);
            &&& payloads_found(results) == payloads
            &&& forall|i: int|
                0 <= i < results.len() ==> !(#[trigger] results[i] is TooLong)
        }),
        decode_end(c, buf, uses) == (fresh_codec(), Seq::<u8>::empty()),
    decreases uses.len(),
{
    let rest_uses = uses.skip(1);
    match uses[0] {
        CodecUse::Encode(_) => {
            lemma_rest_comes_out(c, buf, rest_uses, payloads);
        },
        CodecUse::Decode(more) => {
            let now = buf + more;
            let later = arrived(rest_uses);
            let (found, c2, left) = decode_step(c, now);
            let tail = decode_results(c2, left, rest_uses);
            let results = decode_results(c, buf, uses);
            assert(buf + arrived(uses) =~= now + later);
            assert(results == seq![found] + tail);
            assert(results.skip(1) =~= tail);
            let next = if found is Incomplete {
                lemma_left_stays(c, now, later, payloads);
                payloads
            } else {
                law_later_bytes_do_not_matter(c, now, later);
                if payloads.len() == 0 {
                    assert(now + later =~= Seq::empty());
                    assert(now =~= Seq::empty());
                }
                lemma_first_comes_out(c, now + later, payloads);
                payloads.skip(1)
            };
            assert(left_of(c2, left + later, next));
            if tail.len() > 0 {
                assert(results.last() == tail.last());
                lemma_rest_comes_out(c2, left, rest_uses, next);
                assert forall|i: int| 0 <= i < results.len() implies !(
                #[trigger] results[i] is TooLong) by {
                    if i > 0 {
                        assert(results[i] == tail[i - 1]);
                    }
                }
                if !(found is Incomplete) {
                    assert(seq![payloads[0]] + payloads.skip(1) =~= payloads);
                }
            } else {
                assert(results.last() == found);
                lemma_no_results(c2, left, rest_uses);
                assert(now + later =~= now);
                if payloads.len() > 0 {
                    lemma_first_comes_out(c, now, payloads);
                }
                assert(payloads =~= Seq::empty());
                assert(now =~= Seq::empty());
                assert(payloads_found(tail) =~= Seq::empty());
            }
        },
    }
}

/// Without a call of `decode` no byte arrives and nothing changes.
proof fn lemma_no_results(c: CodecView, buf: Seq<u8>, uses: Seq<CodecUse>)
    requires
        decode_results(c, buf, uses).len() == 0,
    ensures
        arrived(uses).len() == 0,
        decode_end(c, buf, uses) == (c, buf),
    decreases uses.len(),
{
    if uses.len() > 0 {
        match uses[0] {
            CodecUse::Encode(_) => {
                lemma_no_results(c, buf, uses.skip(1));
            },
            CodecUse::Decode(more) => {
                let (found, c2, rest) = decode_step(c, buf + more);
                let tail = decode_results(c2, rest, uses.skip(1));
                assert((seq![found] + tail).len() > 0);
            },
        }
    }
}

/// In raw mode bytes pass through untouched in both directions, and the mode
/// stays.
pub proof fn law_raw_passes_through(c: CodecView, bytes: Seq<u8>)
    requires
        c.raw,
    ensures
        encoded(c, bytes) == Some(bytes),
        decode_step(c, bytes).1 == c,
        decode_step(c, bytes).2.len() == 0,
        bytes.len() > 0 ==> decode_step(c, bytes).0 == Decoded::Frame(bytes),
{
}

/// What a header means, byte by byte. The two low bits of the first byte are
/// the number of bytes behind it; all its bytes together, the first one lowest,
/// are four times the payload length and those two bits. Up to 64 MiB the
/// payload follows the header; a longer one is refused, and its header stays.
pub proof fn law_header_by_its_bytes(buf: Seq<u8>)
    ensures
        ({
            let c = CodecView { raw: false, body: None };
            let (found, after, left) = decode_step(c, buf);
            if buf.len() == 0 || buf.len() < buf[0] % 4 + 1 {
                found is Incomplete && after == c && left == buf
            } else {
                let k = buf[0] as int % 4 + 1;
                let value = buf[0] + (if k > 1 {
                    256 * buf[1]
                } else {
                    0
                }) + (if k > 2 {
                    65536 * buf[2]
                } else {
                    0
                }) + (if k > 3 {
                    16777216 * buf[3]
                } else {
                    0
                });
                let n = value / 4;
                if n > 67_108_864 {
                    found is TooLong && after == c && left == buf
                } else if buf.len() < k + n {
                    found is Incomplete && after == (CodecView {
                        raw: false,
                        body: Some(n as nat),
                    }) && left == buf.skip(k)
                } else {
                    found == Decoded::Frame(buf.subrange(k, k + n)) && after == c && left
                        == buf.skip(k + n)
                }
            }
        }),
{
    if buf.len() > 0 && buf.len() >= buf[0] % 4 + 1 {
        let k = buf[0] as int % 4 + 1;
        let head = buf.take(k);
        lemma_le_value_upto_four(head);
        let n = payload_len(buf) as int;
        if buf.len() >= k + n {
            assert(buf.skip(k).take(n) =~= buf.subrange(k, k + n));
            assert(buf.skip(k).skip(n) =~= buf.skip(k + n));
        }
    }
}

/// Once a header was read, the next call waits for the payload, and hands over
/// exactly that many bytes.
pub proof fn law_payload_follows(buf: Seq<u8>, n: nat)
    ensures
        ({
            let c = CodecView { raw: false, body: Some(n) };
            let (found, after, left) = decode_step(c, buf);
            if buf.len() < n {
                found is Incomplete && after == c && left == buf
            } else {
                found == Decoded::Frame(buf.take(n as int)) && after == (CodecView {
                    raw: false,
                    body: None,
                }) && left == buf.skip(n as int)
            }
        }),
{
}

/// What an item becomes, byte by byte. Its bytes stand at the end, behind a
/// header of one byte below 64 bytes, two below 16 KiB, three below 4 MiB and
/// four from there to 64 MiB. The header's bytes, the first one lowest, are
/// four times the length and their own number less one. A longer item is
/// refused. The codec stays as it was, and in raw mode the item is the result.
pub proof fn law_frame_by_its_bytes(c: CodecView, item: Seq<u8>)
    ensures
        encode_step(c, item).0 == c,
        c.raw ==> encode_step(c, item).1 == Some(item),
        !c.raw && item.len() > 67_108_864 ==> encode_step(c, item).1 is None,
        !c.raw && item.len() <= 67_108_864 ==> {
            let n = item.len() as int;
            let k = if n < 64 {
                1int
            } else if n < 16_384 {
                2
            } else if n < 4_194_304 {
                3
            } else {
                4
            };
            &&& encode_step(c, item).1 is Some
            &&& encode_step(c, item).1->0.len() == k + n
            &&& encode_step(c, item).1->0.skip(k) == item
            &&& 4 * n + k - 1 == encode_step(c, item).1->0[0] + (if k > 1 {
                256 * encode_step(c, item).1->0[1]
            } else {
                0
            }) + (if k > 2 {
                65536 * encode_step(c, item).1->0[2]
            } else {
                0
            }) + (if k > 3 {
                16777216 * encode_step(c, item).1->0[3]
            } else {
                0
            })
        },
{
    if !c.raw && item.len() <= MAX_PACKET {
        let n = item.len();
        let k = header_size(n);
        let value = (4 * n + k - 1) as nat;
        let head = frame_header(n);
        lemma_le_bytes_len(value, k);
        reveal_with_fuel(le_capacity, 5);
        lemma_le_roundtrip(value, k);
        lemma_le_value_upto_four(head);
        assert(frame(item).skip(k as int) =~= item);
    }
}

/// What the results of `decode` stand for.
pub proof fn law_decode_results(r: Result<Option<BytesMut>, CodecError>)
    ensures
        r matches Ok(Some(b)) ==> decoded(r) == Decoded::Frame(buffered(b)),
        r matches Ok(None) ==> decoded(r) is Incomplete,
        r is Err ==> decoded(r) is TooLong,
        decoded(r) is Frame ==> r is Ok && r->Ok_0 is Some,
        decoded(r) is Incomplete ==> r is Ok && r->Ok_0 is None,
        decoded(r) is TooLong ==> r is Err,
{
}

/// What one codec encodes another one decodes: the call of `decode` on the
/// bytes that `encode` wrote hands back the item and leaves no byte.
pub proof fn law_decode_undoes_encode(
    c: &mut RustDeskCodec,
    item: Bytes,
    dst: &mut BytesMut,
    wrote: Result<(), CodecError>,
    d: &mut RustDeskCodec,
    src: &mut BytesMut,
    found: Result<Option<BytesMut>, CodecError>,
)
    requires
        !c@.raw,
        d@ == (CodecView { raw: false, body: None }),
        frozen(item).len() <= 67_108_864,
        frozen(item).len() + 4 <= growth_limit(),
        buffered(*dst).len() == 0,
        call_ensures(RustDeskCodec::encode, (c, item, dst), wrote),
        buffered(*src) == buffered(*final(dst)),
        call_ensures(RustDeskCodec::decode, (d, src), found),
    ensures
        wrote is Ok,
        found is Ok,
        found->Ok_0 is Some,
        buffered(found->Ok_0->0) == frozen(item),
        buffered(*final(src)).len() == 0,
        final(d)@ == old(d)@,
        *final(c) == *old(c),
{
    law_decode_gives_back_encoded(frozen(item), Seq::empty());
    assert(frame(frozen(item)) + Seq::empty() =~= frame(frozen(item)));
    assert(buffered(*dst) + frame(frozen(item)) =~= frame(frozen(item)));
    lemma_le_bytes_len(
        (4 * frozen(item).len() + header_size(frozen(item).len()) - 1) as nat,
        header_size(frozen(item).len()),
    );
}

/// `encode` appends: what is in the buffer stays in front. `try_encode` does
/// the same wherever the buffer may grow so far, and otherwise leaves it.
pub proof fn law_encode_appends(
    c: &mut RustDeskCodec,
    item: Bytes,
    dst: &mut BytesMut,
    r: Option<Result<(), CodecError>>,
)
    requires
        call_ensures(RustDeskCodec::try_encode, (c, item, dst), r),
    ensures
        *final(c) == *old(c),
        buffered(*old(dst)) == buffered(*final(dst)).take(buffered(*old(dst)).len() as int),
        r is Some && r->0 is Ok ==> {
            let added = buffered(*final(dst)).skip(buffered(*old(dst)).len() as int);
            &&& added.len() >= frozen(item).len()
            &&& added.skip(added.len() - frozen(item).len()) == frozen(item)
            &&& old(c)@.raw ==> added == frozen(item)
        },
        r is Some && r->0 is Err <==> !old(c)@.raw && frozen(item).len() > 67_108_864,
        !(r is Some && r->0 is Ok) ==> buffered(*final(dst)) == buffered(*old(dst)),
        r is None ==> buffered(*old(dst)).len() + frozen(item).len() + 4 > growth_limit(),
{
    law_frame_by_its_bytes(old(c)@, frozen(item));
    let before = buffered(*old(dst));
    let after = buffered(*final(dst));
    assert(after.take(before.len() as int) =~= before);
    if r is Some && r->0 is Ok {
        let bytes = encode_step(old(c)@, frozen(item)).1->0;
        assert(after.skip(before.len() as int) =~= bytes);
        if old(c)@.raw {
            assert(bytes.skip(0) =~= bytes);
        }
    }
}

/// In raw mode a call of `decode` hands over all bytes that are there, and asks
/// for more where there are none. `set_raw` is what switches to it.
pub proof fn law_raw_decode(
    c: &mut RustDeskCodec,
    then: &mut RustDeskCodec,
    src: &mut BytesMut,
    found: Result<Option<BytesMut>, CodecError>,
)
    requires
        call_ensures(RustDeskCodec::set_raw, (c,), ()),
        *then == *final(c),
        call_ensures(RustDeskCodec::decode, (then, src), found),
    ensures
        final(c)@.raw,
        final(then)@ == final(c)@,
        found is Ok,
        buffered(*final(src)).len() == 0,
        buffered(*old(src)).len() == 0 ==> found->Ok_0 is None,
        buffered(*old(src)).len() > 0 ==> found->Ok_0 is Some && buffered(found->Ok_0->0)
            == buffered(*old(src)),
{
}

/// A codec begins with a header and frames what it carries, and takes packets
/// of up to 64 MiB.
pub proof fn law_fresh_codec(d: RustDeskCodec)
    requires
        call_ensures(RustDeskCodec::default, (), d),
    ensures
        !d@.raw && d@.body is None,
        MAX_PACKET == 64 * 1024 * 1024,
{
}

} // verus!
