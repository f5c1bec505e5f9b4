//! The nine-byte frame header and the undecoded frame.

use crate::buf::bytes_as_slice;
use crate::buf::bytes_from_vec;
use crate::buf::bytes_view;
use crate::error::ParseFrameError;
use crate::wire::{byte_of, be24, be32, bytes24, bytes32, lemma_be24_of_bytes24, lemma_be32_of_bytes32, push_u24, push_u32, read_u24, read_u32};
use bytes::Bytes;
use vstd::prelude::*;

verus! {

/// Length of a frame header in bytes.
pub const FRAME_HEADER_LEN: usize = 9;

/// The largest payload length that a header can state, 2^24 - 1.
pub const MAX_PAYLOAD_LEN: u32 = 0xff_ffff;

/// The largest stream identifier, 2^31 - 1.
pub const MAX_STREAM_ID: u32 = 0x7fff_ffff;

/// A stream identifier. Zero names the connection itself.
pub type StreamId = u32;

/// What a frame header holds.
#[derive(Clone, Copy, Debug, PartialEq, Eq, Structural)]
pub struct FrameHeader {
    /// Length of the payload, 24 bits.
    pub length: u32,
    /// Type of the frame.
    pub frame_type: u8,
    /// Flags, whose meaning depends on the type.
    pub flags: u8,
    /// Stream identifier, 31 bits.
    pub stream_id: StreamId,
}

impl FrameHeader {
    /// The fields fit the widths that the wire gives them.
    pub open spec fn wf(self) -> bool {
        self.length <= MAX_PAYLOAD_LEN && self.stream_id <= MAX_STREAM_ID
    }
}

/// The header that the first nine bytes of `s` spell. The reserved bit in
/// front of the stream identifier is dropped.
pub open spec fn spec_unpack_header(s: Seq<u8>) -> FrameHeader {
    FrameHeader {
        length: be24(s, 0) as u32,
        frame_type: s[3],
        flags: s[4],
        stream_id: (be32(s, 5) % 0x8000_0000) as u32,
    }
}

/// The nine bytes of a header. A length is cut to 24 bits, a stream
/// identifier to 31; the reserved bit is written as zero.
pub open spec fn spec_pack_header(h: FrameHeader) -> Seq<u8> {
    bytes24(h.length as int % 0x100_0000) + seq![h.frame_type, h.flags] + bytes32(
        h.stream_id as int % 0x8000_0000,
    )
}

/// Packing a header and unpacking it again gives the header back.
pub proof fn lemma_unpack_pack(h: FrameHeader)
    requires
        h.wf(),
    ensures
        spec_pack_header(h).len() == 9,
        spec_unpack_header(spec_pack_header(h)) == h,
{
    let s = spec_pack_header(h);
    lemma_be24_of_bytes24(h.length as int);
    lemma_be32_of_bytes32(h.stream_id as int);
    assert(be24(s, 0) == be24(bytes24(h.length as int), 0));
    assert(be32(s, 5) == be32(bytes32(h.stream_id as int), 0));
}

/// Unpacking looks at the first nine bytes only.
pub proof fn lemma_unpack_prefix(s: Seq<u8>, t: Seq<u8>)
    requires
        s.len() >= 9,
        t.len() >= 9,
        s.subrange(0, 9) == t.subrange(0, 9),
    ensures
        spec_unpack_header(s) == spec_unpack_header(t),
{
    let p = s.subrange(0, 9);
    let q = t.subrange(0, 9);
    assert forall|i: int| 0 <= i < 9 implies s[i] == t[i] by {
        assert(s[i] == p[i]);
        assert(t[i] == q[i]);
    }
}

/// Decodes a frame header.
pub fn unpack_header(header: &[u8; 9]) -> (h: FrameHeader)
    ensures
        h == spec_unpack_header(header@),
        h.wf(),
{
    let length: u32 = read_u24(header.as_slice(), 0);
    let raw_id: u32 = read_u32(header.as_slice(), 5);
    FrameHeader {
        length,
        frame_type: header[3],
        flags: header[4],
        stream_id: raw_id % 0x8000_0000,
    }
}

/// Decodes the frame header that stands at the start of a slice.
pub fn unpack_header_from_slice(s: &[u8]) -> (h: FrameHeader)
    requires
        s@.len() >= 9,
    ensures
        h == spec_unpack_header(s@),
        h.wf(),
{
    let length: u32 = read_u24(s, 0);
    let raw_id: u32 = read_u32(s, 5);
    FrameHeader { length, frame_type: s[3], flags: s[4], stream_id: raw_id % 0x8000_0000 }
}

/// Encodes a frame header.
pub fn pack_header(h: &FrameHeader) -> (r: [u8; 9])
    ensures
        r@ == spec_pack_header(*h),
{
    let len: u32 = h.length % 0x100_0000;
    let id: u32 = h.stream_id % 0x8000_0000;
    let r: [u8; 9] = [
        (len / 0x1_0000) as u8,
        ((len / 0x100) % 0x100) as u8,
        (len % 0x100) as u8,
        h.frame_type,
        h.flags,
        (id / 0x100_0000) as u8,
        ((id / 0x1_0000) % 0x100) as u8,
        ((id / 0x100) % 0x100) as u8,
        (id % 0x100) as u8,
    ];
    assert(r@ =~= spec_pack_header(*h)) by {
        reveal(byte_of);
    }
    r
}

/// Appends the nine bytes of a header.
pub fn push_header(out: &mut Vec<u8>, h: &FrameHeader)
    ensures
        final(out)@ == old(out)@ + spec_pack_header(*h),
{
    push_u24(out, h.length % 0x100_0000);
    out.push(h.frame_type);
    out.push(h.flags);
    push_u32(out, h.stream_id % 0x8000_0000);
    assert(out@ =~= old(out)@ + spec_pack_header(*h));
}

/// A frame as it stands on the wire: header and payload, not decoded.
#[derive(Clone, Debug, PartialEq, Eq)]
pub struct RawFrame {
    pub raw_content: Bytes,
}

impl View for RawFrame {
    type V = Seq<u8>;

    /// The bytes of the frame.
    open spec fn view(&self) -> Seq<u8> {
        bytes_view(self.raw_content)
    }
}

/// The header of a whole frame, or why the bytes are none.
pub open spec fn spec_checked_header(s: Seq<u8>) -> Result<FrameHeader, ParseFrameError> {
    if s.len() < 9 {
        Err(ParseFrameError::BufMustBeAtLeast9Bytes)
    } else if s.len() - 9 != spec_unpack_header(s).length {
        Err(ParseFrameError::IncorrectPayloadLen)
    } else {
        Ok(spec_unpack_header(s))
    }
}

/// A result with the view of what it holds on success.
pub open spec fn result_view<T: View, E>(r: Result<T, E>) -> Result<T::V, E> {
    match r {
        Ok(t) => Ok(t@),
        Err(e) => Err(e),
    }
}

/// The bytes of a frame with the given header and payload.
pub open spec fn frame_bytes(h: FrameHeader, payload: Seq<u8>) -> Seq<u8> {
    spec_pack_header(h) + payload
}

/// The bytes of a frame spell its header and hold its payload behind it.
pub proof fn lemma_frame_bytes(h: FrameHeader, payload: Seq<u8>)
    requires
        h.wf(),
        h.length == payload.len(),
    ensures
        spec_checked_header(frame_bytes(h, payload)) == Ok::<FrameHeader, ParseFrameError>(h),
        frame_bytes(h, payload).skip(9) == payload,
        frame_bytes(h, payload).len() == 9 + payload.len(),
{
    lemma_unpack_pack(h);
    let s = frame_bytes(h, payload);
    assert(s.subrange(0, 9) =~= spec_pack_header(h).subrange(0, 9));
    lemma_unpack_prefix(s, spec_pack_header(h));
    assert(s.skip(9) =~= payload);
}

impl RawFrame {
    /// Takes bytes, whatever they hold, for a frame.
    pub fn from_vec(v: Vec<u8>) -> (r: RawFrame)
        ensures
            r@ == v@,
    {
        RawFrame { raw_content: bytes_from_vec(v) }
    }

    /// The bytes of the frame.
    pub fn as_slice(&self) -> (s: &[u8])
        ensures
            s@ == self@,
    {
        bytes_as_slice(&self.raw_content)
    }

    /// The bytes of the frame, as they are written to the peer.
    pub fn serialize(&self) -> (b: Bytes)
        ensures
            bytes_view(b) == self@,
    {
        self.raw_content.clone()
    }

    /// The header of a whole frame, or why the bytes are none.
    pub fn checked_header(&self) -> (r: Result<FrameHeader, ParseFrameError>)
        ensures
            r == spec_checked_header(self@),
            r is Ok ==> self@.len() <= 9 + MAX_PAYLOAD_LEN,
    {
        let s = self.as_slice();
        if s.len() < 9 {
            return Err(ParseFrameError::BufMustBeAtLeast9Bytes);
        }
        let h = unpack_header_from_slice(s);
        if s.len() - 9 != h.length as usize {
            return Err(ParseFrameError::IncorrectPayloadLen);
        }
        Ok(h)
    }

    /// The header of the frame, where the frame has one.
    pub fn header(&self) -> (h: Option<FrameHeader>)
        ensures
            h == (if self@.len() >= 9 {
                Some(spec_unpack_header(self@))
            } else {
                None
            }),
    {
        let s = self.as_slice();
        if s.len() >= 9 {
            Some(unpack_header_from_slice(s))
        } else {
            None
        }
    }
}

} // verus!
