//! PUSH_PROMISE frames.

use crate::buf::bytes_as_slice;
use crate::buf::bytes_view;
use crate::error::ParseFrameError;
use crate::frame::flags::{
    has_flag, is_set, lemma_unpad_padded, padded_payload, push_zeros, unpad, END_HEADERS, PADDED,
};
use crate::frame::header::{
    frame_bytes, lemma_frame_bytes, push_header, result_view, spec_checked_header, FrameHeader,
    RawFrame, StreamId, MAX_PAYLOAD_LEN, MAX_STREAM_ID,
};
use crate::wire::{be32, bytes32, lemma_be32_of_bytes32, push_u32, read_u32};
use bytes::Bytes;
use vstd::prelude::*;

verus! {

/// Type code of PUSH_PROMISE.
pub const PUSH_PROMISE_FRAME_TYPE: u8 = 0x5;

/// A PUSH_PROMISE frame: the first piece of the header block of a request
/// that the server means to answer unasked, on a stream that it reserves.
#[derive(Clone, Debug, PartialEq, Eq)]
pub struct PushPromiseFrame {
    pub stream_id: StreamId,
    pub flags: u8,
    /// The stream that the frame reserves.
    pub promised_stream_id: StreamId,
    /// The piece of the compressed header block.
    pub header_fragment: Bytes,
    /// Number of padding bytes; read only where PADDED is set.
    pub padding_len: u8,
}

/// What a PUSH_PROMISE frame holds.
pub struct PushPromiseFrameView {
    pub stream_id: StreamId,
    pub flags: u8,
    pub promised_stream_id: StreamId,
    pub header_fragment: Seq<u8>,
    pub padding_len: u8,
}

impl View for PushPromiseFrame {
    type V = PushPromiseFrameView;

    open spec fn view(&self) -> PushPromiseFrameView {
        PushPromiseFrameView {
            stream_id: self.stream_id,
            flags: self.flags,
            promised_stream_id: self.promised_stream_id,
            header_fragment: bytes_view(self.header_fragment),
            padding_len: self.padding_len,
        }
    }
}

impl PushPromiseFrameView {
    /// The frame ends its header block.
    pub open spec fn is_headers_end(self) -> bool {
        has_flag(self.flags, END_HEADERS)
    }

    /// The payload without its padding: the promised stream, then the
    /// fragment.
    pub open spec fn body(self) -> Seq<u8> {
        bytes32(self.promised_stream_id as int % 0x8000_0000) + self.header_fragment
    }

    /// The payload on the wire.
    pub open spec fn payload(self) -> Seq<u8> {
        padded_payload(has_flag(self.flags, PADDED), self.padding_len, self.body())
    }

    /// The header on the wire.
    pub open spec fn header(self) -> FrameHeader {
        FrameHeader {
            length: self.payload().len() as u32,
            frame_type: PUSH_PROMISE_FRAME_TYPE,
            flags: self.flags,
            stream_id: self.stream_id,
        }
    }

    /// The frame as bytes.
    pub open spec fn wire_bytes(self) -> Seq<u8> {
        frame_bytes(self.header(), self.payload())
    }

    /// The frame can stand on the wire and be read back as it is.
    pub open spec fn wf(self) -> bool {
        &&& 0 < self.stream_id <= MAX_STREAM_ID
        &&& self.promised_stream_id <= MAX_STREAM_ID
        &&& self.payload().len() <= MAX_PAYLOAD_LEN
        &&& !has_flag(self.flags, PADDED) ==> self.padding_len == 0
    }
}

/// The PUSH_PROMISE frame that a header and a payload make.
pub open spec fn spec_parse_push_promise(h: FrameHeader, payload: Seq<u8>) -> Result<
    PushPromiseFrameView,
    ParseFrameError,
> {
    if h.stream_id == 0 {
        Err(ParseFrameError::StreamIdMustBeNonZero)
    } else {
        match unpad(has_flag(h.flags, PADDED), payload) {
            None => Err(ParseFrameError::PaddingTooLong),
            Some((pad, body)) => if body.len() < 4 {
                Err(ParseFrameError::IncorrectPayloadLen)
            } else {
                Ok(
                    PushPromiseFrameView {
                        stream_id: h.stream_id,
                        flags: h.flags,
                        promised_stream_id: (be32(body, 0) % 0x8000_0000) as u32,
                        header_fragment: body.skip(4),
                        padding_len: pad,
                    },
                )
            },
        }
    }
}

/// The PUSH_PROMISE frame that the bytes of a whole frame spell.
pub open spec fn spec_push_promise_from_raw(s: Seq<u8>) -> Result<
    PushPromiseFrameView,
    ParseFrameError,
> {
    match spec_checked_header(s) {
        Err(e) => Err(e),
        Ok(h) => if h.frame_type != PUSH_PROMISE_FRAME_TYPE {
            Err(ParseFrameError::UnexpectedFrameType)
        } else {
            spec_parse_push_promise(h, s.skip(9))
        },
    }
}

/// A PUSH_PROMISE frame is read back from its bytes.
pub proof fn lemma_push_promise_roundtrip(f: PushPromiseFrameView)
    requires
        f.wf(),
    ensures
        spec_push_promise_from_raw(f.wire_bytes()) == Ok::<PushPromiseFrameView, ParseFrameError>(
            f,
        ),
{
    lemma_frame_bytes(f.header(), f.payload());
    lemma_unpad_padded(has_flag(f.flags, PADDED), f.padding_len, f.body());
    lemma_be32_of_bytes32(f.promised_stream_id as int);
    assert(be32(f.body(), 0) == be32(bytes32(f.promised_stream_id as int), 0));
    assert(f.body().skip(4) =~= f.header_fragment);
}

impl PushPromiseFrame {
    /// A frame that promises `promised_stream_id` on `stream_id`, with no
    /// flag and no padding.
    pub fn new(stream_id: StreamId, promised_stream_id: StreamId, header_fragment: Bytes) -> (f:
        PushPromiseFrame)
        ensures
            f@ == (PushPromiseFrameView {
                stream_id,
                flags: 0,
                promised_stream_id,
                header_fragment: bytes_view(header_fragment),
                padding_len: 0,
            }),
    {
        PushPromiseFrame { stream_id, flags: 0, promised_stream_id, header_fragment, padding_len: 0 }
    }

    /// Tells whether the frame ends its header block.
    pub fn is_headers_end(&self) -> (r: bool)
        ensures
            r == self@.is_headers_end(),
    {
        is_set(self.flags, END_HEADERS)
    }

    /// Length of the payload on the wire.
    pub fn payload_len(&self) -> (n: usize)
        requires
            self@.payload().len() <= usize::MAX,
        ensures
            n == self@.payload().len(),
    {
        proof {
            lemma_unpad_padded(true, self.padding_len, self@.body());
        }
        if is_set(self.flags, PADDED) {
            self.header_fragment.len() + 4 + 1 + self.padding_len as usize
        } else {
            self.header_fragment.len() + 4
        }
    }

    /// Decodes a PUSH_PROMISE frame.
    pub fn from_raw(raw: &RawFrame) -> (r: Result<PushPromiseFrame, ParseFrameError>)
        ensures
            result_view(r) == spec_push_promise_from_raw(raw@),
    {
        let h = match raw.checked_header() {
            Ok(h) => h,
            Err(e) => {
                return Err(e);
            },
        };
        if h.frame_type != PUSH_PROMISE_FRAME_TYPE {
            return Err(ParseFrameError::UnexpectedFrameType);
        }
        if h.stream_id == 0 {
            return Err(ParseFrameError::StreamIdMustBeNonZero);
        }
        let s = raw.as_slice();
        let len: usize = s.len();
        let ghost payload = raw@.skip(9);
        let mut start: usize = 9;
        let mut end: usize = len;
        let mut pad: u8 = 0;
        if is_set(h.flags, PADDED) {
            if len == 9 {
                return Err(ParseFrameError::PaddingTooLong);
            }
            pad = s[9];
            assert(pad == payload[0]);
            if pad as usize >= len - 9 {
                return Err(ParseFrameError::PaddingTooLong);
            }
            start = 10;
            end = len - pad as usize;
        }
        let ghost body = raw@.subrange(start as int, end as int);
        assert(unpad(has_flag(h.flags, PADDED), payload) == Some((pad, body))) by {
            if has_flag(h.flags, PADDED) {
                assert(payload.subrange(1, payload.len() - pad) =~= body);
            } else {
                assert(payload =~= body);
            }
        }
        if end - start < 4 {
            return Err(ParseFrameError::IncorrectPayloadLen);
        }
        let word: u32 = read_u32(s, start);
        assert(be32(body, 0) == be32(raw@, start as int));
        let header_fragment = raw.raw_content.slice(start + 4, end);
        assert(bytes_view(header_fragment) =~= body.skip(4));
        Ok(
            PushPromiseFrame {
                stream_id: h.stream_id,
                flags: h.flags,
                promised_stream_id: word % 0x8000_0000,
                header_fragment,
                padding_len: pad,
            },
        )
    }

    /// Encodes the frame.
    pub fn serialize_into_vec(&self) -> (out: Vec<u8>)
        requires
            self@.payload().len() <= MAX_PAYLOAD_LEN,
        ensures
            out@ == self@.wire_bytes(),
    {
        let len: usize = self.payload_len();
        let h = FrameHeader {
            length: len as u32,
            frame_type: PUSH_PROMISE_FRAME_TYPE,
            flags: self.flags,
            stream_id: self.stream_id,
        };
        let mut out: Vec<u8> = Vec::new();
        push_header(&mut out, &h);
        let padded: bool = is_set(self.flags, PADDED);
        if padded {
            out.push(self.padding_len);
        }
        push_u32(&mut out, self.promised_stream_id % 0x8000_0000);
        out.extend_from_slice(bytes_as_slice(&self.header_fragment));
        if padded {
            push_zeros(&mut out, self.padding_len);
        }
        assert(out@ =~= self@.wire_bytes());
        out
    }
}

} // verus!
