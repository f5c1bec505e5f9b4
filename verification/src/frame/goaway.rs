//! GOAWAY frames.

use crate::buf::bytes_as_slice;
use crate::buf::bytes_view;
use crate::error::ErrorCode;
use crate::error::ParseFrameError;
use crate::frame::header::{
    frame_bytes, lemma_frame_bytes, push_header, result_view, spec_checked_header, FrameHeader,
    RawFrame, StreamId, MAX_PAYLOAD_LEN, MAX_STREAM_ID,
};
use crate::wire::{be32, bytes32, lemma_be32_in, push_u32, read_u32};
use bytes::Bytes;
use vstd::prelude::*;

verus! {

/// Type code of GOAWAY.
pub const GOAWAY_FRAME_TYPE: u8 = 0x7;

/// A GOAWAY frame: the sender accepts no new streams, and says which was
/// the last stream of the peer that it has taken up.
#[derive(Clone, Debug, PartialEq, Eq)]
pub struct GoawayFrame {
    pub flags: u8,
    pub last_stream_id: StreamId,
    /// The error code as the wire has it.
    pub raw_error_code: u32,
    /// Free text for diagnosis.
    pub debug_data: Bytes,
}

/// What a GOAWAY frame holds.
pub struct GoawayFrameView {
    pub flags: u8,
    pub last_stream_id: StreamId,
    pub raw_error_code: u32,
    pub debug_data: Seq<u8>,
}

impl View for GoawayFrame {
    type V = GoawayFrameView;

    open spec fn view(&self) -> GoawayFrameView {
        GoawayFrameView {
            flags: self.flags,
            last_stream_id: self.last_stream_id,
            raw_error_code: self.raw_error_code,
            debug_data: bytes_view(self.debug_data),
        }
    }
}

impl GoawayFrameView {
    /// The reason given; a number that no code has reads as
    /// `InternalError`.
    pub open spec fn error_code(self) -> ErrorCode {
        ErrorCode::of_wire(self.raw_error_code)
    }

    /// The payload on the wire.
    pub open spec fn payload(self) -> Seq<u8> {
        bytes32(self.last_stream_id as int % 0x8000_0000) + bytes32(self.raw_error_code as int)
            + self.debug_data
    }

    /// The header on the wire.
    pub open spec fn header(self) -> FrameHeader {
        FrameHeader {
            length: self.payload().len() as u32,
            frame_type: GOAWAY_FRAME_TYPE,
            flags: self.flags,
            stream_id: 0,
        }
    }

    /// The frame as bytes.
    pub open spec fn wire_bytes(self) -> Seq<u8> {
        frame_bytes(self.header(), self.payload())
    }

    /// The frame can stand on the wire and be read back as it is.
    pub open spec fn wf(self) -> bool {
        self.last_stream_id <= MAX_STREAM_ID && self.payload().len() <= MAX_PAYLOAD_LEN
    }
}

/// The GOAWAY frame that a header and a payload make.
pub open spec fn spec_parse_goaway(h: FrameHeader, payload: Seq<u8>) -> Result<
    GoawayFrameView,
    ParseFrameError,
> {
    if payload.len() < 8 {
        Err(ParseFrameError::IncorrectPayloadLen)
    } else if h.stream_id != 0 {
        Err(ParseFrameError::StreamIdMustBeZero)
    } else {
        Ok(
            GoawayFrameView {
                flags: h.flags,
                last_stream_id: (be32(payload, 0) % 0x8000_0000) as u32,
                raw_error_code: be32(payload, 4) as u32,
                debug_data: payload.skip(8),
            },
        )
    }
}

/// The GOAWAY frame that the bytes of a whole frame spell.
pub open spec fn spec_goaway_from_raw(s: Seq<u8>) -> Result<GoawayFrameView, ParseFrameError> {
    match spec_checked_header(s) {
        Err(e) => Err(e),
        Ok(h) => if h.frame_type != GOAWAY_FRAME_TYPE {
            Err(ParseFrameError::UnexpectedFrameType)
        } else {
            spec_parse_goaway(h, s.skip(9))
        },
    }
}

/// A GOAWAY frame is read back from its bytes.
pub proof fn lemma_goaway_roundtrip(f: GoawayFrameView)
    requires
        f.wf(),
    ensures
        spec_goaway_from_raw(f.wire_bytes()) == Ok::<GoawayFrameView, ParseFrameError>(f),
{
    lemma_frame_bytes(f.header(), f.payload());
    let id = bytes32(f.last_stream_id as int);
    let code = bytes32(f.raw_error_code as int);
    let p = f.payload();
    lemma_be32_in(Seq::empty(), f.last_stream_id as int, code + f.debug_data);
    assert(p =~= Seq::<u8>::empty() + id + (code + f.debug_data));
    lemma_be32_in(id, f.raw_error_code as int, f.debug_data);
    assert(p.skip(8) =~= f.debug_data);
}

impl GoawayFrame {
    /// A frame that names `last_stream_id` and gives the reason `code`.
    pub fn new(last_stream_id: StreamId, code: ErrorCode) -> (f: GoawayFrame)
        ensures
            f@ == (GoawayFrameView {
                flags: 0,
                last_stream_id,
                raw_error_code: code.wire(),
                debug_data: Seq::empty(),
            }),
            f@.error_code() == code,
    {
        proof {
            ErrorCode::lemma_of_wire_wire(code);
        }
        GoawayFrame {
            flags: 0,
            last_stream_id,
            raw_error_code: code.to_u32(),
            debug_data: Bytes::new(),
        }
    }

    /// The reason given.
    pub fn error_code(&self) -> (c: ErrorCode)
        ensures
            c == self@.error_code(),
    {
        ErrorCode::from_u32(self.raw_error_code)
    }

    /// Decodes a GOAWAY frame.
    pub fn from_raw(raw: &RawFrame) -> (r: Result<GoawayFrame, ParseFrameError>)
        ensures
            result_view(r) == spec_goaway_from_raw(raw@),
    {
        let h = match raw.checked_header() {
            Ok(h) => h,
            Err(e) => {
                return Err(e);
            },
        };
        if h.frame_type != GOAWAY_FRAME_TYPE {
            return Err(ParseFrameError::UnexpectedFrameType);
        }
        let s = raw.as_slice();
        let len: usize = s.len();
        if len < 17 {
            return Err(ParseFrameError::IncorrectPayloadLen);
        }
        if h.stream_id != 0 {
            return Err(ParseFrameError::StreamIdMustBeZero);
        }
        let last: u32 = read_u32(s, 9);
        let code: u32 = read_u32(s, 13);
        let ghost payload = raw@.skip(9);
        assert(be32(payload, 0) == be32(raw@, 9));
        assert(be32(payload, 4) == be32(raw@, 13));
        let debug_data = raw.raw_content.slice(17, len);
        assert(bytes_view(debug_data) =~= payload.skip(8));
        Ok(
            GoawayFrame {
                flags: h.flags,
                last_stream_id: last % 0x8000_0000,
                raw_error_code: code,
                debug_data,
            },
        )
    }

    /// Encodes the frame.
    pub fn serialize_into_vec(&self) -> (out: Vec<u8>)
        requires
            self@.payload().len() <= MAX_PAYLOAD_LEN,
        ensures
            out@ == self@.wire_bytes(),
    {
        let h = FrameHeader {
            length: (self.debug_data.len() + 8) as u32,
            frame_type: GOAWAY_FRAME_TYPE,
            flags: self.flags,
            stream_id: 0,
        };
        let mut out: Vec<u8> = Vec::new();
        push_header(&mut out, &h);
        push_u32(&mut out, self.last_stream_id % 0x8000_0000);
        push_u32(&mut out, self.raw_error_code);
        out.extend_from_slice(bytes_as_slice(&self.debug_data));
        assert(out@ =~= self@.wire_bytes());
        out
    }
}

} // verus!
