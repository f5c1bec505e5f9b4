//! RST_STREAM frames.

use crate::error::ErrorCode;
use crate::error::ParseFrameError;
use crate::frame::header::{
    frame_bytes, lemma_frame_bytes, push_header, spec_checked_header, FrameHeader, RawFrame,
    StreamId, MAX_STREAM_ID,
};
use crate::wire::{be32, bytes32, lemma_be32_of_bytes32, push_u32, read_u32};
use vstd::prelude::*;

verus! {

/// Type code of RST_STREAM.
pub const RST_STREAM_FRAME_TYPE: u8 = 0x3;

/// A RST_STREAM frame: one stream is ended at once, for the reason given.
#[derive(Clone, Copy, Debug, PartialEq, Eq, Structural)]
pub struct RstStreamFrame {
    pub stream_id: StreamId,
    pub flags: u8,
    /// The error code as the wire has it.
    pub raw_error_code: u32,
}

impl RstStreamFrame {
    /// The reason given; a number that no code has reads as
    /// `InternalError`.
    pub open spec fn spec_error_code(self) -> ErrorCode {
        ErrorCode::of_wire(self.raw_error_code)
    }

    /// The payload on the wire.
    pub open spec fn payload(self) -> Seq<u8> {
        bytes32(self.raw_error_code as int)
    }

    /// The header on the wire.
    pub open spec fn header(self) -> FrameHeader {
        FrameHeader {
            length: 4,
            frame_type: RST_STREAM_FRAME_TYPE,
            flags: self.flags,
            stream_id: self.stream_id,
        }
    }

    /// The frame as bytes.
    pub open spec fn wire_bytes(self) -> Seq<u8> {
        frame_bytes(self.header(), self.payload())
    }

    /// The frame can stand on the wire and be read back as it is.
    pub open spec fn wf(self) -> bool {
        0 < self.stream_id <= MAX_STREAM_ID
    }

    /// The RST_STREAM frame that a header and a payload make.
    pub open spec fn spec_parse(h: FrameHeader, payload: Seq<u8>) -> Result<
        RstStreamFrame,
        ParseFrameError,
    > {
        if payload.len() != 4 {
            Err(ParseFrameError::IncorrectPayloadLen)
        } else if h.stream_id == 0 {
            Err(ParseFrameError::StreamIdMustBeNonZero)
        } else {
            Ok(
                RstStreamFrame {
                    stream_id: h.stream_id,
                    flags: h.flags,
                    raw_error_code: be32(payload, 0) as u32,
                },
            )
        }
    }

    /// The RST_STREAM frame that the bytes of a whole frame spell.
    pub open spec fn spec_from_raw(s: Seq<u8>) -> Result<RstStreamFrame, ParseFrameError> {
        match spec_checked_header(s) {
            Err(e) => Err(e),
            Ok(h) => if h.frame_type != RST_STREAM_FRAME_TYPE {
                Err(ParseFrameError::UnexpectedFrameType)
            } else {
                RstStreamFrame::spec_parse(h, s.skip(9))
            },
        }
    }

    /// A RST_STREAM frame is read back from its bytes.
    pub proof fn lemma_roundtrip(self)
        requires
            self.wf(),
        ensures
            RstStreamFrame::spec_from_raw(self.wire_bytes()) == Ok::<
                RstStreamFrame,
                ParseFrameError,
            >(self),
    {
        lemma_be32_of_bytes32(self.raw_error_code as int);
        lemma_frame_bytes(self.header(), self.payload());
    }

    /// A frame that ends `stream_id` for the reason `code`.
    pub fn new(stream_id: StreamId, code: ErrorCode) -> (f: RstStreamFrame)
        ensures
            f == (RstStreamFrame { stream_id, flags: 0, raw_error_code: code.wire() }),
            f.spec_error_code() == code,
    {
        proof {
            ErrorCode::lemma_of_wire_wire(code);
        }
        RstStreamFrame { stream_id, flags: 0, raw_error_code: code.to_u32() }
    }

    /// The reason given.
    pub fn error_code(&self) -> (c: ErrorCode)
        ensures
            c == self.spec_error_code(),
    {
        ErrorCode::from_u32(self.raw_error_code)
    }

    /// Decodes a RST_STREAM frame.
    pub fn from_raw(raw: &RawFrame) -> (r: Result<RstStreamFrame, ParseFrameError>)
        ensures
            r == RstStreamFrame::spec_from_raw(raw@),
    {
        let h = match raw.checked_header() {
            Ok(h) => h,
            Err(e) => {
                return Err(e);
            },
        };
        if h.frame_type != RST_STREAM_FRAME_TYPE {
            return Err(ParseFrameError::UnexpectedFrameType);
        }
        let s = raw.as_slice();
        if s.len() != 13 {
            return Err(ParseFrameError::IncorrectPayloadLen);
        }
        if h.stream_id == 0 {
            return Err(ParseFrameError::StreamIdMustBeNonZero);
        }
        let code: u32 = read_u32(s, 9);
        assert(be32(raw@.skip(9), 0) == be32(raw@, 9));
        Ok(RstStreamFrame { stream_id: h.stream_id, flags: h.flags, raw_error_code: code })
    }

    /// Encodes the frame.
    pub fn serialize_into_vec(&self) -> (out: Vec<u8>)
        ensures
            out@ == self.wire_bytes(),
    {
        let h = FrameHeader {
            length: 4,
            frame_type: RST_STREAM_FRAME_TYPE,
            flags: self.flags,
            stream_id: self.stream_id,
        };
        let mut out: Vec<u8> = Vec::new();
        push_header(&mut out, &h);
        push_u32(&mut out, self.raw_error_code);
        assert(out@ =~= self.wire_bytes());
        out
    }
}

} // verus!
