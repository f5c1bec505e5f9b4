//! PING frames.

use crate::error::ParseFrameError;
use crate::frame::flags::{has_flag, is_set, ACK};
use crate::frame::header::{
    frame_bytes, lemma_frame_bytes, push_header, spec_checked_header, FrameHeader, RawFrame,
};
use crate::wire::{be32, be64, bytes64, lemma_be64_of_bytes64, push_u64, read_u64};
use vstd::prelude::*;

verus! {

/// Type code of PING.
pub const PING_FRAME_TYPE: u8 = 0x6;

/// A PING frame: eight bytes that the peer sends back.
#[derive(Clone, Copy, Debug, PartialEq, Eq, Structural)]
pub struct PingFrame {
    pub flags: u8,
    pub opaque_data: u64,
}

impl PingFrame {
    /// The frame answers a PING.
    pub open spec fn spec_is_ack(self) -> bool {
        has_flag(self.flags, ACK)
    }

    /// The payload on the wire.
    pub open spec fn payload(self) -> Seq<u8> {
        bytes64(self.opaque_data as int)
    }

    /// The header on the wire.
    pub open spec fn header(self) -> FrameHeader {
        FrameHeader { length: 8, frame_type: PING_FRAME_TYPE, flags: self.flags, stream_id: 0 }
    }

    /// The frame as bytes.
    pub open spec fn wire_bytes(self) -> Seq<u8> {
        frame_bytes(self.header(), self.payload())
    }

    /// The PING frame that a header and a payload make.
    pub open spec fn spec_parse(h: FrameHeader, payload: Seq<u8>) -> Result<
        PingFrame,
        ParseFrameError,
    > {
        if payload.len() != 8 {
            Err(ParseFrameError::IncorrectPayloadLen)
        } else if h.stream_id != 0 {
            Err(ParseFrameError::StreamIdMustBeZero)
        } else {
            Ok(PingFrame { flags: h.flags, opaque_data: be64(payload, 0) as u64 })
        }
    }

    /// The PING frame that the bytes of a whole frame spell.
    pub open spec fn spec_from_raw(s: Seq<u8>) -> Result<PingFrame, ParseFrameError> {
        match spec_checked_header(s) {
            Err(e) => Err(e),
            Ok(h) => if h.frame_type != PING_FRAME_TYPE {
                Err(ParseFrameError::UnexpectedFrameType)
            } else {
                PingFrame::spec_parse(h, s.skip(9))
            },
        }
    }

    /// A PING frame is read back from its bytes.
    pub proof fn lemma_roundtrip(self)
        ensures
            PingFrame::spec_from_raw(self.wire_bytes()) == Ok::<PingFrame, ParseFrameError>(self),
    {
        lemma_be64_of_bytes64(self.opaque_data as int);
        lemma_frame_bytes(self.header(), self.payload());
    }

    /// A PING that asks for an answer.
    pub fn new(opaque_data: u64) -> (f: PingFrame)
        ensures
            f == (PingFrame { flags: 0, opaque_data }),
            !f.spec_is_ack(),
    {
        assert(0u8 & 1u8 == 0) by (bit_vector);
        PingFrame { flags: 0, opaque_data }
    }

    /// The answer to a PING that carried `opaque_data`.
    pub fn new_ack(opaque_data: u64) -> (f: PingFrame)
        ensures
            f == (PingFrame { flags: ACK, opaque_data }),
            f.spec_is_ack(),
    {
        assert(1u8 & 1u8 != 0) by (bit_vector);
        PingFrame { flags: ACK, opaque_data }
    }

    /// Tells whether the frame answers a PING.
    pub fn is_ack(&self) -> (r: bool)
        ensures
            r == self.spec_is_ack(),
    {
        is_set(self.flags, ACK)
    }

    /// Decodes a PING frame.
    pub fn from_raw(raw: &RawFrame) -> (r: Result<PingFrame, ParseFrameError>)
        ensures
            r == PingFrame::spec_from_raw(raw@),
    {
        let h = match raw.checked_header() {
            Ok(h) => h,
            Err(e) => {
                return Err(e);
            },
        };
        if h.frame_type != PING_FRAME_TYPE {
            return Err(ParseFrameError::UnexpectedFrameType);
        }
        let s = raw.as_slice();
        if s.len() != 17 {
            return Err(ParseFrameError::IncorrectPayloadLen);
        }
        if h.stream_id != 0 {
            return Err(ParseFrameError::StreamIdMustBeZero);
        }
        let data: u64 = read_u64(s, 9);
        assert(be32(raw@.skip(9), 0) == be32(raw@, 9));
        assert(be32(raw@.skip(9), 4) == be32(raw@, 13));
        Ok(PingFrame { flags: h.flags, opaque_data: data })
    }

    /// Encodes the frame.
    pub fn serialize_into_vec(&self) -> (out: Vec<u8>)
        ensures
            out@ == self.wire_bytes(),
    {
        let h = FrameHeader {
            length: 8,
            frame_type: PING_FRAME_TYPE,
            flags: self.flags,
            stream_id: 0,
        };
        let mut out: Vec<u8> = Vec::new();
        push_header(&mut out, &h);
        push_u64(&mut out, self.opaque_data);
        assert(out@ =~= self.wire_bytes());
        out
    }
}

} // verus!
