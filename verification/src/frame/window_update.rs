//! WINDOW_UPDATE frames.

use crate::error::ParseFrameError;
use crate::frame::header::{
    frame_bytes, lemma_frame_bytes, push_header, spec_checked_header, FrameHeader, RawFrame,
    StreamId, MAX_STREAM_ID,
};
use crate::wire::{be32, bytes32, lemma_be32_of_bytes32, push_u32, read_u32};
use vstd::prelude::*;

verus! {

/// Type code of WINDOW_UPDATE.
pub const WINDOW_UPDATE_FRAME_TYPE: u8 = 0x8;

/// A WINDOW_UPDATE frame: the peer may send that many bytes more, on one
/// stream or, where the stream is zero, on the connection.
#[derive(Clone, Copy, Debug, PartialEq, Eq, Structural)]
pub struct WindowUpdateFrame {
    pub stream_id: StreamId,
    pub flags: u8,
    /// The number of bytes added to the window, 31 bits.
    pub increment: u32,
}

impl WindowUpdateFrame {
    /// The payload on the wire.
    pub open spec fn payload(self) -> Seq<u8> {
        bytes32(self.increment as int % 0x8000_0000)
    }

    /// The header on the wire.
    pub open spec fn header(self) -> FrameHeader {
        FrameHeader {
            length: 4,
            frame_type: WINDOW_UPDATE_FRAME_TYPE,
            flags: self.flags,
            stream_id: self.stream_id,
        }
    }

    /// The frame as bytes.
    pub open spec fn wire_bytes(self) -> Seq<u8> {
        frame_bytes(self.header(), self.payload())
    }

    /// The frame can stand on the wire and be read back as it is.
    pub open spec fn wf(self) -> bool {
        self.stream_id <= MAX_STREAM_ID && self.increment <= 0x7fff_ffff
    }

    /// The WINDOW_UPDATE frame that a header and a payload make. The
    /// reserved bit in front of the increment is dropped.
    pub open spec fn spec_parse(h: FrameHeader, payload: Seq<u8>) -> Result<
        WindowUpdateFrame,
        ParseFrameError,
    > {
        if payload.len() != 4 {
            Err(ParseFrameError::IncorrectPayloadLen)
        } else {
            Ok(
                WindowUpdateFrame {
                    stream_id: h.stream_id,
                    flags: h.flags,
                    increment: (be32(payload, 0) % 0x8000_0000) as u32,
                },
            )
        }
    }

    /// The WINDOW_UPDATE frame that the bytes of a whole frame spell.
    pub open spec fn spec_from_raw(s: Seq<u8>) -> Result<WindowUpdateFrame, ParseFrameError> {
        match spec_checked_header(s) {
            Err(e) => Err(e),
            Ok(h) => if h.frame_type != WINDOW_UPDATE_FRAME_TYPE {
                Err(ParseFrameError::UnexpectedFrameType)
            } else {
                WindowUpdateFrame::spec_parse(h, s.skip(9))
            },
        }
    }

    /// A WINDOW_UPDATE frame is read back from its bytes.
    pub proof fn lemma_roundtrip(self)
        requires
            self.wf(),
        ensures
            WindowUpdateFrame::spec_from_raw(self.wire_bytes()) == Ok::<
                WindowUpdateFrame,
                ParseFrameError,
            >(self),
    {
        lemma_be32_of_bytes32(self.increment as int);
        lemma_frame_bytes(self.header(), self.payload());
    }

    /// A frame that adds `increment` to the window of `stream_id`.
    pub fn new(stream_id: StreamId, increment: u32) -> (f: WindowUpdateFrame)
        ensures
            f == (WindowUpdateFrame { stream_id, flags: 0, increment }),
    {
        WindowUpdateFrame { stream_id, flags: 0, increment }
    }

    /// Decodes a WINDOW_UPDATE frame.
    pub fn from_raw(raw: &RawFrame) -> (r: Result<WindowUpdateFrame, ParseFrameError>)
        ensures
            r == WindowUpdateFrame::spec_from_raw(raw@),
    {
        let h = match raw.checked_header() {
            Ok(h) => h,
            Err(e) => {
                return Err(e);
            },
        };
        if h.frame_type != WINDOW_UPDATE_FRAME_TYPE {
            return Err(ParseFrameError::UnexpectedFrameType);
        }
        let s = raw.as_slice();
        if s.len() != 13 {
            return Err(ParseFrameError::IncorrectPayloadLen);
        }
        let word: u32 = read_u32(s, 9);
        assert(be32(raw@.skip(9), 0) == be32(raw@, 9));
        Ok(
            WindowUpdateFrame {
                stream_id: h.stream_id,
                flags: h.flags,
                increment: word % 0x8000_0000,
            },
        )
    }

    /// Encodes the frame.
    pub fn serialize_into_vec(&self) -> (out: Vec<u8>)
        ensures
            out@ == self.wire_bytes(),
    {
        let h = FrameHeader {
            length: 4,
            frame_type: WINDOW_UPDATE_FRAME_TYPE,
            flags: self.flags,
            stream_id: self.stream_id,
        };
        let mut out: Vec<u8> = Vec::new();
        push_header(&mut out, &h);
        push_u32(&mut out, self.increment % 0x8000_0000);
        assert(out@ =~= self.wire_bytes());
        out
    }
}

} // verus!
