//! Stream dependencies and PRIORITY frames.

use crate::error::ParseFrameError;
use crate::frame::header::{
    frame_bytes, lemma_frame_bytes, push_header, spec_checked_header, FrameHeader, RawFrame,
    StreamId, MAX_STREAM_ID,
};
use crate::wire::{be32, bytes32, lemma_be32_of_bytes32, push_u32, read_u32};
use vstd::prelude::*;

verus! {

/// Type code of PRIORITY.
pub const PRIORITY_FRAME_TYPE: u8 = 0x2;

/// The stream that a stream depends on, and with what weight.
#[derive(Clone, Copy, Debug, PartialEq, Eq, Structural)]
pub struct StreamDependency {
    /// The stream depended on.
    pub stream_id: StreamId,
    /// The weight as the wire has it: one less than the weight meant.
    pub weight: u8,
    /// The dependency is exclusive.
    pub is_exclusive: bool,
}

impl StreamDependency {
    /// The stream identifier fits its 31 bits.
    pub open spec fn wf(self) -> bool {
        self.stream_id <= MAX_STREAM_ID
    }

    /// The five bytes of the dependency: the exclusive bit and the stream
    /// identifier, then the weight.
    pub open spec fn wire_bytes(self) -> Seq<u8> {
        bytes32(
            self.stream_id as int % 0x8000_0000 + (if self.is_exclusive {
                0x8000_0000int
            } else {
                0
            }),
        ) + seq![self.weight]
    }

    /// The dependency that the five bytes at `i` spell.
    pub open spec fn spec_parse(s: Seq<u8>, i: int) -> StreamDependency {
        StreamDependency {
            stream_id: (be32(s, i) % 0x8000_0000) as u32,
            weight: s[i + 4],
            is_exclusive: be32(s, i) >= 0x8000_0000,
        }
    }

    /// A dependency takes five bytes.
    pub proof fn lemma_len(self)
        ensures
            self.wire_bytes().len() == 5,
    {
    }

    /// A dependency is read back from its bytes, whatever follows them.
    pub proof fn lemma_roundtrip(self, rest: Seq<u8>)
        requires
            self.wf(),
        ensures
            self.wire_bytes().len() == 5,
            StreamDependency::spec_parse(self.wire_bytes() + rest, 0) == self,
    {
        let x: int = self.stream_id as int + (if self.is_exclusive {
            0x8000_0000int
        } else {
            0
        });
        lemma_be32_of_bytes32(x);
        let s = self.wire_bytes() + rest;
        assert(be32(s, 0) == be32(bytes32(x), 0));
        assert(s[4] == self.weight);
    }

    /// Reads the dependency at `i`.
    pub fn parse(s: &[u8], i: usize) -> (d: StreamDependency)
        requires
            i + 5 <= s@.len(),
        ensures
            d == StreamDependency::spec_parse(s@, i as int),
            d.wf(),
    {
        let n: usize = s.len();
        let raw: u32 = read_u32(s, i);
        StreamDependency {
            stream_id: raw % 0x8000_0000,
            weight: s[i + 4],
            is_exclusive: raw >= 0x8000_0000,
        }
    }

    /// Appends the five bytes of the dependency.
    pub fn serialize_into(&self, out: &mut Vec<u8>)
        ensures
            final(out)@ == old(out)@ + self.wire_bytes(),
    {
        let id: u32 = self.stream_id % 0x8000_0000;
        let word: u32 = if self.is_exclusive {
            id + 0x8000_0000
        } else {
            id
        };
        push_u32(out, word);
        out.push(self.weight);
        assert(out@ =~= old(out)@ + self.wire_bytes());
    }
}

/// A PRIORITY frame: the dependency of one stream.
#[derive(Clone, Copy, Debug, PartialEq, Eq, Structural)]
pub struct PriorityFrame {
    pub stream_id: StreamId,
    pub flags: u8,
    pub stream_dep: StreamDependency,
}

impl PriorityFrame {
    /// The payload on the wire.
    pub open spec fn payload(self) -> Seq<u8> {
        self.stream_dep.wire_bytes()
    }

    /// The header on the wire.
    pub open spec fn header(self) -> FrameHeader {
        FrameHeader {
            length: 5,
            frame_type: PRIORITY_FRAME_TYPE,
            flags: self.flags,
            stream_id: self.stream_id,
        }
    }

    /// The frame as bytes.
    pub open spec fn wire_bytes(self) -> Seq<u8> {
        frame_bytes(self.header(), self.payload())
    }

    /// The frame can stand on the wire and be read back as it is.
    pub open spec fn wf(self) -> bool {
        0 < self.stream_id <= MAX_STREAM_ID && self.stream_dep.wf()
    }

    /// The PRIORITY frame that a header and a payload make.
    pub open spec fn spec_parse(h: FrameHeader, payload: Seq<u8>) -> Result<
        PriorityFrame,
        ParseFrameError,
    > {
        if payload.len() != 5 {
            Err(ParseFrameError::IncorrectPayloadLen)
        } else if h.stream_id == 0 {
            Err(ParseFrameError::StreamIdMustBeNonZero)
        } else {
            Ok(
                PriorityFrame {
                    stream_id: h.stream_id,
                    flags: h.flags,
                    stream_dep: StreamDependency::spec_parse(payload, 0),
                },
            )
        }
    }

    /// The PRIORITY frame that the bytes of a whole frame spell.
    pub open spec fn spec_from_raw(s: Seq<u8>) -> Result<PriorityFrame, ParseFrameError> {
        match spec_checked_header(s) {
            Err(e) => Err(e),
            Ok(h) => if h.frame_type != PRIORITY_FRAME_TYPE {
                Err(ParseFrameError::UnexpectedFrameType)
            } else {
                PriorityFrame::spec_parse(h, s.skip(9))
            },
        }
    }

    /// A PRIORITY frame is read back from its bytes.
    pub proof fn lemma_roundtrip(self)
        requires
            self.wf(),
        ensures
            PriorityFrame::spec_from_raw(self.wire_bytes()) == Ok::<PriorityFrame, ParseFrameError>(
                self,
            ),
    {
        self.stream_dep.lemma_roundtrip(Seq::empty());
        assert(self.stream_dep.wire_bytes() + Seq::<u8>::empty() =~= self.stream_dep.wire_bytes());
        lemma_frame_bytes(self.header(), self.payload());
    }

    /// Decodes a PRIORITY frame.
    pub fn from_raw(raw: &RawFrame) -> (r: Result<PriorityFrame, ParseFrameError>)
        ensures
            r == PriorityFrame::spec_from_raw(raw@),
    {
        let h = match raw.checked_header() {
            Ok(h) => h,
            Err(e) => {
                return Err(e);
            },
        };
        if h.frame_type != PRIORITY_FRAME_TYPE {
            return Err(ParseFrameError::UnexpectedFrameType);
        }
        let s = raw.as_slice();
        if s.len() != 14 {
            return Err(ParseFrameError::IncorrectPayloadLen);
        }
        if h.stream_id == 0 {
            return Err(ParseFrameError::StreamIdMustBeNonZero);
        }
        let dep = StreamDependency::parse(s, 9);
        let ghost payload = raw@.skip(9);
        assert(be32(payload, 0) == be32(raw@, 9));
        assert(payload[4] == raw@[13]);
        Ok(PriorityFrame { stream_id: h.stream_id, flags: h.flags, stream_dep: dep })
    }

    /// Encodes the frame.
    pub fn serialize_into_vec(&self) -> (out: Vec<u8>)
        ensures
            out@ == self.wire_bytes(),
    {
        let h = FrameHeader {
            length: 5,
            frame_type: PRIORITY_FRAME_TYPE,
            flags: self.flags,
            stream_id: self.stream_id,
        };
        let mut out: Vec<u8> = Vec::new();
        push_header(&mut out, &h);
        self.stream_dep.serialize_into(&mut out);
        assert(out@ =~= self.wire_bytes());
        out
    }
}

} // verus!
