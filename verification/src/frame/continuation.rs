//! CONTINUATION frames.

use crate::buf::bytes_as_slice;
use crate::buf::bytes_view;
use crate::error::ParseFrameError;
use crate::frame::flags::{has_flag, is_set, END_HEADERS};
use crate::frame::header::{
    frame_bytes, lemma_frame_bytes, push_header, result_view, spec_checked_header, FrameHeader,
    RawFrame, StreamId, MAX_PAYLOAD_LEN, MAX_STREAM_ID,
};
use bytes::Bytes;
use vstd::prelude::*;

verus! {

/// Type code of CONTINUATION.
pub const CONTINUATION_FRAME_TYPE: u8 = 0x9;

/// A CONTINUATION frame: a further piece of a header block.
#[derive(Clone, Debug, PartialEq, Eq)]
pub struct ContinuationFrame {
    pub stream_id: StreamId,
    pub flags: u8,
    pub header_fragment: Bytes,
}

/// What a CONTINUATION frame holds.
pub struct ContinuationFrameView {
    pub stream_id: StreamId,
    pub flags: u8,
    pub header_fragment: Seq<u8>,
}

impl View for ContinuationFrame {
    type V = ContinuationFrameView;

    open spec fn view(&self) -> ContinuationFrameView {
        ContinuationFrameView {
            stream_id: self.stream_id,
            flags: self.flags,
            header_fragment: bytes_view(self.header_fragment),
        }
    }
}

impl ContinuationFrameView {
    /// The frame ends its header block.
    pub open spec fn is_headers_end(self) -> bool {
        has_flag(self.flags, END_HEADERS)
    }

    /// The payload on the wire.
    pub open spec fn payload(self) -> Seq<u8> {
        self.header_fragment
    }

    /// The header on the wire.
    pub open spec fn header(self) -> FrameHeader {
        FrameHeader {
            length: self.payload().len() as u32,
            frame_type: CONTINUATION_FRAME_TYPE,
            flags: self.flags,
            stream_id: self.stream_id,
        }
    }

    /// The frame as bytes.
    pub open spec fn wire_bytes(self) -> Seq<u8> {
        frame_bytes(self.header(), self.payload())
    }

    /// The frame can stand on the wire and be read back as it is.
    pub open spec fn wf(self) -> bool {
        0 < self.stream_id <= MAX_STREAM_ID && self.payload().len() <= MAX_PAYLOAD_LEN
    }
}

/// The CONTINUATION frame that a header and a payload make.
pub open spec fn spec_parse_continuation(h: FrameHeader, payload: Seq<u8>) -> Result<
    ContinuationFrameView,
    ParseFrameError,
> {
    if h.stream_id == 0 {
        Err(ParseFrameError::StreamIdMustBeNonZero)
    } else {
        Ok(ContinuationFrameView { stream_id: h.stream_id, flags: h.flags, header_fragment: payload })
    }
}

/// The CONTINUATION frame that the bytes of a whole frame spell.
pub open spec fn spec_continuation_from_raw(s: Seq<u8>) -> Result<
    ContinuationFrameView,
    ParseFrameError,
> {
    match spec_checked_header(s) {
        Err(e) => Err(e),
        Ok(h) => if h.frame_type != CONTINUATION_FRAME_TYPE {
            Err(ParseFrameError::UnexpectedFrameType)
        } else {
            spec_parse_continuation(h, s.skip(9))
        },
    }
}

/// A CONTINUATION frame is read back from its bytes.
pub proof fn lemma_continuation_roundtrip(f: ContinuationFrameView)
    requires
        f.wf(),
    ensures
        spec_continuation_from_raw(f.wire_bytes()) == Ok::<ContinuationFrameView, ParseFrameError>(
            f,
        ),
{
    lemma_frame_bytes(f.header(), f.payload());
}

impl ContinuationFrame {
    /// A frame that carries `header_fragment` on `stream_id`, with no flag.
    pub fn new(stream_id: StreamId, header_fragment: Bytes) -> (f: ContinuationFrame)
        ensures
            f@ == (ContinuationFrameView {
                stream_id,
                flags: 0,
                header_fragment: bytes_view(header_fragment),
            }),
    {
        ContinuationFrame { stream_id, flags: 0, header_fragment }
    }

    /// Tells whether the frame ends its header block.
    pub fn is_headers_end(&self) -> (r: bool)
        ensures
            r == self@.is_headers_end(),
    {
        is_set(self.flags, END_HEADERS)
    }

    /// Decodes a CONTINUATION frame.
    pub fn from_raw(raw: &RawFrame) -> (r: Result<ContinuationFrame, ParseFrameError>)
        ensures
            result_view(r) == spec_continuation_from_raw(raw@),
    {
        let h = match raw.checked_header() {
            Ok(h) => h,
            Err(e) => {
                return Err(e);
            },
        };
        if h.frame_type != CONTINUATION_FRAME_TYPE {
            return Err(ParseFrameError::UnexpectedFrameType);
        }
        if h.stream_id == 0 {
            return Err(ParseFrameError::StreamIdMustBeNonZero);
        }
        let len: usize = raw.raw_content.len();
        let header_fragment = raw.raw_content.slice(9, len);
        assert(bytes_view(header_fragment) =~= raw@.skip(9));
        Ok(ContinuationFrame { stream_id: h.stream_id, flags: h.flags, header_fragment })
    }

    /// Encodes the frame.
    pub fn serialize_into_vec(&self) -> (out: Vec<u8>)
        requires
            self@.payload().len() <= MAX_PAYLOAD_LEN,
        ensures
            out@ == self@.wire_bytes(),
    {
        let h = FrameHeader {
            length: self.header_fragment.len() as u32,
            frame_type: CONTINUATION_FRAME_TYPE,
            flags: self.flags,
            stream_id: self.stream_id,
        };
        let mut out: Vec<u8> = Vec::new();
        push_header(&mut out, &h);
        out.extend_from_slice(bytes_as_slice(&self.header_fragment));
        assert(out@ =~= self@.wire_bytes());
        out
    }
}

} // verus!
