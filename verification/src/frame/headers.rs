//! HEADERS frames.

use crate::buf::bytes_as_slice;
use crate::buf::bytes_view;
use crate::error::ParseFrameError;
use crate::frame::flags::{
    has_flag, is_set, lemma_unpad_padded, padded_payload, push_zeros, unpad, END_HEADERS,
    END_STREAM, PADDED, PRIORITY,
};
use crate::frame::header::{
    frame_bytes, lemma_frame_bytes, push_header, result_view, spec_checked_header, FrameHeader,
    RawFrame, StreamId, MAX_PAYLOAD_LEN, MAX_STREAM_ID,
};
use crate::frame::priority::StreamDependency;
use crate::wire::be32;
use bytes::Bytes;
use vstd::prelude::*;

verus! {

/// Type code of HEADERS.
pub const HEADERS_FRAME_TYPE: u8 = 0x1;

/// A HEADERS frame: the first piece of a header block, which opens a
/// stream or carries trailers.
#[derive(Clone, Debug, PartialEq, Eq)]
pub struct HeadersFrame {
    pub stream_id: StreamId,
    pub flags: u8,
    /// The piece of the compressed header block.
    pub header_fragment: Bytes,
    /// The dependency of the stream, which is there where PRIORITY is set.
    pub stream_dep: Option<StreamDependency>,
    /// Number of padding bytes; read only where PADDED is set.
    pub padding_len: u8,
}

/// What a HEADERS frame holds.
pub struct HeadersFrameView {
    pub stream_id: StreamId,
    pub flags: u8,
    pub header_fragment: Seq<u8>,
    pub stream_dep: Option<StreamDependency>,
    pub padding_len: u8,
}

impl View for HeadersFrame {
    type V = HeadersFrameView;

    open spec fn view(&self) -> HeadersFrameView {
        HeadersFrameView {
            stream_id: self.stream_id,
            flags: self.flags,
            header_fragment: bytes_view(self.header_fragment),
            stream_dep: self.stream_dep,
            padding_len: self.padding_len,
        }
    }
}

impl HeadersFrameView {
    /// The frame ends its header block.
    pub open spec fn is_headers_end(self) -> bool {
        has_flag(self.flags, END_HEADERS)
    }

    /// The frame ends its stream.
    pub open spec fn is_end_of_stream(self) -> bool {
        has_flag(self.flags, END_STREAM)
    }

    /// The payload without its padding: the dependency, where there is
    /// one, and the fragment.
    pub open spec fn body(self) -> Seq<u8> {
        match self.stream_dep {
            Some(dep) => dep.wire_bytes() + self.header_fragment,
            None => self.header_fragment,
        }
    }

    /// The payload on the wire.
    pub open spec fn payload(self) -> Seq<u8> {
        padded_payload(has_flag(self.flags, PADDED), self.padding_len, self.body())
    }

    /// The header on the wire.
    pub open spec fn header(self) -> FrameHeader {
        FrameHeader {
            length: self.payload().len() as u32,
            frame_type: HEADERS_FRAME_TYPE,
            flags: self.flags,
            stream_id: self.stream_id,
        }
    }

    /// The frame as bytes.
    pub open spec fn wire_bytes(self) -> Seq<u8> {
        frame_bytes(self.header(), self.payload())
    }

    /// The frame can stand on the wire and be read back as it is: it names
    /// a stream, its payload fits a frame, PRIORITY is set exactly where it
    /// has a dependency, and it counts no padding that it does not have.
    pub open spec fn wf(self) -> bool {
        &&& 0 < self.stream_id <= MAX_STREAM_ID
        &&& self.payload().len() <= MAX_PAYLOAD_LEN
        &&& has_flag(self.flags, PRIORITY) == self.stream_dep.is_some()
        &&& self.stream_dep.is_some() ==> self.stream_dep.unwrap().wf()
        &&& !has_flag(self.flags, PADDED) ==> self.padding_len == 0
    }
}

/// The HEADERS frame that a header and a payload make.
pub open spec fn spec_parse_headers(h: FrameHeader, payload: Seq<u8>) -> Result<
    HeadersFrameView,
    ParseFrameError,
> {
    if h.stream_id == 0 {
        Err(ParseFrameError::StreamIdMustBeNonZero)
    } else {
        match unpad(has_flag(h.flags, PADDED), payload) {
            None => Err(ParseFrameError::PaddingTooLong),
            Some((pad, body)) => if has_flag(h.flags, PRIORITY) {
                if body.len() < 5 {
                    Err(ParseFrameError::IncorrectPayloadLen)
                } else {
                    Ok(
                        HeadersFrameView {
                            stream_id: h.stream_id,
                            flags: h.flags,
                            header_fragment: body.skip(5),
                            stream_dep: Some(StreamDependency::spec_parse(body, 0)),
                            padding_len: pad,
                        },
                    )
                }
            } else {
                Ok(
                    HeadersFrameView {
                        stream_id: h.stream_id,
                        flags: h.flags,
                        header_fragment: body,
                        stream_dep: None,
                        padding_len: pad,
                    },
                )
            },
        }
    }
}

/// The HEADERS frame that the bytes of a whole frame spell.
pub open spec fn spec_headers_from_raw(s: Seq<u8>) -> Result<HeadersFrameView, ParseFrameError> {
    match spec_checked_header(s) {
        Err(e) => Err(e),
        Ok(h) => if h.frame_type != HEADERS_FRAME_TYPE {
            Err(ParseFrameError::UnexpectedFrameType)
        } else {
            spec_parse_headers(h, s.skip(9))
        },
    }
}

/// A HEADERS frame is read back from its bytes.
pub proof fn lemma_headers_roundtrip(f: HeadersFrameView)
    requires
        f.wf(),
    ensures
        spec_headers_from_raw(f.wire_bytes()) == Ok::<HeadersFrameView, ParseFrameError>(f),
{
    lemma_frame_bytes(f.header(), f.payload());
    lemma_unpad_padded(has_flag(f.flags, PADDED), f.padding_len, f.body());
    match f.stream_dep {
        Some(dep) => {
            dep.lemma_roundtrip(f.header_fragment);
            assert(f.body().skip(5) =~= f.header_fragment);
        },
        None => {},
    }
}

impl HeadersFrame {
    /// A frame that carries `header_fragment` on `stream_id`, with no flag,
    /// no dependency and no padding.
    pub fn new(stream_id: StreamId, header_fragment: Bytes) -> (f: HeadersFrame)
        ensures
            f@ == (HeadersFrameView {
                stream_id,
                flags: 0,
                header_fragment: bytes_view(header_fragment),
                stream_dep: None,
                padding_len: 0,
            }),
    {
        HeadersFrame { stream_id, flags: 0, header_fragment, stream_dep: None, padding_len: 0 }
    }

    /// Tells whether the frame ends its header block.
    pub fn is_headers_end(&self) -> (r: bool)
        ensures
            r == self@.is_headers_end(),
    {
        is_set(self.flags, END_HEADERS)
    }

    /// Tells whether the frame ends its stream.
    pub fn is_end_of_stream(&self) -> (r: bool)
        ensures
            r == self@.is_end_of_stream(),
    {
        is_set(self.flags, END_STREAM)
    }

    /// Length of the payload on the wire.
    pub fn payload_len(&self) -> (n: usize)
        requires
            self@.payload().len() <= usize::MAX,
        ensures
            n == self@.payload().len(),
    {
        proof {
            lemma_unpad_padded(true, self.padding_len, self@.body());
        }
        let dep_len: usize = if self.stream_dep.is_some() {
            5
        } else {
            0
        };
        if is_set(self.flags, PADDED) {
            self.header_fragment.len() + dep_len + 1 + self.padding_len as usize
        } else {
            self.header_fragment.len() + dep_len
        }
    }

    /// Decodes a HEADERS frame.
    pub fn from_raw(raw: &RawFrame) -> (r: Result<HeadersFrame, ParseFrameError>)
        ensures
            result_view(r) == spec_headers_from_raw(raw@),
    {
        let h = match raw.checked_header() {
            Ok(h) => h,
            Err(e) => {
                return Err(e);
            },
        };
        if h.frame_type != HEADERS_FRAME_TYPE {
            return Err(ParseFrameError::UnexpectedFrameType);
        }
        if h.stream_id == 0 {
            return Err(ParseFrameError::StreamIdMustBeNonZero);
        }
        let s = raw.as_slice();
        let len: usize = s.len();
        let ghost payload = raw@.skip(9);
        let mut start: usize = 9;
        let mut end: usize = len;
        let mut pad: u8 = 0;
        if is_set(h.flags, PADDED) {
            if len == 9 {
                return Err(ParseFrameError::PaddingTooLong);
            }
            pad = s[9];
            assert(pad == payload[0]);
            if pad as usize >= len - 9 {
                return Err(ParseFrameError::PaddingTooLong);
            }
            start = 10;
            end = len - pad as usize;
        }
        let ghost body = raw@.subrange(start as int, end as int);
        assert(unpad(has_flag(h.flags, PADDED), payload) == Some((pad, body))) by {
            if has_flag(h.flags, PADDED) {
                assert(payload.subrange(1, payload.len() - pad) =~= body);
            } else {
                assert(payload =~= body);
            }
        }
        if is_set(h.flags, PRIORITY) {
            if end - start < 5 {
                return Err(ParseFrameError::IncorrectPayloadLen);
            }
            let dep = StreamDependency::parse(s, start);
            assert(be32(body, 0) == be32(raw@, start as int));
            assert(body[4] == raw@[start + 4]);
            let header_fragment = raw.raw_content.slice(start + 5, end);
            assert(bytes_view(header_fragment) =~= body.skip(5));
            Ok(
                HeadersFrame {
                    stream_id: h.stream_id,
                    flags: h.flags,
                    header_fragment,
                    stream_dep: Some(dep),
                    padding_len: pad,
                },
            )
        } else {
            let header_fragment = raw.raw_content.slice(start, end);
            Ok(
                HeadersFrame {
                    stream_id: h.stream_id,
                    flags: h.flags,
                    header_fragment,
                    stream_dep: None,
                    padding_len: pad,
                },
            )
        }
    }

    /// Encodes the frame.
    pub fn serialize_into_vec(&self) -> (out: Vec<u8>)
        requires
            self@.payload().len() <= MAX_PAYLOAD_LEN,
        ensures
            out@ == self@.wire_bytes(),
    {
        let len: usize = self.payload_len();
        let h = FrameHeader {
            length: len as u32,
            frame_type: HEADERS_FRAME_TYPE,
            flags: self.flags,
            stream_id: self.stream_id,
        };
        let mut out: Vec<u8> = Vec::new();
        push_header(&mut out, &h);
        let padded: bool = is_set(self.flags, PADDED);
        if padded {
            out.push(self.padding_len);
        }
        match &self.stream_dep {
            Some(dep) => {
                dep.serialize_into(&mut out);
            },
            None => {},
        }
        out.extend_from_slice(bytes_as_slice(&self.header_fragment));
        if padded {
            push_zeros(&mut out, self.padding_len);
        }
        assert(out@ =~= self@.wire_bytes());
        out
    }
}

} // verus!
