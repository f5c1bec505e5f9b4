//! DATA frames.

use crate::buf::bytes_as_slice;
use crate::buf::bytes_view;
use crate::error::ParseFrameError;
use crate::frame::flags::{
    has_flag, is_set, lemma_unpad_padded, padded_payload, push_zeros, unpad, END_STREAM, PADDED,
};
use crate::frame::header::{
    frame_bytes, lemma_frame_bytes, push_header, result_view, spec_checked_header, FrameHeader,
    RawFrame, StreamId, MAX_PAYLOAD_LEN, MAX_STREAM_ID,
};
use bytes::Bytes;
use vstd::prelude::*;

verus! {

/// Type code of DATA.
pub const DATA_FRAME_TYPE: u8 = 0x0;

/// A DATA frame: application bytes of one stream.
#[derive(Clone, Debug, PartialEq, Eq)]
pub struct DataFrame {
    pub stream_id: StreamId,
    pub flags: u8,
    /// The application bytes, without padding.
    pub data: Bytes,
    /// Number of padding bytes; read only where PADDED is set.
    pub padding_len: u8,
}

/// What a DATA frame holds.
pub struct DataFrameView {
    pub stream_id: StreamId,
    pub flags: u8,
    pub data: Seq<u8>,
    pub padding_len: u8,
}

impl View for DataFrame {
    type V = DataFrameView;

    open spec fn view(&self) -> DataFrameView {
        DataFrameView {
            stream_id: self.stream_id,
            flags: self.flags,
            data: bytes_view(self.data),
            padding_len: self.padding_len,
        }
    }
}

impl DataFrameView {
    /// The frame ends its stream.
    pub open spec fn is_end_of_stream(self) -> bool {
        has_flag(self.flags, END_STREAM)
    }

    /// The payload on the wire.
    pub open spec fn payload(self) -> Seq<u8> {
        padded_payload(has_flag(self.flags, PADDED), self.padding_len, self.data)
    }

    /// The header on the wire.
    pub open spec fn header(self) -> FrameHeader {
        FrameHeader {
            length: self.payload().len() as u32,
            frame_type: DATA_FRAME_TYPE,
            flags: self.flags,
            stream_id: self.stream_id,
        }
    }

    /// The frame as bytes.
    pub open spec fn wire_bytes(self) -> Seq<u8> {
        frame_bytes(self.header(), self.payload())
    }

    /// The frame can stand on the wire and be read back as it is: it names
    /// a stream, its payload fits a frame, and it counts no padding that it
    /// does not have.
    pub open spec fn wf(self) -> bool {
        &&& 0 < self.stream_id <= MAX_STREAM_ID
        &&& self.payload().len() <= MAX_PAYLOAD_LEN
        &&& !has_flag(self.flags, PADDED) ==> self.padding_len == 0
    }
}

/// The DATA frame that a header and a payload make.
pub open spec fn spec_parse_data(h: FrameHeader, payload: Seq<u8>) -> Result<
    DataFrameView,
    ParseFrameError,
> {
    if h.stream_id == 0 {
        Err(ParseFrameError::StreamIdMustBeNonZero)
    } else {
        match unpad(has_flag(h.flags, PADDED), payload) {
            None => Err(ParseFrameError::PaddingTooLong),
            Some((pad, body)) => Ok(
                DataFrameView { stream_id: h.stream_id, flags: h.flags, data: body, padding_len: pad },
            ),
        }
    }
}

/// The DATA frame that the bytes of a whole frame spell.
pub open spec fn spec_data_from_raw(s: Seq<u8>) -> Result<DataFrameView, ParseFrameError> {
    match spec_checked_header(s) {
        Err(e) => Err(e),
        Ok(h) => if h.frame_type != DATA_FRAME_TYPE {
            Err(ParseFrameError::UnexpectedFrameType)
        } else {
            spec_parse_data(h, s.skip(9))
        },
    }
}

/// A DATA frame is read back from its bytes.
pub proof fn lemma_data_roundtrip(f: DataFrameView)
    requires
        f.wf(),
    ensures
        spec_data_from_raw(f.wire_bytes()) == Ok::<DataFrameView, ParseFrameError>(f),
{
    lemma_frame_bytes(f.header(), f.payload());
    lemma_unpad_padded(has_flag(f.flags, PADDED), f.padding_len, f.data);
}

impl DataFrame {
    /// A frame without padding that carries `data` on `stream_id`.
    pub fn new(stream_id: StreamId, data: Bytes) -> (f: DataFrame)
        ensures
            f@ == (DataFrameView { stream_id, flags: 0, data: bytes_view(data), padding_len: 0 }),
    {
        DataFrame { stream_id, flags: 0, data, padding_len: 0 }
    }

    /// Tells whether the frame ends its stream.
    pub fn is_end_of_stream(&self) -> (r: bool)
        ensures
            r == self@.is_end_of_stream(),
    {
        is_set(self.flags, END_STREAM)
    }

    /// Length of the payload on the wire: data, padding and the byte that
    /// counts the padding.
    pub fn payload_len(&self) -> (n: usize)
        requires
            self@.payload().len() <= usize::MAX,
        ensures
            n == self@.payload().len(),
    {
        proof {
            lemma_unpad_padded(true, self.padding_len, self@.data);
        }
        if is_set(self.flags, PADDED) {
            self.data.len() + 1 + self.padding_len as usize
        } else {
            self.data.len()
        }
    }

    /// Decodes a DATA frame.
    pub fn from_raw(raw: &RawFrame) -> (r: Result<DataFrame, ParseFrameError>)
        ensures
            result_view(r) == spec_data_from_raw(raw@),
    {
        let h = match raw.checked_header() {
            Ok(h) => h,
            Err(e) => {
                return Err(e);
            },
        };
        if h.frame_type != DATA_FRAME_TYPE {
            return Err(ParseFrameError::UnexpectedFrameType);
        }
        if h.stream_id == 0 {
            return Err(ParseFrameError::StreamIdMustBeNonZero);
        }
        let s = raw.as_slice();
        let len: usize = s.len();
        let ghost payload = raw@.skip(9);
        if is_set(h.flags, PADDED) {
            if len == 9 {
                return Err(ParseFrameError::PaddingTooLong);
            }
            let pad: u8 = s[9];
            assert(pad == payload[0]);
            if pad as usize >= len - 9 {
                return Err(ParseFrameError::PaddingTooLong);
            }
            let data = raw.raw_content.slice(10, len - pad as usize);
            assert(bytes_view(data) =~= payload.subrange(1, payload.len() - pad));
            Ok(DataFrame { stream_id: h.stream_id, flags: h.flags, data, padding_len: pad })
        } else {
            let data = raw.raw_content.slice(9, len);
            assert(bytes_view(data) =~= payload);
            Ok(DataFrame { stream_id: h.stream_id, flags: h.flags, data, padding_len: 0 })
        }
    }

    /// Encodes the frame.
    pub fn serialize_into_vec(&self) -> (out: Vec<u8>)
        requires
            self@.payload().len() <= MAX_PAYLOAD_LEN,
        ensures
            out@ == self@.wire_bytes(),
    {
        let len: usize = self.payload_len();
        let h = FrameHeader {
            length: len as u32,
            frame_type: DATA_FRAME_TYPE,
            flags: self.flags,
            stream_id: self.stream_id,
        };
        let mut out: Vec<u8> = Vec::new();
        push_header(&mut out, &h);
        if is_set(self.flags, PADDED) {
            out.push(self.padding_len);
            out.extend_from_slice(bytes_as_slice(&self.data));
            push_zeros(&mut out, self.padding_len);
        } else {
            out.extend_from_slice(bytes_as_slice(&self.data));
        }
        assert(out@ =~= self@.wire_bytes());
        out
    }
}

} // verus!
