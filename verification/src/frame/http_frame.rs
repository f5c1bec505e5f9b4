//! A frame of any type.

use crate::error::ParseFrameError;
use crate::frame::flags::{
    has_flag, is_set, lemma_unpad_padded, padded_payload, unpad, PADDED,
};
use crate::frame::continuation::{
    lemma_continuation_roundtrip, spec_continuation_from_raw, ContinuationFrame,
    ContinuationFrameView, CONTINUATION_FRAME_TYPE,
};
use crate::frame::data::{
    lemma_data_roundtrip, spec_data_from_raw, DataFrame, DataFrameView, DATA_FRAME_TYPE,
};
use crate::frame::goaway::{
    lemma_goaway_roundtrip, spec_goaway_from_raw, GoawayFrame, GoawayFrameView, GOAWAY_FRAME_TYPE,
};
use crate::frame::header::{
    result_view, spec_checked_header, spec_unpack_header, RawFrame, StreamId, MAX_PAYLOAD_LEN,
};
use crate::frame::headers::{
    lemma_headers_roundtrip, spec_headers_from_raw, HeadersFrame, HeadersFrameView,
    HEADERS_FRAME_TYPE,
};
use crate::frame::ping::{PingFrame, PING_FRAME_TYPE};
use crate::frame::priority::{PriorityFrame, StreamDependency, PRIORITY_FRAME_TYPE};
use crate::frame::push_promise::{
    lemma_push_promise_roundtrip, spec_push_promise_from_raw, PushPromiseFrame,
    PushPromiseFrameView, PUSH_PROMISE_FRAME_TYPE,
};
use crate::frame::rst_stream::{RstStreamFrame, RST_STREAM_FRAME_TYPE};
use crate::frame::settings::{
    lemma_parsed_settings_wf, lemma_settings_frame_roundtrip, spec_settings_from_raw, SettingsFrame, SettingsFrameView,
    SETTINGS_FRAME_TYPE,
};
use crate::frame::window_update::{WindowUpdateFrame, WINDOW_UPDATE_FRAME_TYPE};
use vstd::prelude::*;

verus! {

/// A frame of any type. One of a type that this library does not know is
/// kept as it came.
#[derive(Clone, Debug, PartialEq, Eq)]
pub enum HttpFrame {
    Data(DataFrame),
    Headers(HeadersFrame),
    Priority(PriorityFrame),
    RstStream(RstStreamFrame),
    Settings(SettingsFrame),
    PushPromise(PushPromiseFrame),
    Ping(PingFrame),
    Goaway(GoawayFrame),
    WindowUpdate(WindowUpdateFrame),
    Continuation(ContinuationFrame),
    Unknown(RawFrame),
}

/// What a frame holds.
pub enum HttpFrameView {
    Data(DataFrameView),
    Headers(HeadersFrameView),
    Priority(PriorityFrame),
    RstStream(RstStreamFrame),
    Settings(SettingsFrameView),
    PushPromise(PushPromiseFrameView),
    Ping(PingFrame),
    Goaway(GoawayFrameView),
    WindowUpdate(WindowUpdateFrame),
    Continuation(ContinuationFrameView),
    Unknown(Seq<u8>),
}

impl View for HttpFrame {
    type V = HttpFrameView;

    open spec fn view(&self) -> HttpFrameView {
        match self {
            HttpFrame::Data(f) => HttpFrameView::Data(f@),
            HttpFrame::Headers(f) => HttpFrameView::Headers(f@),
            HttpFrame::Priority(f) => HttpFrameView::Priority(*f),
            HttpFrame::RstStream(f) => HttpFrameView::RstStream(*f),
            HttpFrame::Settings(f) => HttpFrameView::Settings(f@),
            HttpFrame::PushPromise(f) => HttpFrameView::PushPromise(f@),
            HttpFrame::Ping(f) => HttpFrameView::Ping(*f),
            HttpFrame::Goaway(f) => HttpFrameView::Goaway(f@),
            HttpFrame::WindowUpdate(f) => HttpFrameView::WindowUpdate(*f),
            HttpFrame::Continuation(f) => HttpFrameView::Continuation(f@),
            HttpFrame::Unknown(raw) => HttpFrameView::Unknown(raw@),
        }
    }
}

impl HttpFrameView {
    /// The frame as bytes.
    pub open spec fn wire_bytes(self) -> Seq<u8> {
        match self {
            HttpFrameView::Data(f) => f.wire_bytes(),
            HttpFrameView::Headers(f) => f.wire_bytes(),
            HttpFrameView::Priority(f) => f.wire_bytes(),
            HttpFrameView::RstStream(f) => f.wire_bytes(),
            HttpFrameView::Settings(f) => f.wire_bytes(),
            HttpFrameView::PushPromise(f) => f.wire_bytes(),
            HttpFrameView::Ping(f) => f.wire_bytes(),
            HttpFrameView::Goaway(f) => f.wire_bytes(),
            HttpFrameView::WindowUpdate(f) => f.wire_bytes(),
            HttpFrameView::Continuation(f) => f.wire_bytes(),
            HttpFrameView::Unknown(s) => s,
        }
    }

    /// The payload is no longer than a frame header can say.
    pub open spec fn fits(self) -> bool {
        match self {
            HttpFrameView::Data(f) => f.payload().len() <= MAX_PAYLOAD_LEN,
            HttpFrameView::Headers(f) => f.payload().len() <= MAX_PAYLOAD_LEN,
            HttpFrameView::Settings(f) => 6 * f.settings.len() <= MAX_PAYLOAD_LEN,
            HttpFrameView::PushPromise(f) => f.payload().len() <= MAX_PAYLOAD_LEN,
            HttpFrameView::Goaway(f) => f.payload().len() <= MAX_PAYLOAD_LEN,
            HttpFrameView::Continuation(f) => f.payload().len() <= MAX_PAYLOAD_LEN,
            _ => true,
        }
    }

    /// The frame can stand on the wire and be read back as it is. A frame
    /// kept as it came is a whole frame of a type without a meaning.
    pub open spec fn wf(self) -> bool {
        match self {
            HttpFrameView::Data(f) => f.wf(),
            HttpFrameView::Headers(f) => f.wf(),
            HttpFrameView::Priority(f) => f.wf(),
            HttpFrameView::RstStream(f) => f.wf(),
            HttpFrameView::Settings(f) => f.wf(),
            HttpFrameView::PushPromise(f) => f.wf(),
            HttpFrameView::Ping(f) => true,
            HttpFrameView::Goaway(f) => f.wf(),
            HttpFrameView::WindowUpdate(f) => f.wf(),
            HttpFrameView::Continuation(f) => f.wf(),
            HttpFrameView::Unknown(s) => spec_checked_header(s) matches Ok(h) && h.frame_type > 9,
        }
    }

    /// The stream that the frame belongs to; zero for the connection.
    pub open spec fn stream_id(self) -> StreamId {
        match self {
            HttpFrameView::Data(f) => f.stream_id,
            HttpFrameView::Headers(f) => f.stream_id,
            HttpFrameView::Priority(f) => f.stream_id,
            HttpFrameView::RstStream(f) => f.stream_id,
            HttpFrameView::Settings(f) => 0,
            HttpFrameView::PushPromise(f) => f.stream_id,
            HttpFrameView::Ping(f) => 0,
            HttpFrameView::Goaway(f) => 0,
            HttpFrameView::WindowUpdate(f) => f.stream_id,
            HttpFrameView::Continuation(f) => f.stream_id,
            HttpFrameView::Unknown(s) => if s.len() >= 9 {
                spec_unpack_header(s).stream_id
            } else {
                0
            },
        }
    }

    /// The type code of the frame; 0xff for bytes too short to have one.
    pub open spec fn frame_type(self) -> u8 {
        match self {
            HttpFrameView::Data(f) => DATA_FRAME_TYPE,
            HttpFrameView::Headers(f) => HEADERS_FRAME_TYPE,
            HttpFrameView::Priority(f) => PRIORITY_FRAME_TYPE,
            HttpFrameView::RstStream(f) => RST_STREAM_FRAME_TYPE,
            HttpFrameView::Settings(f) => SETTINGS_FRAME_TYPE,
            HttpFrameView::PushPromise(f) => PUSH_PROMISE_FRAME_TYPE,
            HttpFrameView::Ping(f) => PING_FRAME_TYPE,
            HttpFrameView::Goaway(f) => GOAWAY_FRAME_TYPE,
            HttpFrameView::WindowUpdate(f) => WINDOW_UPDATE_FRAME_TYPE,
            HttpFrameView::Continuation(f) => CONTINUATION_FRAME_TYPE,
            HttpFrameView::Unknown(s) => if s.len() >= 9 {
                spec_unpack_header(s).frame_type
            } else {
                0xff
            },
        }
    }
}

/// The frame that the bytes of a whole frame spell, or why they spell
/// none. The type code in the header says which decoder reads the payload;
/// a frame with another code than the ten known is kept as it is.
#[verifier::opaque]
pub open spec fn spec_http_frame_from_raw(s: Seq<u8>) -> Result<HttpFrameView, ParseFrameError> {
    match spec_checked_header(s) {
        Err(e) => Err(e),
        Ok(h) => if h.frame_type == DATA_FRAME_TYPE {
            match spec_data_from_raw(s) {
                Ok(f) => Ok(HttpFrameView::Data(f)),
                Err(e) => Err(e),
            }
        } else if h.frame_type == HEADERS_FRAME_TYPE {
            match spec_headers_from_raw(s) {
                Ok(f) => Ok(HttpFrameView::Headers(f)),
                Err(e) => Err(e),
            }
        } else if h.frame_type == PRIORITY_FRAME_TYPE {
            match PriorityFrame::spec_from_raw(s) {
                Ok(f) => Ok(HttpFrameView::Priority(f)),
                Err(e) => Err(e),
            }
        } else if h.frame_type == RST_STREAM_FRAME_TYPE {
            match RstStreamFrame::spec_from_raw(s) {
                Ok(f) => Ok(HttpFrameView::RstStream(f)),
                Err(e) => Err(e),
            }
        } else if h.frame_type == SETTINGS_FRAME_TYPE {
            match spec_settings_from_raw(s) {
                Ok(f) => Ok(HttpFrameView::Settings(f)),
                Err(e) => Err(e),
            }
        } else if h.frame_type == PUSH_PROMISE_FRAME_TYPE {
            match spec_push_promise_from_raw(s) {
                Ok(f) => Ok(HttpFrameView::PushPromise(f)),
                Err(e) => Err(e),
            }
        } else if h.frame_type == PING_FRAME_TYPE {
            match PingFrame::spec_from_raw(s) {
                Ok(f) => Ok(HttpFrameView::Ping(f)),
                Err(e) => Err(e),
            }
        } else if h.frame_type == GOAWAY_FRAME_TYPE {
            match spec_goaway_from_raw(s) {
                Ok(f) => Ok(HttpFrameView::Goaway(f)),
                Err(e) => Err(e),
            }
        } else if h.frame_type == WINDOW_UPDATE_FRAME_TYPE {
            match WindowUpdateFrame::spec_from_raw(s) {
                Ok(f) => Ok(HttpFrameView::WindowUpdate(f)),
                Err(e) => Err(e),
            }
        } else if h.frame_type == CONTINUATION_FRAME_TYPE {
            match spec_continuation_from_raw(s) {
                Ok(f) => Ok(HttpFrameView::Continuation(f)),
                Err(e) => Err(e),
            }
        } else {
            Ok(HttpFrameView::Unknown(s))
        },
    }
}

/// Encoding a frame and decoding the bytes gives the frame back, for every
/// frame that can stand on the wire.
pub proof fn lemma_http_frame_roundtrip(f: HttpFrameView)
    requires
        f.wf(),
    ensures
        spec_http_frame_from_raw(f.wire_bytes()) == Ok::<HttpFrameView, ParseFrameError>(f),
{
    reveal(spec_http_frame_from_raw);
    match f {
        HttpFrameView::Data(d) => {
            lemma_data_roundtrip(d);
        },
        HttpFrameView::Headers(h) => {
            lemma_headers_roundtrip(h);
        },
        HttpFrameView::Priority(p) => {
            p.lemma_roundtrip();
        },
        HttpFrameView::RstStream(r) => {
            r.lemma_roundtrip();
        },
        HttpFrameView::Settings(s) => {
            lemma_settings_frame_roundtrip(s);
        },
        HttpFrameView::PushPromise(p) => {
            lemma_push_promise_roundtrip(p);
        },
        HttpFrameView::Ping(p) => {
            p.lemma_roundtrip();
        },
        HttpFrameView::Goaway(g) => {
            lemma_goaway_roundtrip(g);
        },
        HttpFrameView::WindowUpdate(w) => {
            w.lemma_roundtrip();
        },
        HttpFrameView::Continuation(c) => {
            lemma_continuation_roundtrip(c);
        },
        HttpFrameView::Unknown(s) => {},
    }
}

/// What is read from the wire can stand on the wire: every frame that
/// decoding gives is one that encoding and decoding give back.
pub proof fn lemma_decoded_is_wf(s: Seq<u8>)
    ensures
        spec_http_frame_from_raw(s) matches Ok(f) ==> f.wf(),
{
    reveal(spec_http_frame_from_raw);
    match spec_checked_header(s) {
        Err(_) => {},
        Ok(h) => {
            let payload = s.skip(9);
            assert(h.wf());
            assert(payload.len() == h.length);
            let padded = has_flag(h.flags, PADDED);
            match unpad(padded, payload) {
                Some((pad, body)) => {
                    lemma_unpad_padded(padded, pad, body);
                    assert(padded_payload(padded, pad, body).len() == payload.len());
                    if body.len() >= 5 {
                        let dep = StreamDependency::spec_parse(body, 0);
                        dep.lemma_len();
                    }
                },
                None => {},
            }
            if h.frame_type == SETTINGS_FRAME_TYPE {
                lemma_parsed_settings_wf(payload, payload.len() / 6);
            }
        },
    }
}

impl HttpFrame {
    /// Decodes a frame of any type.
    pub fn from_raw(raw: &RawFrame) -> (r: Result<HttpFrame, ParseFrameError>)
        ensures
            result_view(r) == spec_http_frame_from_raw(raw@),
    {
        reveal(spec_http_frame_from_raw);
        let h = match raw.checked_header() {
            Ok(h) => h,
            Err(e) => {
                return Err(e);
            },
        };
        match h.frame_type {
            0 => match DataFrame::from_raw(raw) {
                Ok(f) => Ok(HttpFrame::Data(f)),
                Err(e) => Err(e),
            },
            1 => match HeadersFrame::from_raw(raw) {
                Ok(f) => Ok(HttpFrame::Headers(f)),
                Err(e) => Err(e),
            },
            2 => match PriorityFrame::from_raw(raw) {
                Ok(f) => Ok(HttpFrame::Priority(f)),
                Err(e) => Err(e),
            },
            3 => match RstStreamFrame::from_raw(raw) {
                Ok(f) => Ok(HttpFrame::RstStream(f)),
                Err(e) => Err(e),
            },
            4 => match SettingsFrame::from_raw(raw) {
                Ok(f) => Ok(HttpFrame::Settings(f)),
                Err(e) => Err(e),
            },
            5 => match PushPromiseFrame::from_raw(raw) {
                Ok(f) => Ok(HttpFrame::PushPromise(f)),
                Err(e) => Err(e),
            },
            6 => match PingFrame::from_raw(raw) {
                Ok(f) => Ok(HttpFrame::Ping(f)),
                Err(e) => Err(e),
            },
            7 => match GoawayFrame::from_raw(raw) {
                Ok(f) => Ok(HttpFrame::Goaway(f)),
                Err(e) => Err(e),
            },
            8 => match WindowUpdateFrame::from_raw(raw) {
                Ok(f) => Ok(HttpFrame::WindowUpdate(f)),
                Err(e) => Err(e),
            },
            9 => match ContinuationFrame::from_raw(raw) {
                Ok(f) => Ok(HttpFrame::Continuation(f)),
                Err(e) => Err(e),
            },
            _ => Ok(HttpFrame::Unknown(RawFrame { raw_content: raw.raw_content.clone() })),
        }
    }

    /// Encodes the frame.
    pub fn serialize_into_vec(&self) -> (out: Vec<u8>)
        requires
            self@.fits(),
        ensures
            out@ == self@.wire_bytes(),
    {
        match self {
            HttpFrame::Data(f) => f.serialize_into_vec(),
            HttpFrame::Headers(f) => f.serialize_into_vec(),
            HttpFrame::Priority(f) => f.serialize_into_vec(),
            HttpFrame::RstStream(f) => f.serialize_into_vec(),
            HttpFrame::Settings(f) => f.serialize_into_vec(),
            HttpFrame::PushPromise(f) => f.serialize_into_vec(),
            HttpFrame::Ping(f) => f.serialize_into_vec(),
            HttpFrame::Goaway(f) => f.serialize_into_vec(),
            HttpFrame::WindowUpdate(f) => f.serialize_into_vec(),
            HttpFrame::Continuation(f) => f.serialize_into_vec(),
            HttpFrame::Unknown(raw) => vstd::slice::slice_to_vec(raw.as_slice()),
        }
    }

    /// Tells whether the payload is no longer than a frame header can
    /// say, which is what encoding asks for.
    pub fn fits(&self) -> (r: bool)
        ensures
            r == self@.fits(),
    {
        let limit: usize = MAX_PAYLOAD_LEN as usize;
        match self {
            HttpFrame::Data(f) => {
                proof {
                    lemma_unpad_padded(true, f.padding_len, f@.data);
                }
                let n: usize = f.data.len();
                let extra: usize = if is_set(f.flags, PADDED) {
                    1 + f.padding_len as usize
                } else {
                    0
                };
                n <= limit && n + extra <= limit
            },
            HttpFrame::Headers(f) => {
                proof {
                    lemma_unpad_padded(true, f.padding_len, f@.body());
                    if f.stream_dep.is_some() {
                        f.stream_dep.unwrap().lemma_len();
                    }
                }
                let n: usize = f.header_fragment.len();
                let dep: usize = if f.stream_dep.is_some() {
                    5
                } else {
                    0
                };
                let extra: usize = if is_set(f.flags, PADDED) {
                    1 + f.padding_len as usize
                } else {
                    0
                };
                n <= limit && n + dep + extra <= limit
            },
            HttpFrame::Settings(f) => f.settings.len() <= limit / 6,
            HttpFrame::PushPromise(f) => {
                proof {
                    lemma_unpad_padded(true, f.padding_len, f@.body());
                }
                let n: usize = f.header_fragment.len();
                let extra: usize = if is_set(f.flags, PADDED) {
                    1 + f.padding_len as usize
                } else {
                    0
                };
                n <= limit && n + 4 + extra <= limit
            },
            HttpFrame::Goaway(f) => {
                let n: usize = f.debug_data.len();
                n <= limit && n + 8 <= limit
            },
            HttpFrame::Continuation(f) => f.header_fragment.len() <= limit,
            _ => true,
        }
    }

    /// The stream that the frame belongs to; zero for the connection.
    pub fn get_stream_id(&self) -> (id: StreamId)
        ensures
            id == self@.stream_id(),
    {
        match self {
            HttpFrame::Data(f) => f.stream_id,
            HttpFrame::Headers(f) => f.stream_id,
            HttpFrame::Priority(f) => f.stream_id,
            HttpFrame::RstStream(f) => f.stream_id,
            HttpFrame::Settings(_) => 0,
            HttpFrame::PushPromise(f) => f.stream_id,
            HttpFrame::Ping(_) => 0,
            HttpFrame::Goaway(_) => 0,
            HttpFrame::WindowUpdate(f) => f.stream_id,
            HttpFrame::Continuation(f) => f.stream_id,
            HttpFrame::Unknown(raw) => match raw.header() {
                Some(h) => h.stream_id,
                None => 0,
            },
        }
    }

    /// The type code of the frame; 0xff for bytes too short to have one.
    pub fn frame_type(&self) -> (t: u8)
        ensures
            t == self@.frame_type(),
    {
        match self {
            HttpFrame::Data(_) => DATA_FRAME_TYPE,
            HttpFrame::Headers(_) => HEADERS_FRAME_TYPE,
            HttpFrame::Priority(_) => PRIORITY_FRAME_TYPE,
            HttpFrame::RstStream(_) => RST_STREAM_FRAME_TYPE,
            HttpFrame::Settings(_) => SETTINGS_FRAME_TYPE,
            HttpFrame::PushPromise(_) => PUSH_PROMISE_FRAME_TYPE,
            HttpFrame::Ping(_) => PING_FRAME_TYPE,
            HttpFrame::Goaway(_) => GOAWAY_FRAME_TYPE,
            HttpFrame::WindowUpdate(_) => WINDOW_UPDATE_FRAME_TYPE,
            HttpFrame::Continuation(_) => CONTINUATION_FRAME_TYPE,
            HttpFrame::Unknown(raw) => match raw.header() {
                Some(h) => h.frame_type,
                None => 0xff,
            },
        }
    }
}

} // verus!
