//! Joining a header block that is split over several frames.
//!
//! A header block starts in a HEADERS or PUSH_PROMISE frame. Where that
//! frame does not end it, CONTINUATION frames for the same stream follow at
//! once, and the last of them ends it. The block is handed on as one frame:
//! the frame that started it, holding all fragments in order and marked as
//! ending the block.

use crate::buf::bytes_as_slice;
use crate::buf::bytes_view;
use crate::error::{ContinuationError, Error};
use crate::frame::flags::{has_flag, lemma_with_flag, set_flag, with_flag, END_HEADERS};
use crate::frame::header::StreamId;
use crate::frame::headers::{HeadersFrame, HeadersFrameView};
use crate::frame::http_frame::{HttpFrame, HttpFrameView};
use crate::frame::push_promise::{PushPromiseFrame, PushPromiseFrameView};
use bytes::Bytes;
use vstd::prelude::*;

verus! {

/// A frame that starts a header block and may be continued.
#[derive(Clone, Debug, PartialEq, Eq)]
pub enum ContinuableFrame {
    Headers(HeadersFrame),
    PushPromise(PushPromiseFrame),
}

/// What a continuable frame holds.
pub enum ContinuableFrameView {
    Headers(HeadersFrameView),
    PushPromise(PushPromiseFrameView),
}

impl View for ContinuableFrame {
    type V = ContinuableFrameView;

    open spec fn view(&self) -> ContinuableFrameView {
        match self {
            ContinuableFrame::Headers(h) => ContinuableFrameView::Headers(h@),
            ContinuableFrame::PushPromise(p) => ContinuableFrameView::PushPromise(p@),
        }
    }
}

impl ContinuableFrameView {
    /// The stream of the header block.
    pub open spec fn stream_id(self) -> StreamId {
        match self {
            ContinuableFrameView::Headers(h) => h.stream_id,
            ContinuableFrameView::PushPromise(p) => p.stream_id,
        }
    }

    /// The part of the header block gathered so far.
    pub open spec fn header_fragment(self) -> Seq<u8> {
        match self {
            ContinuableFrameView::Headers(h) => h.header_fragment,
            ContinuableFrameView::PushPromise(p) => p.header_fragment,
        }
    }

    /// The flags of the frame.
    pub open spec fn flags(self) -> u8 {
        match self {
            ContinuableFrameView::Headers(h) => h.flags,
            ContinuableFrameView::PushPromise(p) => p.flags,
        }
    }

    /// The frame with `more` behind its fragment, and nothing else changed.
    pub open spec fn extended(self, more: Seq<u8>) -> ContinuableFrameView {
        match self {
            ContinuableFrameView::Headers(h) => ContinuableFrameView::Headers(
                HeadersFrameView { header_fragment: h.header_fragment + more, ..h },
            ),
            ContinuableFrameView::PushPromise(p) => ContinuableFrameView::PushPromise(
                PushPromiseFrameView { header_fragment: p.header_fragment + more, ..p },
            ),
        }
    }

    /// The frame with END_HEADERS set, and nothing else changed.
    pub open spec fn with_end_headers(self) -> ContinuableFrameView {
        match self {
            ContinuableFrameView::Headers(h) => ContinuableFrameView::Headers(
                HeadersFrameView { flags: with_flag(h.flags, END_HEADERS), ..h },
            ),
            ContinuableFrameView::PushPromise(p) => ContinuableFrameView::PushPromise(
                PushPromiseFrameView { flags: with_flag(p.flags, END_HEADERS), ..p },
            ),
        }
    }

    /// The frame as a frame of any type.
    pub open spec fn into_frame(self) -> HttpFrameView {
        match self {
            ContinuableFrameView::Headers(h) => HttpFrameView::Headers(h),
            ContinuableFrameView::PushPromise(p) => HttpFrameView::PushPromise(p),
        }
    }
}

impl ContinuableFrame {
    /// The frame as a frame of any type.
    pub fn into_frame(self) -> (f: HttpFrame)
        ensures
            f@ == self@.into_frame(),
    {
        match self {
            ContinuableFrame::Headers(headers) => HttpFrame::Headers(headers),
            ContinuableFrame::PushPromise(push_promise) => HttpFrame::PushPromise(push_promise),
        }
    }

    /// Puts `bytes` behind the fragment that the frame holds.
    pub fn extend_header_fragment(&mut self, bytes: Bytes)
        requires
            old(self)@.header_fragment().len() + bytes_view(bytes).len() <= usize::MAX,
        ensures
            final(self)@ == old(self)@.extended(bytes_view(bytes)),
    {
        match self {
            ContinuableFrame::Headers(headers) => {
                headers.header_fragment.extend_from_slice(bytes_as_slice(&bytes));
            },
            ContinuableFrame::PushPromise(push_promise) => {
                push_promise.header_fragment.extend_from_slice(bytes_as_slice(&bytes));
            },
        }
    }

    /// Marks the frame as the end of its header block.
    pub fn set_end_headers(&mut self)
        ensures
            final(self)@ == old(self)@.with_end_headers(),
            has_flag(final(self)@.flags(), END_HEADERS),
    {
        proof {
            lemma_with_flag(self@.flags(), END_HEADERS, END_HEADERS);
        }
        match self {
            ContinuableFrame::Headers(headers) => {
                headers.flags = set_flag(headers.flags, END_HEADERS);
            },
            ContinuableFrame::PushPromise(push_promise) => {
                push_promise.flags = set_flag(push_promise.flags, END_HEADERS);
            },
        }
    }

    /// The stream of the header block.
    pub fn get_stream_id(&self) -> (id: StreamId)
        ensures
            id == self@.stream_id(),
    {
        match self {
            ContinuableFrame::Headers(headers) => headers.stream_id,
            ContinuableFrame::PushPromise(push_promise) => push_promise.stream_id,
        }
    }
}

/// What receiving one more frame makes of a header block.
#[derive(Clone, Debug, PartialEq, Eq)]
pub enum JoinStep {
    /// A frame to hand on: one that has nothing to do with header blocks,
    /// or a header block that is whole.
    Break(HttpFrame),
    /// A header block that is not whole yet.
    Continue(ContinuableFrame),
}

/// What a `JoinStep` holds.
pub enum JoinStepView {
    Break(HttpFrameView),
    Continue(ContinuableFrameView),
}

impl View for JoinStep {
    type V = JoinStepView;

    open spec fn view(&self) -> JoinStepView {
        match self {
            JoinStep::Break(f) => JoinStepView::Break(f@),
            JoinStep::Continue(c) => JoinStepView::Continue(c@),
        }
    }
}

/// An optional value with the view of what it holds.
pub open spec fn option_view<T: View>(o: Option<T>) -> Option<T::V> {
    match o {
        Some(t) => Some(t@),
        None => None,
    }
}

/// What the frame `frame` makes of the unfinished header block `pending`,
/// if there is one.
///
/// HEADERS and PUSH_PROMISE start a block: they are handed on where they
/// end it too and kept where they do not, and refused inside a block.
/// CONTINUATION needs a block of its own stream: its fragment goes behind
/// what was gathered, and where it ends the block the whole is handed on
/// with END_HEADERS set. Every other frame is handed on, and refused
/// inside a block.
pub open spec fn spec_join_step(pending: Option<ContinuableFrameView>, frame: HttpFrameView)
    -> Result<JoinStepView, Error> {
    match frame {
        HttpFrameView::Headers(h) => if pending.is_some() {
            Err(Error::Other(ContinuationError::GotHeaders))
        } else if h.is_headers_end() {
            Ok(JoinStepView::Break(frame))
        } else {
            Ok(JoinStepView::Continue(ContinuableFrameView::Headers(h)))
        },
        HttpFrameView::PushPromise(p) => if pending.is_some() {
            Err(Error::Other(ContinuationError::GotPushPromise))
        } else if p.is_headers_end() {
            Ok(JoinStepView::Break(frame))
        } else {
            Ok(JoinStepView::Continue(ContinuableFrameView::PushPromise(p)))
        },
        HttpFrameView::Continuation(c) => match pending {
            None => Err(Error::Other(ContinuationError::WithoutHeaders)),
            Some(h) => if h.stream_id() != c.stream_id {
                Err(Error::Other(ContinuationError::DifferentStream))
            } else if c.is_headers_end() {
                Ok(JoinStepView::Break(h.extended(c.header_fragment).with_end_headers().into_frame()))
            } else {
                Ok(JoinStepView::Continue(h.extended(c.header_fragment)))
            },
        },
        _ => if pending.is_some() {
            Err(Error::Other(ContinuationError::GotOther))
        } else {
            Ok(JoinStepView::Break(frame))
        },
    }
}

/// The gathered fragment and that of the frame fit one buffer together.
pub open spec fn join_fits(pending: Option<ContinuableFrameView>, frame: HttpFrameView) -> bool {
    match (pending, frame) {
        (Some(h), HttpFrameView::Continuation(c)) => h.header_fragment().len()
            + c.header_fragment.len() <= usize::MAX,
        _ => true,
    }
}

/// Takes one received frame into account: hands it on, joins it to the
/// unfinished header block, or refuses it.
pub fn join_cont_step(pending: Option<ContinuableFrame>, frame: HttpFrame) -> (r: Result<
    JoinStep,
    Error,
>)
    requires
        join_fits(option_view(pending), frame@),
    ensures
        crate::frame::header::result_view(r) == spec_join_step(option_view(pending), frame@),
{
    match frame {
        HttpFrame::Headers(h) => {
            if pending.is_some() {
                Err(Error::Other(ContinuationError::GotHeaders))
            } else if h.is_headers_end() {
                Ok(JoinStep::Break(HttpFrame::Headers(h)))
            } else {
                Ok(JoinStep::Continue(ContinuableFrame::Headers(h)))
            }
        },
        HttpFrame::PushPromise(p) => {
            if pending.is_some() {
                Err(Error::Other(ContinuationError::GotPushPromise))
            } else if p.is_headers_end() {
                Ok(JoinStep::Break(HttpFrame::PushPromise(p)))
            } else {
                Ok(JoinStep::Continue(ContinuableFrame::PushPromise(p)))
            }
        },
        HttpFrame::Continuation(c) => {
            match pending {
                Some(mut h) => {
                    if h.get_stream_id() != c.stream_id {
                        Err(Error::Other(ContinuationError::DifferentStream))
                    } else {
                        let header_end: bool = c.is_headers_end();
                        h.extend_header_fragment(c.header_fragment);
                        if header_end {
                            h.set_end_headers();
                            Ok(JoinStep::Break(h.into_frame()))
                        } else {
                            Ok(JoinStep::Continue(h))
                        }
                    }
                },
                None => Err(Error::Other(ContinuationError::WithoutHeaders)),
            }
        },
        f => {
            if pending.is_some() {
                Err(Error::Other(ContinuationError::GotOther))
            } else {
                Ok(JoinStep::Break(f))
            }
        },
    }
}

/// A header block sent as HEADERS without END_HEADERS and one CONTINUATION
/// with END_HEADERS for the same stream is handed on as one HEADERS frame
/// that holds both fragments in order and has END_HEADERS set.
pub proof fn lemma_join_two_fragments(h: HeadersFrameView, c: crate::frame::continuation::ContinuationFrameView)
    requires
        !h.is_headers_end(),
        c.is_headers_end(),
        c.stream_id == h.stream_id,
    ensures
        spec_join_step(None, HttpFrameView::Headers(h)) == Ok::<JoinStepView, Error>(
            JoinStepView::Continue(ContinuableFrameView::Headers(h)),
        ),
        spec_join_step(
            Some(ContinuableFrameView::Headers(h)),
            HttpFrameView::Continuation(c),
        ) matches Ok(JoinStepView::Break(HttpFrameView::Headers(joined))) && joined.header_fragment
            == h.header_fragment + c.header_fragment && joined.is_headers_end() && joined.stream_id
            == h.stream_id,
{
    lemma_with_flag(h.flags, END_HEADERS, END_HEADERS);
}

} // verus!
