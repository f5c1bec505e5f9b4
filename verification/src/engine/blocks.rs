//! Header blocks on their way: the frames in which a block is written
//! follow each other, and joined by the receiver they give the block back.

use crate::engine::model::{ConnectionView, QueuedView};
use crate::engine::outbound::{block_flags, lemma_block_flags};
use crate::engine::proofs_outbound::lemma_poll;
use crate::error::Error;
use crate::frame::continuation::ContinuationFrameView;
use crate::frame::flags::{with_flag, END_HEADERS};
use crate::frame::headers::HeadersFrameView;
use crate::frame::http_frame::HttpFrameView;
use crate::frame::push_promise::PushPromiseFrameView;
use crate::frame::rst_stream::RstStreamFrame;
use crate::join::{spec_join_step, ContinuableFrameView, JoinStepView};
use vstd::prelude::*;

verus! {

/// The bytes of a header block that an entry of the ordered queue still
/// has to write.
pub open spec fn block_of(q: QueuedView) -> Seq<u8> {
    match q {
        QueuedView::Headers { block, .. } => block,
        QueuedView::PushPromise { block, .. } => block,
        QueuedView::Continuation { block, .. } => block,
        QueuedView::RstStream { .. } => Seq::empty(),
    }
}

/// The frames in which an entry of the ordered queue is written, first to
/// last, where a frame may hold `max` bytes.
pub open spec fn block_frames(q: QueuedView, max: int) -> Seq<HttpFrameView>
    decreases block_of(q).len(),
{
    if max <= 4 {
        Seq::empty()
    } else {
        match q {
            QueuedView::Headers { stream_id, block, end_stream } => if block.len() <= max {
                seq![
                    HttpFrameView::Headers(
                        HeadersFrameView {
                            stream_id,
                            flags: block_flags(end_stream, true),
                            header_fragment: block,
                            stream_dep: None,
                            padding_len: 0,
                        },
                    ),
                ]
            } else {
                seq![
                    HttpFrameView::Headers(
                        HeadersFrameView {
                            stream_id,
                            flags: block_flags(end_stream, false),
                            header_fragment: block.take(max),
                            stream_dep: None,
                            padding_len: 0,
                        },
                    ),
                ] + block_frames(
                    QueuedView::Continuation { stream_id, block: block.skip(max) },
                    max,
                )
            },
            QueuedView::PushPromise { stream_id, promised_stream_id, block } => if block.len()
                <= max - 4 {
                seq![
                    HttpFrameView::PushPromise(
                        PushPromiseFrameView {
                            stream_id,
                            flags: block_flags(false, true),
                            promised_stream_id,
                            header_fragment: block,
                            padding_len: 0,
                        },
                    ),
                ]
            } else {
                seq![
                    HttpFrameView::PushPromise(
                        PushPromiseFrameView {
                            stream_id,
                            flags: block_flags(false, false),
                            promised_stream_id,
                            header_fragment: block.take(max - 4),
                            padding_len: 0,
                        },
                    ),
                ] + block_frames(
                    QueuedView::Continuation { stream_id, block: block.skip(max - 4) },
                    max,
                )
            },
            QueuedView::Continuation { stream_id, block } => if block.len() <= max {
                seq![
                    HttpFrameView::Continuation(
                        ContinuationFrameView {
                            stream_id,
                            flags: block_flags(false, true),
                            header_fragment: block,
                        },
                    ),
                ]
            } else {
                seq![
                    HttpFrameView::Continuation(
                        ContinuationFrameView {
                            stream_id,
                            flags: block_flags(false, false),
                            header_fragment: block.take(max),
                        },
                    ),
                ] + block_frames(
                    QueuedView::Continuation { stream_id, block: block.skip(max) },
                    max,
                )
            },
            QueuedView::RstStream { stream_id, code } => seq![
                HttpFrameView::RstStream(
                    RstStreamFrame { stream_id, flags: 0, raw_error_code: code.wire() },
                ),
            ],
        }
    }
}

/// The frames that the next `n` polls write, first to last, and the
/// connection afterwards. A poll that writes nothing adds nothing.
pub open spec fn polls(c: ConnectionView, n: nat) -> (ConnectionView, Seq<HttpFrameView>)
    decreases n,
{
    if n == 0 {
        (c, Seq::empty())
    } else {
        let first = c.poll();
        let rest = polls(first.0, (n - 1) as nat);
        match first.1 {
            Some(f) => (rest.0, seq![f] + rest.1),
            None => (rest.0, rest.1),
        }
    }
}

/// The frames of a header block are written one after the other, and
/// nothing between them: once the first entry of the ordered queue has
/// its turn, the next polls write exactly the frames of that entry, and
/// then the entry is gone.
pub proof fn lemma_block_is_written_whole(c: ConnectionView)
    requires
        c.wf(),
        c.ordered.len() > 0,
        c.control.len() == 0 || c.ordered[0] is Continuation,
    ensures
        ({
            let frames = block_frames(c.ordered[0], c.peer_settings.max_frame_size as int);
            &&& frames.len() > 0
            &&& polls(c, frames.len()).1 == frames
            &&& polls(c, frames.len()).0.ordered == c.ordered.skip(1)
        }),
    decreases block_of(c.ordered[0]).len(),
{
    let max = c.peer_settings.max_frame_size as int;
    let q = c.ordered[0];
    let frames = block_frames(q, max);
    let d = c.poll().0;
    lemma_poll(c);
    assert(c.poll() == (c.emit_ordered().0, Some(c.emit_ordered().1)));
    if d.ordered.len() == c.ordered.len() && d.ordered == c.ordered.update(0, d.ordered[0])
        && d.ordered[0] is Continuation && block_of(d.ordered[0]).len() < block_of(q).len() {
        assert(d.peer_settings == c.peer_settings);
        lemma_block_is_written_whole(d);
        let rest = block_frames(d.ordered[0], max);
        assert(frames == seq![c.emit_ordered().1] + rest);
        assert(polls(c, frames.len()).1 =~= seq![c.emit_ordered().1] + polls(d, rest.len()).1);
        assert(d.ordered.skip(1) =~= c.ordered.skip(1));
    } else {
        assert(frames == seq![c.emit_ordered().1]);
        assert(polls(d, 0).1 =~= Seq::<HttpFrameView>::empty());
        assert(polls(c, 1).1 =~= seq![c.emit_ordered().1]);
        assert(d.ordered == c.ordered.skip(1));
    }
}

/// What the receiver makes of a row of frames: each is taken into account
/// as `spec_join_step` says; every frame but the last has to leave a
/// header block open, and the last gives the result.
pub open spec fn join_all(pending: Option<ContinuableFrameView>, frames: Seq<HttpFrameView>)
    -> Result<JoinStepView, Error>
    decreases frames.len(),
{
    if frames.len() == 0 {
        match pending {
            Some(p) => Ok(JoinStepView::Continue(p)),
            None => Err(Error::UnexpectedEof),
        }
    } else {
        match spec_join_step(pending, frames[0]) {
            Err(e) => Err(e),
            Ok(JoinStepView::Break(f)) => if frames.len() == 1 {
                Ok(JoinStepView::Break(f))
            } else {
                Err(Error::UnexpectedEof)
            },
            Ok(JoinStepView::Continue(p)) => if frames.len() == 1 {
                Ok(JoinStepView::Continue(p))
            } else {
                join_all(Some(p), frames.skip(1))
            },
        }
    }
}

/// The rest of a header block, written as CONTINUATION frames and joined
/// to the frame that started the block, gives that frame with the rest
/// behind its fragment and END_HEADERS set.
pub proof fn lemma_continuations_join(h: ContinuableFrameView, rest: Seq<u8>, max: int)
    requires
        max > 4,
        !crate::frame::flags::has_flag(h.flags(), END_HEADERS),
    ensures
        join_all(
            Some(h),
            block_frames(QueuedView::Continuation { stream_id: h.stream_id(), block: rest }, max),
        ) == Ok::<JoinStepView, Error>(
            JoinStepView::Break(h.extended(rest).with_end_headers().into_frame()),
        ),
    decreases rest.len(),
{
    let id = h.stream_id();
    let q = QueuedView::Continuation { stream_id: id, block: rest };
    let frames = block_frames(q, max);
    if rest.len() <= max {
        lemma_block_flags(false, true);
    } else {
        lemma_block_flags(false, false);
        let h2 = h.extended(rest.take(max));
        lemma_continuations_join(h2, rest.skip(max), max);
        let tail = block_frames(QueuedView::Continuation { stream_id: id, block: rest.skip(max) }, max);
        assert(frames.skip(1) =~= tail);
        assert(rest.take(max) + rest.skip(max) =~= rest);
        assert(h.header_fragment() + rest.take(max) + rest.skip(max) =~= h.header_fragment() + rest);
        assert(h2.extended(rest.skip(max)) == h.extended(rest));
        assert(tail.len() > 0);
    }
}

/// A header block that is written as HEADERS and CONTINUATION frames is
/// joined by the receiver to one HEADERS frame, which holds the whole
/// block and has END_HEADERS set, and END_STREAM where the block ends the
/// stream.
pub proof fn lemma_headers_join(stream_id: u32, block: Seq<u8>, end_stream: bool, max: int)
    requires
        max > 4,
    ensures
        join_all(None, block_frames(QueuedView::Headers { stream_id, block, end_stream }, max))
            == Ok::<JoinStepView, Error>(
            JoinStepView::Break(
                HttpFrameView::Headers(
                    HeadersFrameView {
                        stream_id,
                        flags: block_flags(end_stream, true),
                        header_fragment: block,
                        stream_dep: None,
                        padding_len: 0,
                    },
                ),
            ),
        ),
{
    let q = QueuedView::Headers { stream_id, block, end_stream };
    let frames = block_frames(q, max);
    lemma_block_flags(end_stream, true);
    lemma_block_flags(end_stream, false);
    if block.len() > max {
        let h = HeadersFrameView {
            stream_id,
            flags: block_flags(end_stream, false),
            header_fragment: block.take(max),
            stream_dep: None,
            padding_len: 0,
        };
        let start = ContinuableFrameView::Headers(h);
        lemma_continuations_join(start, block.skip(max), max);
        let tail = block_frames(QueuedView::Continuation { stream_id, block: block.skip(max) }, max);
        assert(frames.skip(1) =~= tail);
        assert(block.take(max) + block.skip(max) =~= block);
        assert(with_flag(block_flags(end_stream, false), END_HEADERS) == block_flags(
            end_stream,
            true,
        )) by {
            assert(0x0u8 | 0x4 == 0x4 && 0x1u8 | 0x4 == 0x5) by (bit_vector);
        }
        assert(tail.len() > 0);
    }
}

} // verus!
