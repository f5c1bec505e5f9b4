//! What holds of every connection, whatever the application asks and
//! whatever is written.

use crate::engine::model::{is_peer_id, ConnectionView, ControlFrame, QueuedView, StreamView};
use crate::engine::outbound::lemma_block_flags;
use crate::engine::proofs_inbound::evolves;
use crate::engine::table::{
    entry, quiet, quiet_but,
    lemma_found, lemma_reset_stream_wf, lemma_with_control_wf, lemma_with_new_stream,
    lemma_with_stream_wf,
};
use crate::error::ErrorCode;
use crate::frame::flags::lemma_unpad_padded;
use crate::frame::header::StreamId;
use crate::frame::http_frame::HttpFrameView;
use crate::stream_state::{StreamEvent, StreamState};
use crate::window::Window;
use vstd::prelude::*;

verus! {

/// One more entry at the end of the ordered queue leaves the invariant in
/// place, where the entry fits the wire, starts a block or resets a
/// stream, and is for a stream that may be written on.
pub proof fn lemma_with_ordered_wf(c: ConnectionView, q: QueuedView)
    requires
        c.wf(),
        c.failed.is_none(),
        q.wf(),
        !(q is Continuation),
        c.may_write_on(q.stream_id()),
    ensures
        (ConnectionView { ordered: c.ordered.push(q), ..c }).wf(),
{
    let d = ConnectionView { ordered: c.ordered.push(q), ..c };
    assert forall|i: int| 0 <= i < d.ordered.len() implies (#[trigger] d.ordered[i]).wf()
        && d.may_write_on(d.ordered[i].stream_id()) by {
        if i < c.ordered.len() {
            assert(d.ordered[i] == c.ordered[i]);
        }
    }
    assert forall|i: int| 0 < i < d.ordered.len() implies !(#[trigger] d.ordered[i] is Continuation) by {
        if i < c.ordered.len() {
            assert(d.ordered[i] == c.ordered[i]);
        }
    }
    assert(d.wf_streams()) by {
        assert forall|j: int| 0 <= j < d.streams.len() implies (#[trigger] d.streams[j]).wf()
            && d.was_used(d.streams[j].id) by {
            assert(c.streams[j].wf() && c.was_used(c.streams[j].id));
        }
    }
}

/// A stream that this side opens as its next keeps the invariant.
proof fn lemma_opened_locally(c: ConnectionView, s: StreamView, q: QueuedView)
    requires
        c.wf(),
        c.failed.is_none(),
        s.wf(),
        s.id == c.next_stream_id,
        q.wf(),
        !(q is Continuation),
        c.may_write_on(q.stream_id()),
    ensures
        (ConnectionView {
            next_stream_id: (s.id + 2) as u32,
            ordered: c.ordered.push(q),
            ..c.with_new_stream(s)
        }).wf(),
        evolves(
            c,
            ConnectionView {
                next_stream_id: (s.id + 2) as u32,
                ordered: c.ordered.push(q),
                ..c.with_new_stream(s)
            },
        ),
{
    let c1 = ConnectionView { next_stream_id: (s.id + 2) as u32, ..c };
    let d = ConnectionView {
        next_stream_id: (s.id + 2) as u32,
        ordered: c.ordered.push(q),
        ..c.with_new_stream(s)
    };
    assert(!c.has_stream(s.id)) by {
        if c.has_stream(s.id) {
            lemma_found(c, s.id);
            assert(c.was_used(c.streams[c.index_of(s.id)].id));
        }
    }
    assert(c1.wf_streams()) by {
        assert forall|j: int| 0 <= j < c1.streams.len() implies (#[trigger] c1.streams[j]).wf()
            && c1.was_used(c1.streams[j].id) by {
            assert(c.streams[j].wf() && c.was_used(c.streams[j].id));
        }
    }
    assert(forall|id: StreamId| c1.has_stream(id) == c.has_stream(id));
    lemma_with_new_stream(c1, s);
    let c2 = c1.with_new_stream(s);
    assert(c2.wf_queues()) by {
        assert forall|i: int| 0 <= i < c2.control.len() implies (#[trigger] c2.control[i]).wf() && (
        c2.may_write_on(c2.control[i].stream_id()) || c2.control[i].is_refusal()) by {
            assert(c.control[i].wf());
        }
        assert forall|i: int| 0 <= i < c2.ordered.len() implies (#[trigger] c2.ordered[i]).wf()
            && c2.may_write_on(c2.ordered[i].stream_id()) by {
            assert(c.ordered[i].wf());
        }
    }
    assert(c2.wf());
    lemma_with_ordered_wf(c2, q);
    assert(d == ConnectionView { ordered: c2.ordered.push(q), ..c2 });
    assert forall|id: StreamId| #[trigger] d.has_stream(id) && !c.has_stream(id)
        implies !c.was_used(id) by {
        assert(d.streams == c2.streams);
        assert(d.has_stream(id) == c2.has_stream(id));
        if id != s.id {
            assert(c2.has_stream(id) == c1.has_stream(id));
        }
    }
}

/// Starting a request keeps the invariant.
pub proof fn lemma_start_request(c: ConnectionView, block: Seq<u8>, end_stream: bool)
    requires
        c.wf(),
    ensures
        c.start_request(block, end_stream).0.wf(),
        evolves(c, c.start_request(block, end_stream).0),
        quiet(c, c.start_request(block, end_stream).0),
        c.start_request(block, end_stream).1 is Err ==> c.start_request(block, end_stream).0 == c,
{
    if c.start_request(block, end_stream).1 is Ok {
        let id = c.next_stream_id;
        let state = if end_stream {
            StreamState::HalfClosedLocal
        } else {
            StreamState::Open
        };
        let s = StreamView::fresh(
            id,
            state,
            c.peer_settings.initial_window_size,
            c.local_settings.initial_window_size,
        );
        assert(s.submitted =~= s.sent + s.pending);
        lemma_opened_locally(c, s, QueuedView::Headers { stream_id: id, block, end_stream });
    }
}

/// Promising a stream keeps the invariant.
pub proof fn lemma_push_promise(c: ConnectionView, id: StreamId, block: Seq<u8>)
    requires
        c.wf(),
    ensures
        c.push_promise(id, block).0.wf(),
        evolves(c, c.push_promise(id, block).0),
        quiet(c, c.push_promise(id, block).0),
        c.push_promise(id, block).1 is Err ==> c.push_promise(id, block).0 == c,
{
    if c.push_promise(id, block).1 is Ok {
        let promised = c.next_stream_id;
        let s = StreamView::fresh(
            promised,
            StreamState::ReservedLocal,
            c.peer_settings.initial_window_size,
            c.local_settings.initial_window_size,
        );
        assert(s.submitted =~= s.sent + s.pending);
        lemma_found(c, id);
        assert(c.streams[c.index_of(id)].wf() && c.was_used(c.streams[c.index_of(id)].id));
        lemma_opened_locally(
            c,
            s,
            QueuedView::PushPromise { stream_id: id, promised_stream_id: promised, block },
        );
    }
}

/// Sending a header block keeps the invariant.
pub proof fn lemma_send_headers(c: ConnectionView, id: StreamId, block: Seq<u8>, end_stream: bool)
    requires
        c.wf(),
    ensures
        c.send_headers(id, block, end_stream).0.wf(),
        evolves(c, c.send_headers(id, block, end_stream).0),
        quiet(c, c.send_headers(id, block, end_stream).0),
        c.send_headers(id, block, end_stream).1 is Err ==> c.send_headers(id, block, end_stream).0
            == c,
{
    let d = c.send_headers(id, block, end_stream).0;
    if c.send_headers(id, block, end_stream).1 is Ok {
        lemma_found(c, id);
        let i = c.index_of(id);
        let s = c.streams[i];
        assert(s.wf() && c.was_used(s.id));
        let state = s.state.next(StreamEvent::SendHeaders { end_stream }).unwrap();
        let s2 = StreamView { state, ..s };
        lemma_with_stream_wf(c, i, s2);
        let c1 = c.with_stream(i, s2);
        let q = QueuedView::Headers { stream_id: id, block, end_stream };
        lemma_with_ordered_wf(c1, q);
        assert(d == ConnectionView { ordered: c1.ordered.push(q), ..c1 });
        assert forall|other: StreamId| #[trigger] d.has_stream(other) && !c.has_stream(other)
            implies !c.was_used(other) by {
            assert(d.streams == c1.streams);
            assert(d.has_stream(other) == c1.has_stream(other));
        }
    }
}

/// Handing in body bytes keeps the invariant. What was handed in before
/// stays, and the new bytes stand behind it.
pub proof fn lemma_send_data(c: ConnectionView, id: StreamId, data: Seq<u8>, end_stream: bool)
    requires
        c.wf(),
    ensures
        c.send_data(id, data, end_stream).0.wf(),
        evolves(c, c.send_data(id, data, end_stream).0),
        c.send_data(id, data, end_stream).1 is Err ==> c.send_data(id, data, end_stream).0 == c,
        quiet_but(c, c.send_data(id, data, end_stream).0, id),
        c.send_data(id, data, end_stream).1 is Ok ==> {
            let d = c.send_data(id, data, end_stream).0;
            &&& c.has_stream(id)
            &&& d.has_stream(id)
            &&& d.streams[d.index_of(id)].submitted == c.streams[c.index_of(id)].submitted + data
            &&& d.streams[d.index_of(id)].sent == c.streams[c.index_of(id)].sent
        },
{
    if c.send_data(id, data, end_stream).1 is Ok {
        lemma_found(c, id);
        let i = c.index_of(id);
        let s = c.streams[i];
        assert(s.wf());
        let s2 = StreamView {
            pending: s.pending + data,
            pending_end: end_stream,
            submitted: s.submitted + data,
            ..s
        };
        assert(s2.submitted =~= s2.sent + s2.pending);
        lemma_with_stream_wf(c, i, s2);
    }
}

/// Giving up a stream keeps the invariant.
pub proof fn lemma_cancel(c: ConnectionView, id: StreamId)
    requires
        c.wf(),
    ensures
        c.cancel(id).0.wf(),
        evolves(c, c.cancel(id).0),
        quiet(c, c.cancel(id).0),
        c.cancel(id).1 is Err ==> c.cancel(id).0 == c,
{
    if c.cancel(id).1 is Ok {
        lemma_found(c, id);
        assert(c.streams[c.index_of(id)].wf() && c.was_used(c.streams[c.index_of(id)].id));
        lemma_reset_stream_wf(c, id, ErrorCode::Cancel);
    }
}

/// Shutting down keeps the invariant.
pub proof fn lemma_shutdown(c: ConnectionView)
    requires
        c.wf(),
    ensures
        c.shutdown().wf(),
        evolves(c, c.shutdown()),
        quiet(c, c.shutdown()),
{
    if !(c.failed.is_some() || c.goaway_sent.is_some()) {
        lemma_with_control_wf(
            c,
            ControlFrame::Goaway { last_stream_id: c.last_peer_stream_id, code: ErrorCode::NoError },
        );
    }
    assert(c.shutdown().streams == c.streams);
    assert(forall|id: StreamId| c.shutdown().has_stream(id) == c.has_stream(id));
}

/// A tick of the keepalive timer keeps the invariant.
pub proof fn lemma_tick(c: ConnectionView)
    requires
        c.wf(),
    ensures
        c.tick().0.wf(),
        evolves(c, c.tick().0),
        quiet(c, c.tick().0),
{
    let d = c.tick().0;
    if c.failed.is_none() && c.outstanding_ping.is_none() {
        lemma_with_control_wf(c, ControlFrame::Ping(c.next_ping));
        assert(d.streams == c.streams);
        assert(forall|id: StreamId| d.has_stream(id) == c.has_stream(id));
    }
}

/// The place that `first_ready` names lies in the range searched, and its
/// stream is ready; no ready stream stands before it in that range.
pub proof fn lemma_first_ready(c: ConnectionView, from: int, to: int)
    requires
        0 <= from,
        to <= c.streams.len(),
    ensures
        c.first_ready(from, to) matches Some(i) ==> from <= i < to && c.ready(c.streams[i])
            && forall|j: int| from <= j < i ==> !c.ready(#[trigger] c.streams[j]),
        c.first_ready(from, to) is None ==> forall|j: int|
            from <= j < to ==> !c.ready(#[trigger] c.streams[j]),
    decreases to - from,
{
    if from < to && !c.ready(c.streams[from]) {
        lemma_first_ready(c, from + 1, to);
    }
}

/// The stream that `pick` names is in the table and ready. Where `pick`
/// names none, no stream is ready.
pub proof fn lemma_pick(c: ConnectionView)
    requires
        c.cursor <= c.streams.len(),
    ensures
        c.pick() matches Some(i) ==> 0 <= i < c.streams.len() && c.ready(c.streams[i]),
        c.pick() is None ==> forall|j: int|
            0 <= j < c.streams.len() ==> !c.ready(#[trigger] c.streams[j]),
{
    lemma_first_ready(c, c.cursor as int, c.streams.len() as int);
    lemma_first_ready(c, 0, c.cursor as int);
}

/// Writing a DATA frame keeps the invariant and accounts for every byte.
///
/// The frame carries the bytes that waited first on the stream, no more
/// than the peer admits in one frame and no more than either window
/// holds. They leave both windows, neither of which goes below zero for
/// it. What has left the stream, with what still waits, is what the
/// application has handed in; and the frame that carries END_STREAM
/// leaves nothing waiting, so that all that was handed in has left.
pub proof fn lemma_emit_data(c: ConnectionView, i: int)
    requires
        c.wf(),
        0 <= i < c.streams.len(),
        c.ready(c.streams[i]),
    ensures
        c.emit_data(i).0.wf(),
        evolves(c, c.emit_data(i).0),
        quiet_but(c, c.emit_data(i).0, c.streams[i].id),
        c.emit_data(i).1 matches HttpFrameView::Data(f) && {
            let s = c.streams[i];
            let d = c.emit_data(i).0;
            &&& f.wf()
            &&& f.stream_id == s.id
            &&& f.data == s.pending.take(f.data.len() as int)
            &&& f.data.len() <= c.peer_settings.max_frame_size
            &&& f.data.len() <= c.send_window.size
            &&& f.data.len() <= s.pending.len()
            &&& s.pending.len() > 0 ==> 0 < f.data.len() <= s.send_window.size
            &&& d.send_window.size == c.send_window.size - f.data.len()
            &&& s.sent + f.data + s.pending.skip(f.data.len() as int) == s.submitted
            &&& f.is_end_of_stream() ==> s.sent + f.data == s.submitted
            &&& d.has_stream(s.id) ==> {
                &&& d.streams[d.index_of(s.id)].sent == s.sent + f.data
                &&& d.streams[d.index_of(s.id)].submitted == s.submitted
                &&& d.streams[d.index_of(s.id)].pending == s.pending.skip(f.data.len() as int)
                &&& d.streams[d.index_of(s.id)].send_window.size == s.send_window.size
                    - f.data.len()
            }
        },
{
    let s = c.streams[i];
    assert(s.wf() && c.was_used(s.id));
    let n = c.chunk_len(s);
    let end = s.pending_end && n == s.pending.len();
    lemma_block_flags(end, false);
    let state = if end {
        s.state.after_send_end()
    } else {
        s.state
    };
    let s2 = StreamView {
        state,
        send_window: Window { size: (s.send_window.size - n) as i32 },
        pending: s.pending.skip(n),
        pending_end: s.pending_end && !end,
        sent: s.sent + s.pending.take(n),
        ..s
    };
    assert(s.pending.take(n) + s.pending.skip(n) =~= s.pending);
    assert(s2.submitted =~= s2.sent + s2.pending);
    assert(s.sent + s.pending.take(n) + s.pending.skip(n) =~= s.submitted);
    if end {
        assert(s.pending.take(n) =~= s.pending);
        assert(s.pending.skip(n) =~= Seq::<u8>::empty());
        assert(s.sent + s.pending.take(n) =~= s.submitted);
    }
    let c1 = ConnectionView { send_window: Window { size: (c.send_window.size - n) as i32 }, ..c };
    assert(c1.wf()) by {
        assert(c1.wf_streams()) by {
            assert forall|j: int| 0 <= j < c1.streams.len() implies (#[trigger] c1.streams[j]).wf()
                && c1.was_used(c1.streams[j].id) by {
                assert(c.streams[j].wf() && c.was_used(c.streams[j].id));
            }
        }
        assert(c1.wf_queues()) by {
            assert forall|k: int| 0 <= k < c1.control.len() implies (#[trigger] c1.control[k]).wf()
                && (c1.may_write_on(c1.control[k].stream_id()) || c1.control[k].is_refusal()) by {
                assert(c.control[k].wf());
            }
            assert forall|k: int| 0 <= k < c1.ordered.len() implies (#[trigger] c1.ordered[k]).wf()
                && c1.may_write_on(c1.ordered[k].stream_id()) by {
                assert(c.ordered[k].wf());
            }
        }
    }
    lemma_with_stream_wf(c1, i, s2);
    let c2 = c1.with_stream(i, s2);
    let d = c.emit_data(i).0;
    assert(d.streams == c2.streams);
    assert(forall|id: StreamId| d.has_stream(id) == c2.has_stream(id));
    assert(forall|id: StreamId| d.index_of(id) == c2.index_of(id));
    assert(forall|id: StreamId| c1.has_stream(id) == c.has_stream(id));
    assert(d.wf()) by {
        assert(d.wf_streams()) by {
            assert forall|j: int| 0 <= j < d.streams.len() implies (#[trigger] d.streams[j]).wf()
                && d.was_used(d.streams[j].id) by {
                assert(c2.streams[j].wf() && c2.was_used(c2.streams[j].id));
            }
        }
        assert(d.wf_queues()) by {
            assert forall|k: int| 0 <= k < d.control.len() implies (#[trigger] d.control[k]).wf()
                && (d.may_write_on(d.control[k].stream_id()) || d.control[k].is_refusal()) by {
                assert(c2.control[k].wf());
            }
            assert forall|k: int| 0 <= k < d.ordered.len() implies (#[trigger] d.ordered[k]).wf()
                && d.may_write_on(d.ordered[k].stream_id()) by {
                assert(c2.ordered[k].wf());
            }
        }
    }
    lemma_unpad_padded(false, 0, s.pending.take(n));
}

/// A frame that can stand on the wire has a payload that a header can
/// state.
pub proof fn lemma_wf_fits(f: HttpFrameView)
    requires
        f.wf(),
    ensures
        f.fits(),
{
}

/// The frame is RST_STREAM with REFUSED_STREAM.
pub open spec fn is_refusal_frame(f: HttpFrameView) -> bool {
    f matches HttpFrameView::RstStream(r) && r.raw_error_code == ErrorCode::RefusedStream.wire()
}

/// A control frame that fits the wire is written as a frame that can
/// stand on the wire, for the same stream.
pub proof fn lemma_control_frame(f: ControlFrame)
    requires
        f.wf(),
    ensures
        f.frame().wf(),
        f.frame().stream_id() == f.stream_id(),
        is_refusal_frame(f.frame()) == f.is_refusal(),
{
    match f {
        ControlFrame::SettingsAck => {
            crate::frame::settings::lemma_settings_bytes_len(Seq::empty());
        },
        ControlFrame::RstStream { stream_id, code } => {
            ErrorCode::lemma_of_wire_wire(code);
            ErrorCode::lemma_of_wire_wire(ErrorCode::RefusedStream);
        },
        _ => {},
    }
}

/// Writing from the ordered queue keeps the invariant, and the frame
/// written can stand on the wire and is for the stream of the entry.
pub proof fn lemma_emit_ordered(c: ConnectionView)
    requires
        c.wf(),
        c.ordered.len() > 0,
    ensures
        c.emit_ordered().0.wf(),
        evolves(c, c.emit_ordered().0),
        quiet(c, c.emit_ordered().0),
        c.emit_ordered().1.wf(),
        c.emit_ordered().1.stream_id() == c.ordered[0].stream_id(),
        !is_refusal_frame(c.emit_ordered().1) || c.may_write_on(c.ordered[0].stream_id()),
{
    let d = c.emit_ordered().0;
    let f = c.emit_ordered().1;
    let max = c.peer_settings.max_frame_size as int;
    let q = c.ordered[0];
    assert(q.wf() && c.may_write_on(q.stream_id()));
    assert(d.streams == c.streams);
    assert(forall|id: StreamId| d.has_stream(id) == c.has_stream(id));
    assert(d.wf_streams()) by {
        assert forall|j: int| 0 <= j < d.streams.len() implies (#[trigger] d.streams[j]).wf()
            && d.was_used(d.streams[j].id) by {
            assert(c.streams[j].wf() && c.was_used(c.streams[j].id));
        }
    }
    assert(d.wf_queues()) by {
        assert forall|k: int| 0 <= k < d.control.len() implies (#[trigger] d.control[k]).wf() && (
        d.may_write_on(d.control[k].stream_id()) || d.control[k].is_refusal()) by {
            assert(c.control[k].wf());
        }
        assert forall|k: int| 0 <= k < d.ordered.len() implies (#[trigger] d.ordered[k]).wf()
            && d.may_write_on(d.ordered[k].stream_id()) by {
            if d.ordered.len() == c.ordered.len() {
                if k > 0 {
                    assert(d.ordered[k] == c.ordered[k]);
                }
            } else {
                assert(d.ordered[k] == c.ordered[k + 1]);
            }
        }
        assert forall|k: int| 0 < k < d.ordered.len() implies !(#[trigger] d.ordered[k] is Continuation) by {
            if d.ordered.len() == c.ordered.len() {
                assert(d.ordered[k] == c.ordered[k]);
            } else {
                assert(d.ordered[k] == c.ordered[k + 1]);
            }
        }
    }
    match q {
        QueuedView::Headers { stream_id, block, end_stream } => {
            let whole = block.len() <= max;
            lemma_block_flags(end_stream, whole);
            let fragment = if whole {
                block
            } else {
                block.take(max)
            };
            lemma_unpad_padded(false, 0, fragment);
        },
        QueuedView::PushPromise { stream_id, promised_stream_id, block } => {
            let whole = block.len() <= max - 4;
            lemma_block_flags(false, whole);
            let fragment = if whole {
                block
            } else {
                block.take(max - 4)
            };
            lemma_unpad_padded(
                false,
                0,
                crate::wire::bytes32(promised_stream_id as int % 0x8000_0000) + fragment,
            );
        },
        QueuedView::Continuation { stream_id, block } => {
            let whole = block.len() <= max;
            lemma_block_flags(false, whole);
        },
        QueuedView::RstStream { stream_id, code } => {},
    }
}

/// Writing the next frame keeps the invariant. The frame can stand on the
/// wire; and where it belongs to a stream of the peer, the peer has
/// opened that stream, unless the frame refuses it.
pub proof fn lemma_poll(c: ConnectionView)
    requires
        c.wf(),
    ensures
        c.poll().0.wf(),
        evolves(c, c.poll().0),
        c.poll().1 matches Some(f) ==> f.wf() && (c.may_write_on(f.stream_id())
            || is_refusal_frame(f)),
{
    let d = c.poll().0;
    if c.ordered.len() > 0 && c.ordered[0] is Continuation {
        lemma_emit_ordered(c);
    } else if c.control.len() > 0 {
        assert(c.control[0].wf());
        lemma_control_frame(c.control[0]);
        assert(d.streams == c.streams);
        assert(forall|id: StreamId| d.has_stream(id) == c.has_stream(id));
        assert(d.wf_streams()) by {
            assert forall|j: int| 0 <= j < d.streams.len() implies (#[trigger] d.streams[j]).wf()
                && d.was_used(d.streams[j].id) by {
                assert(c.streams[j].wf() && c.was_used(c.streams[j].id));
            }
        }
        assert(d.wf_queues()) by {
            assert forall|k: int| 0 <= k < d.control.len() implies (#[trigger] d.control[k]).wf()
                && (d.may_write_on(d.control[k].stream_id()) || d.control[k].is_refusal()) by {
                assert(d.control[k] == c.control[k + 1]);
            }
            assert forall|k: int| 0 <= k < d.ordered.len() implies (#[trigger] d.ordered[k]).wf()
                && d.may_write_on(d.ordered[k].stream_id()) by {
                assert(c.ordered[k].wf());
            }
        }
    } else if c.ordered.len() > 0 {
        lemma_emit_ordered(c);
    } else {
        lemma_pick(c);
        match c.pick() {
            Some(i) => {
                lemma_emit_data(c, i);
                assert(c.streams[i].wf() && c.was_used(c.streams[i].id));
            },
            None => {},
        }
    }
}

/// The stream that GOAWAY has named stays the same whatever the
/// connection becomes, and stays the highest that the peer has opened.
pub proof fn lemma_goaway_is_kept(a: ConnectionView, b: ConnectionView, l: StreamId)
    requires
        a.wf(),
        b.wf(),
        evolves(a, b),
        a.goaway_sent == Some(l),
    ensures
        b.goaway_sent == Some(l),
        b.last_peer_stream_id == l,
{
}

} // verus!
