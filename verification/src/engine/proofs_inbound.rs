//! What holds of every connection, whatever is received.

use crate::engine::inbound::{adjust_all, all_adjustable};
use crate::engine::model::{is_peer_id, ConnectionView, ControlFrame, StreamView};
use crate::engine::table::{quiet, lemma_found, lemma_reset_stream_wf, lemma_with_control_wf, lemma_with_new_stream, lemma_with_stream_wf, lemma_without_stream_wf};
use crate::engine::model::Failure;
use crate::error::{ContinuationError, Error, ErrorCode};
use crate::frame::data::DataFrameView;
use crate::frame::goaway::GoawayFrameView;
use crate::frame::header::{StreamId, MAX_STREAM_ID};
use crate::frame::headers::HeadersFrameView;
use crate::frame::http_frame::HttpFrameView;
use crate::frame::ping::PingFrame;
use crate::frame::priority::PriorityFrame;
use crate::frame::push_promise::PushPromiseFrameView;
use crate::frame::rst_stream::RstStreamFrame;
use crate::frame::settings::SettingsFrameView;
use crate::frame::window_update::WindowUpdateFrame;
use crate::stream_state::{StreamEvent, StreamState};
use crate::window::{Window, DEFAULT_WINDOW_SIZE};
use vstd::prelude::*;

verus! {

/// The connection `b` is one that `a` may become: the role is the same,
/// the counters of used identifiers have not gone back, a GOAWAY that was
/// sent names the same stream as before, and a stream that has come into
/// the table had an identifier that was not used before.
pub open spec fn evolves(a: ConnectionView, b: ConnectionView) -> bool {
    &&& b.role == a.role
    &&& b.next_stream_id >= a.next_stream_id
    &&& b.last_peer_stream_id >= a.last_peer_stream_id
    &&& a.goaway_sent.is_some() ==> b.goaway_sent == a.goaway_sent
    &&& forall|id: StreamId| #[trigger] b.has_stream(id) && !a.has_stream(id) ==> !a.was_used(id)
}

/// A connection error is a change that a connection may make.
pub proof fn lemma_fail(c: ConnectionView, code: ErrorCode)
    requires
        c.wf(),
    ensures
        c.fail(code).0.wf(),
        evolves(c, c.fail(code).0),
        quiet(c, c.fail(code).0),
{
    let d = c.fail(code).0;
    assert forall|id: StreamId| #[trigger] d.has_stream(id) && !c.has_stream(id)
        implies !c.was_used(id) by {}
}

/// Taking bytes from the receive window of the connection keeps the
/// invariant and leaves the table as it is.
pub proof fn lemma_take_recv_wf(c: ConnectionView, n: nat)
    requires
        c.wf(),
        n <= c.recv_window.size,
    ensures
        c.take_recv(n).wf(),
        c.take_recv(n).streams == c.streams,
{
    lemma_take_recv(c, n);
}

proof fn lemma_take_recv(c: ConnectionView, n: nat)
    requires
        c.wf(),
        n <= c.recv_window.size,
    ensures
        c.take_recv(n).wf(),
        c.take_recv(n).streams == c.streams,
        c.take_recv(n).ordered == c.ordered,
        c.take_recv(n).role == c.role,
        c.take_recv(n).next_stream_id == c.next_stream_id,
        c.take_recv(n).last_peer_stream_id == c.last_peer_stream_id,
        c.take_recv(n).goaway_sent == c.goaway_sent,
        c.take_recv(n).local_settings == c.local_settings,
        c.take_recv(n).cursor == c.cursor,
{
    let w = Window { size: (c.recv_window.size - n) as i32 };
    match w.spec_refill(DEFAULT_WINDOW_SIZE) {
        Some(inc) => {
            let c1 = ConnectionView { recv_window: Window { size: DEFAULT_WINDOW_SIZE as i32 }, ..c };
            assert(c1.wf());
            lemma_with_control_wf(c1, ControlFrame::WindowUpdate { stream_id: 0, increment: inc });
            assert(c.take_recv(n) == c1.with_control(
                ControlFrame::WindowUpdate { stream_id: 0, increment: inc },
            ));
        },
        None => {},
    }
}

proof fn lemma_same_table(a: ConnectionView, b: ConnectionView)
    ensures
        a.streams == b.streams ==> forall|id: StreamId| a.has_stream(id) == b.has_stream(id),
        a.streams == b.streams ==> forall|id: StreamId| a.index_of(id) == b.index_of(id),
{
}

proof fn lemma_adjust_all(c: ConnectionView, delta: i64)
    requires
        c.wf_streams(),
        all_adjustable(c.streams, delta),
    ensures
        (ConnectionView { streams: adjust_all(c.streams, delta), ..c }).wf_streams(),
        forall|id: StreamId|
            (ConnectionView { streams: adjust_all(c.streams, delta), ..c }).has_stream(id)
                == c.has_stream(id),
{
    let d = ConnectionView { streams: adjust_all(c.streams, delta), ..c };
    assert forall|j: int| 0 <= j < d.streams.len() implies d.streams[j].id == c.streams[j].id
        && (#[trigger] d.streams[j]).wf() && d.was_used(d.streams[j].id) by {
        assert(c.streams[j].wf());
    }
    assert(d.ids_unique()) by {
        assert forall|j: int, k: int|
            0 <= j < d.streams.len() && 0 <= k < d.streams.len() && j != k implies #[trigger] d.streams[j].id
            != #[trigger] d.streams[k].id by {
            assert(d.streams[j].id == c.streams[j].id);
            assert(d.streams[k].id == c.streams[k].id);
        }
    }
    assert forall|id: StreamId| d.has_stream(id) == c.has_stream(id) by {
        if c.has_stream(id) {
            let k = c.index_of(id);
            assert(d.streams[k].id == id);
        }
        if d.has_stream(id) {
            let k = d.index_of(id);
            assert(c.streams[k].id == id);
        }
    }
}

/// Receiving SETTINGS keeps the invariant.
pub proof fn lemma_on_settings(c: ConnectionView, f: SettingsFrameView)
    requires
        c.wf(),
    ensures
        c.on_settings(f).0.wf(),
        evolves(c, c.on_settings(f).0),
        quiet(c, c.on_settings(f).0),
{
    let d = c.on_settings(f).0;
    if f.is_ack() {
        if c.unacked_settings == 0 {
            lemma_fail(c, ErrorCode::ProtocolError);
        } else {
            lemma_same_table(c, d);
        }
    } else if !crate::frame::settings::all_settings_wf(f.settings) {
        lemma_fail(c, ErrorCode::ProtocolError);
    } else {
        let peer = c.peer_settings.spec_apply_all(f.settings);
        c.peer_settings.lemma_apply_all_wf(f.settings);
        let delta = (peer.initial_window_size - c.peer_settings.initial_window_size) as i64;
        if !all_adjustable(c.streams, delta) {
            lemma_fail(c, ErrorCode::FlowControlError);
        } else {
            lemma_adjust_all(c, delta);
            let c1 = ConnectionView { streams: adjust_all(c.streams, delta), ..c };
            let c2 = ConnectionView {
                peer_settings: peer,
                peer_unknown_settings: d.peer_unknown_settings,
                peer_settings_seen: true,
                ..c1
            };
            assert(c2.wf_streams()) by {
                assert forall|j: int| 0 <= j < c2.streams.len() implies (#[trigger] c2.streams[j]).wf()
                    && c2.was_used(c2.streams[j].id) by {
                    assert(c1.streams[j].wf() && c1.was_used(c1.streams[j].id));
                }
            }
            assert(c2.wf());
            lemma_with_control_wf(c2, ControlFrame::SettingsAck);
            assert(d == c2.with_control(ControlFrame::SettingsAck));
            lemma_same_table(c1, d);
        }
    }
}

/// Receiving PING keeps the invariant.
pub proof fn lemma_on_ping(c: ConnectionView, f: PingFrame)
    requires
        c.wf(),
    ensures
        c.on_ping(f).0.wf(),
        evolves(c, c.on_ping(f).0),
        quiet(c, c.on_ping(f).0),
{
    let d = c.on_ping(f).0;
    if !f.spec_is_ack() {
        lemma_with_control_wf(c, ControlFrame::PingAck(f.opaque_data));
    }
    lemma_same_table(c, d);
}

/// Receiving WINDOW_UPDATE keeps the invariant.
pub proof fn lemma_on_window_update(c: ConnectionView, f: WindowUpdateFrame)
    requires
        c.wf(),
        f.stream_id <= MAX_STREAM_ID,
    ensures
        c.on_window_update(f).0.wf(),
        evolves(c, c.on_window_update(f).0),
        quiet(c, c.on_window_update(f).0),
{
    let d = c.on_window_update(f).0;
    let id = f.stream_id;
    lemma_fail(c, ErrorCode::ProtocolError);
    lemma_fail(c, ErrorCode::FlowControlError);
    if id == 0 {
        lemma_same_table(c, d);
    } else if c.has_stream(id) {
        lemma_found(c, id);
        let i = c.index_of(id);
        let s = c.streams[i];
        lemma_reset_stream_wf(c, id, ErrorCode::ProtocolError);
        lemma_reset_stream_wf(c, id, ErrorCode::FlowControlError);
        if f.increment != 0 {
            match s.send_window.spec_credit(f.increment) {
                None => {},
                Some(w) => {
                    lemma_with_stream_wf(c, i, StreamView { send_window: w, ..s });
                },
            }
        }
    } else {
        lemma_same_table(c, d);
    }
}

/// Receiving HEADERS keeps the invariant.
pub proof fn lemma_on_headers(c: ConnectionView, f: HeadersFrameView)
    requires
        c.wf(),
        c.failed.is_none(),
        f.stream_id <= MAX_STREAM_ID,
    ensures
        c.on_headers(f).0.wf(),
        evolves(c, c.on_headers(f).0),
        quiet(c, c.on_headers(f).0),
{
    let d = c.on_headers(f).0;
    let id = f.stream_id;
    let end = f.is_end_of_stream();
    lemma_fail(c, ErrorCode::ProtocolError);
    if !f.is_headers_end() {
    } else if c.has_stream(id) {
        lemma_found(c, id);
        let i = c.index_of(id);
        let s = c.streams[i];
        match s.state.next(StreamEvent::RecvHeaders { end_stream: end }) {
            None => {},
            Some(state) => {
                let s2 = StreamView {
                    state,
                    priority: if f.stream_dep.is_some() {
                        f.stream_dep
                    } else {
                        s.priority
                    },
                    ..s
                };
                lemma_with_stream_wf(c, i, s2);
            },
        }
    } else if is_peer_id(c.role, id) && id > c.last_peer_stream_id {
        if c.role is Client {
        } else if c.goaway_sent.is_some() {
            lemma_with_control_wf(
                c,
                ControlFrame::RstStream { stream_id: id, code: ErrorCode::RefusedStream },
            );
            lemma_same_table(c, d);
        } else {
            let state = if end {
                StreamState::HalfClosedRemote
            } else {
                StreamState::Open
            };
            let s = StreamView {
                priority: f.stream_dep,
                ..StreamView::fresh(
                    id,
                    state,
                    c.peer_settings.initial_window_size,
                    c.local_settings.initial_window_size,
                )
            };
            lemma_opened_by_peer(c, s);
        }
    }
}

/// A stream that the peer opens above all that it has opened keeps the
/// invariant.
proof fn lemma_opened_by_peer(c: ConnectionView, s: StreamView)
    requires
        c.wf(),
        c.goaway_sent.is_none(),
        c.failed.is_none(),
        s.wf(),
        is_peer_id(c.role, s.id),
        s.id > c.last_peer_stream_id,
    ensures
        (ConnectionView { last_peer_stream_id: s.id, ..c.with_new_stream(s) }).wf(),
        evolves(c, ConnectionView { last_peer_stream_id: s.id, ..c.with_new_stream(s) }),
        s.sent == Seq::<u8>::empty() && s.submitted == Seq::<u8>::empty() ==> quiet(
            c,
            ConnectionView { last_peer_stream_id: s.id, ..c.with_new_stream(s) },
        ),
{
    let c1 = ConnectionView { last_peer_stream_id: s.id, ..c };
    let d = ConnectionView { last_peer_stream_id: s.id, ..c.with_new_stream(s) };
    assert(!c.has_stream(s.id)) by {
        if c.has_stream(s.id) {
            lemma_found(c, s.id);
            assert(c.was_used(c.streams[c.index_of(s.id)].id));
        }
    }
    assert(c1.wf_streams()) by {
        assert forall|j: int| 0 <= j < c1.streams.len() implies (#[trigger] c1.streams[j]).wf()
            && c1.was_used(c1.streams[j].id) by {
            assert(c.streams[j].wf() && c.was_used(c.streams[j].id));
        }
    }
    lemma_same_table(c, c1);
    lemma_with_new_stream(c1, s);
    assert(d == c1.with_new_stream(s));
    assert(d.wf_queues()) by {
        assert forall|i: int| 0 <= i < d.control.len() implies (#[trigger] d.control[i]).wf() && (
        d.may_write_on(d.control[i].stream_id()) || d.control[i].is_refusal()) by {
            assert(c.control[i].wf());
        }
        assert forall|i: int| 0 <= i < d.ordered.len() implies (#[trigger] d.ordered[i]).wf()
            && d.may_write_on(d.ordered[i].stream_id()) by {
            assert(c.ordered[i].wf());
        }
    }
    assert forall|id: StreamId| #[trigger] d.has_stream(id) && !c.has_stream(id)
        implies !c.was_used(id) by {
        if id != s.id {
            assert(c1.has_stream(id) == c.has_stream(id));
        }
    }
}

/// Receiving DATA keeps the invariant.
pub proof fn lemma_on_data(c: ConnectionView, f: DataFrameView)
    requires
        c.wf(),
        f.stream_id <= MAX_STREAM_ID,
    ensures
        c.on_data(f).0.wf(),
        evolves(c, c.on_data(f).0),
        quiet(c, c.on_data(f).0),
{
    let d = c.on_data(f).0;
    let id = f.stream_id;
    let n = f.payload().len();
    let end = f.is_end_of_stream();
    lemma_fail(c, ErrorCode::ProtocolError);
    lemma_fail(c, ErrorCode::FlowControlError);
    if n > c.recv_window.size {
    } else {
        lemma_take_recv(c, n);
        let c1 = c.take_recv(n);
        lemma_same_table(c, c1);
        if !c.has_stream(id) {
            if c.was_used(id) {
                lemma_with_control_wf(
                    c1,
                    ControlFrame::RstStream { stream_id: id, code: ErrorCode::StreamClosed },
                );
                lemma_same_table(c1, d);
            }
        } else {
            lemma_found(c, id);
            let i = c.index_of(id);
            let s = c.streams[i];
            assert(s.wf() && c.was_used(s.id));
            match s.state.next(StreamEvent::RecvData { end_stream: end }) {
                None => {},
                Some(state) => {
                    if n > s.recv_window.size {
                        lemma_reset_stream_wf(c1, id, ErrorCode::FlowControlError);
                    } else {
                        let w = Window { size: (s.recv_window.size - n) as i32 };
                        let refill = if end {
                            None
                        } else {
                            w.spec_refill(c.local_settings.initial_window_size)
                        };
                        match refill {
                            Some(inc) => {
                                let s2 = StreamView {
                                    state,
                                    recv_window: Window {
                                        size: c.local_settings.initial_window_size as i32,
                                    },
                                    ..s
                                };
                                lemma_with_stream_wf(c1, i, s2);
                                lemma_with_control_wf(
                                    c1.with_stream(i, s2),
                                    ControlFrame::WindowUpdate { stream_id: id, increment: inc },
                                );
                                lemma_same_table(c1.with_stream(i, s2), d);
                            },
                            None => {
                                let s2 = StreamView { state, recv_window: w, ..s };
                                lemma_with_stream_wf(c1, i, s2);
                            },
                        }
                    }
                },
            }
        }
    }
}

/// Receiving RST_STREAM keeps the invariant.
pub proof fn lemma_on_rst_stream(c: ConnectionView, f: RstStreamFrame)
    requires
        c.wf(),
    ensures
        c.on_rst_stream(f).0.wf(),
        evolves(c, c.on_rst_stream(f).0),
        quiet(c, c.on_rst_stream(f).0),
{
    let id = f.stream_id;
    lemma_fail(c, ErrorCode::ProtocolError);
    if c.has_stream(id) {
        lemma_found(c, id);
        lemma_without_stream_wf(c, c.index_of(id));
    }
}

/// Receiving GOAWAY keeps the invariant.
pub proof fn lemma_on_goaway(c: ConnectionView, f: GoawayFrameView)
    requires
        c.wf(),
    ensures
        c.on_goaway(f).0.wf(),
        evolves(c, c.on_goaway(f).0),
        quiet(c, c.on_goaway(f).0),
{
    lemma_fail(c, ErrorCode::ProtocolError);
    lemma_same_table(c, c.on_goaway(f).0);
}

/// Receiving PUSH_PROMISE keeps the invariant.
pub proof fn lemma_on_push_promise(c: ConnectionView, f: PushPromiseFrameView)
    requires
        c.wf(),
        c.failed.is_none(),
    ensures
        c.on_push_promise(f).0.wf(),
        evolves(c, c.on_push_promise(f).0),
        quiet(c, c.on_push_promise(f).0),
{
    let d = c.on_push_promise(f).0;
    let id = f.stream_id;
    let promised = f.promised_stream_id;
    lemma_fail(c, ErrorCode::ProtocolError);
    if c.role is Server || !c.local_settings.enable_push || !f.is_headers_end() || !c.has_stream(
        id,
    ) {
    } else {
        let s = c.streams[c.index_of(id)];
        if !(s.state == StreamState::Open || s.state == StreamState::HalfClosedLocal) {
        } else if !(is_peer_id(c.role, promised) && c.last_peer_stream_id < promised
            <= MAX_STREAM_ID) {
        } else if c.goaway_sent.is_some() {
            lemma_with_control_wf(
                c,
                ControlFrame::RstStream { stream_id: promised, code: ErrorCode::RefusedStream },
            );
            lemma_same_table(c, d);
        } else {
            lemma_opened_by_peer(
                c,
                StreamView::fresh(
                    promised,
                    StreamState::ReservedRemote,
                    c.peer_settings.initial_window_size,
                    c.local_settings.initial_window_size,
                ),
            );
        }
    }
}

/// Receiving PRIORITY keeps the invariant.
pub proof fn lemma_on_priority(c: ConnectionView, f: PriorityFrame)
    requires
        c.wf(),
    ensures
        c.on_priority(f).0.wf(),
        evolves(c, c.on_priority(f).0),
        quiet(c, c.on_priority(f).0),
{
    if c.has_stream(f.stream_id) {
        lemma_found(c, f.stream_id);
        let i = c.index_of(f.stream_id);
        lemma_with_stream_wf(c, i, StreamView { priority: Some(f.stream_dep), ..c.streams[i] });
    }
}

/// Whatever frame is received, the connection meets its invariant
/// afterwards and has changed as a connection may.
pub proof fn lemma_on_frame(c: ConnectionView, f: HttpFrameView)
    requires
        c.wf(),
    ensures
        c.on_frame(f).0.wf(),
        evolves(c, c.on_frame(f).0),
        quiet(c, c.on_frame(f).0),
{
    lemma_fail(c, ErrorCode::ProtocolError);
    if c.failed.is_some() || f.stream_id() > MAX_STREAM_ID || (!c.peer_settings_seen && !(
    f matches HttpFrameView::Settings(s) && !s.is_ack())) {
    } else {
        match f {
            HttpFrameView::Data(d) => lemma_on_data(c, d),
            HttpFrameView::Headers(h) => lemma_on_headers(c, h),
            HttpFrameView::Priority(p) => lemma_on_priority(c, p),
            HttpFrameView::RstStream(r) => lemma_on_rst_stream(c, r),
            HttpFrameView::Settings(s) => lemma_on_settings(c, s),
            HttpFrameView::PushPromise(p) => lemma_on_push_promise(c, p),
            HttpFrameView::Ping(p) => lemma_on_ping(c, p),
            HttpFrameView::Goaway(g) => lemma_on_goaway(c, g),
            HttpFrameView::WindowUpdate(w) => lemma_on_window_update(c, w),
            HttpFrameView::Continuation(_) => {},
            HttpFrameView::Unknown(_) => {},
        }
    }
}

/// No stream leaves the closed state: a stream that is closed before a
/// frame is received is closed afterwards.
pub proof fn lemma_closed_stays_closed(a: ConnectionView, b: ConnectionView, id: StreamId)
    requires
        a.wf(),
        b.wf(),
        evolves(a, b),
        a.state_of(id) == StreamState::Closed,
    ensures
        b.state_of(id) == StreamState::Closed,
{
    if a.has_stream(id) {
        lemma_found(a, id);
        assert(a.streams[a.index_of(id)].wf());
    }
    assert(a.was_used(id));
    assert(!b.has_stream(id));
}

/// A header block that is not continued as it has to be ends the
/// connection with PROTOCOL_ERROR: whatever is wrong with it, GOAWAY with
/// that code and the highest stream that the peer has opened is the only
/// frame left to write.
pub proof fn lemma_broken_block_ends_connection(c: ConnectionView, e: ContinuationError)
    requires
        c.wf(),
        c.failed.is_none(),
    ensures
        c.on_framer_error(Error::Other(e)).wf(),
        c.on_framer_error(Error::Other(e)).failed == Some(Failure::Code(ErrorCode::ProtocolError)),
        c.on_framer_error(Error::Other(e)).control == seq![
            ControlFrame::Goaway {
                last_stream_id: c.last_peer_stream_id,
                code: ErrorCode::ProtocolError,
            },
        ],
        c.on_framer_error(Error::Other(e)).poll().1 == Some(
            (ControlFrame::Goaway {
                last_stream_id: c.last_peer_stream_id,
                code: ErrorCode::ProtocolError,
            }).frame(),
        ),
{
    lemma_fail(c, ErrorCode::ProtocolError);
}

} // verus!
