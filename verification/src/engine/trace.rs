//! What holds along every course that a connection can take.

use crate::engine::model::{is_peer_id, ConnectionView};
use crate::engine::proofs_inbound::{evolves, lemma_closed_stays_closed, lemma_fail, lemma_on_frame};
use crate::engine::table::{entry, quiet};
use crate::engine::proofs_outbound::{
    is_refusal_frame, lemma_cancel, lemma_poll, lemma_push_promise, lemma_send_data,
    lemma_send_headers, lemma_shutdown, lemma_start_request, lemma_tick,
};
use crate::error::ErrorCode;
use crate::frame::header::StreamId;
use crate::frame::http_frame::HttpFrameView;
use crate::stream_state::StreamState;
use vstd::prelude::*;

verus! {

/// One thing that happens to a connection.
pub enum Step {
    /// A frame is received.
    Receive(HttpFrameView),
    /// The application starts a request.
    StartRequest { block: Seq<u8>, end_stream: bool },
    /// The application sends a header block on a stream.
    SendHeaders { stream_id: StreamId, block: Seq<u8>, end_stream: bool },
    /// The application hands in body bytes.
    SendData { stream_id: StreamId, data: Seq<u8>, end_stream: bool },
    /// The application gives up a stream.
    Cancel { stream_id: StreamId },
    /// The application promises a stream.
    PushPromise { stream_id: StreamId, block: Seq<u8> },
    /// The application shuts the connection down.
    Shutdown,
    /// The keepalive timer ticks.
    Tick,
    /// The time for the acknowledgement of SETTINGS is over.
    SettingsDeadline,
    /// A connection error is found outside the engine.
    Abort(ErrorCode),
    /// The next frame is written.
    Poll,
}

/// The connection after one step.
pub open spec fn after(c: ConnectionView, step: Step) -> ConnectionView {
    match step {
        Step::Receive(f) => c.on_frame(f).0,
        Step::StartRequest { block, end_stream } => c.start_request(block, end_stream).0,
        Step::SendHeaders { stream_id, block, end_stream } => c.send_headers(
            stream_id,
            block,
            end_stream,
        ).0,
        Step::SendData { stream_id, data, end_stream } => c.send_data(stream_id, data, end_stream).0,
        Step::Cancel { stream_id } => c.cancel(stream_id).0,
        Step::PushPromise { stream_id, block } => c.push_promise(stream_id, block).0,
        Step::Shutdown => c.shutdown(),
        Step::Tick => c.tick().0,
        Step::SettingsDeadline => c.settings_deadline(),
        Step::Abort(code) => c.fail(code).0,
        Step::Poll => c.poll().0,
    }
}

/// The connection after a course of steps, first to last.
pub open spec fn after_all(c: ConnectionView, steps: Seq<Step>) -> ConnectionView
    decreases steps.len(),
{
    if steps.len() == 0 {
        c
    } else {
        after(after_all(c, steps.drop_last()), steps.last())
    }
}

/// A change of a change that a connection may make is one that it may
/// make.
pub proof fn lemma_evolves_trans(a: ConnectionView, b: ConnectionView, c: ConnectionView)
    requires
        evolves(a, b),
        evolves(b, c),
    ensures
        evolves(a, c),
{
    assert forall|id: StreamId| #[trigger] c.has_stream(id) && !a.has_stream(id)
        implies !a.was_used(id) by {
        if b.has_stream(id) {
        } else {
            assert(!b.was_used(id));
        }
    }
}

/// Every step keeps the invariant of the connection and changes it as a
/// connection may change.
pub proof fn lemma_after(c: ConnectionView, step: Step)
    requires
        c.wf(),
    ensures
        after(c, step).wf(),
        evolves(c, after(c, step)),
{
    match step {
        Step::Receive(f) => lemma_on_frame(c, f),
        Step::StartRequest { block, end_stream } => lemma_start_request(c, block, end_stream),
        Step::SendHeaders { stream_id, block, end_stream } => lemma_send_headers(
            c,
            stream_id,
            block,
            end_stream,
        ),
        Step::SendData { stream_id, data, end_stream } => lemma_send_data(
            c,
            stream_id,
            data,
            end_stream,
        ),
        Step::Cancel { stream_id } => lemma_cancel(c, stream_id),
        Step::PushPromise { stream_id, block } => lemma_push_promise(c, stream_id, block),
        Step::Shutdown => lemma_shutdown(c),
        Step::Tick => lemma_tick(c),
        Step::SettingsDeadline => lemma_fail(c, ErrorCode::SettingsTimeout),
        Step::Abort(code) => lemma_fail(c, code),
        Step::Poll => lemma_poll(c),
    }
}

/// Every course of steps keeps the invariant of the connection: among
/// other things, no window of the connection goes below zero, and what a
/// stream has sent, with what still waits on it, is what was handed in.
pub proof fn lemma_after_all(c: ConnectionView, steps: Seq<Step>)
    requires
        c.wf(),
    ensures
        after_all(c, steps).wf(),
        evolves(c, after_all(c, steps)),
    decreases steps.len(),
{
    if steps.len() > 0 {
        let b = after_all(c, steps.drop_last());
        lemma_after_all(c, steps.drop_last());
        lemma_after(b, steps.last());
        lemma_evolves_trans(c, b, after(b, steps.last()));
    }
}

/// The connection as it starts meets the invariant.
pub proof fn lemma_initial_wf(role: crate::engine::model::Role, enable_push: bool)
    ensures
        ConnectionView::initial(role).wf(),
        ConnectionView::initial_with(role, enable_push).wf(),
{
}

/// No stream leaves the closed state, whatever happens to the connection.
pub proof fn lemma_closed_is_final(c: ConnectionView, steps: Seq<Step>, id: StreamId)
    requires
        c.wf(),
        c.state_of(id) == StreamState::Closed,
    ensures
        after_all(c, steps).state_of(id) == StreamState::Closed,
{
    lemma_after_all(c, steps);
    lemma_closed_stays_closed(c, after_all(c, steps), id);
}

/// Every stream that the peer opens has an identifier above all that it
/// has opened before: a stream of the peer that is in the table after a
/// course of steps and was not before has an identifier above the highest
/// that the peer had opened before, and the highest that the peer has
/// opened is never lower afterwards.
pub proof fn lemma_peer_ids_increase(c: ConnectionView, steps: Seq<Step>, id: StreamId)
    requires
        c.wf(),
        is_peer_id(c.role, id),
        !c.has_stream(id),
        after_all(c, steps).has_stream(id),
    ensures
        c.last_peer_stream_id < id <= after_all(c, steps).last_peer_stream_id,
{
    lemma_after_all(c, steps);
    let d = after_all(c, steps);
    crate::engine::table::lemma_found(d, id);
    assert(d.was_used(d.streams[d.index_of(id)].id));
}

/// After GOAWAY has been sent with the last stream `l`, whatever happens
/// to the connection, no frame is written for a stream of the peer above
/// `l`, but for the RST_STREAM that refuses such a stream.
pub proof fn lemma_nothing_past_goaway(c: ConnectionView, steps: Seq<Step>, l: StreamId)
    requires
        c.wf(),
        c.goaway_sent == Some(l),
    ensures
        after_all(c, steps).poll().1 matches Some(f) ==> !is_peer_id(c.role, f.stream_id())
            || f.stream_id() <= l || is_refusal_frame(f),
{
    lemma_after_all(c, steps);
    lemma_poll(after_all(c, steps));
}

/// The body bytes that a step hands in for the stream `id`: those of a
/// request to send data on that stream which is carried out.
pub open spec fn handed_by(c: ConnectionView, step: Step, id: StreamId) -> Seq<u8> {
    match step {
        Step::SendData { stream_id, data, end_stream } => if stream_id == id && c.send_data(
            stream_id,
            data,
            end_stream,
        ).1 is Ok {
            data
        } else {
            Seq::empty()
        },
        _ => Seq::empty(),
    }
}

/// The body bytes that a step writes for the stream `id`: those of the
/// DATA frame for that stream, where the step writes one.
pub open spec fn written_by(c: ConnectionView, step: Step, id: StreamId) -> Seq<u8> {
    match step {
        Step::Poll => match c.poll().1 {
            Some(HttpFrameView::Data(f)) => if f.stream_id == id {
                f.data
            } else {
                Seq::empty()
            },
            _ => Seq::empty(),
        },
        _ => Seq::empty(),
    }
}

/// All body bytes that a course of steps hands in for the stream `id`, in
/// order.
pub open spec fn handed_in(c: ConnectionView, steps: Seq<Step>, id: StreamId) -> Seq<u8>
    decreases steps.len(),
{
    if steps.len() == 0 {
        Seq::empty()
    } else {
        handed_in(c, steps.drop_last(), id) + handed_by(
            after_all(c, steps.drop_last()),
            steps.last(),
            id,
        )
    }
}

/// All body bytes that a course of steps writes in DATA frames for the
/// stream `id`, in order.
pub open spec fn written(c: ConnectionView, steps: Seq<Step>, id: StreamId) -> Seq<u8>
    decreases steps.len(),
{
    if steps.len() == 0 {
        Seq::empty()
    } else {
        written(c, steps.drop_last(), id) + written_by(
            after_all(c, steps.drop_last()),
            steps.last(),
            id,
        )
    }
}

/// One step adds to what a stream has been handed exactly what the step
/// hands in for it, and to what the stream has sent exactly what the step
/// writes for it. A stream that is not in the table is handed nothing and
/// writes nothing, and one that comes into the table has nothing yet.
pub proof fn lemma_step_accounts(c: ConnectionView, step: Step, id: StreamId)
    requires
        c.wf(),
    ensures
        c.has_stream(id) && after(c, step).has_stream(id) ==> entry(after(c, step), id).submitted
            == entry(c, id).submitted + handed_by(c, step, id) && entry(after(c, step), id).sent
            == entry(c, id).sent + written_by(c, step, id),
        !c.has_stream(id) ==> handed_by(c, step, id) == Seq::<u8>::empty() && written_by(
            c,
            step,
            id,
        ) == Seq::<u8>::empty(),
        !c.has_stream(id) && after(c, step).has_stream(id) ==> entry(after(c, step), id).submitted
            == Seq::<u8>::empty() && entry(after(c, step), id).sent == Seq::<u8>::empty(),
{
    let d = after(c, step);
    let none = Seq::<u8>::empty();
    match step {
        Step::SendData { stream_id, data, end_stream } => {
            lemma_send_data(c, stream_id, data, end_stream);
            if c.has_stream(id) && d.has_stream(id) {
                assert(entry(c, id).submitted + none =~= entry(c, id).submitted);
                assert(entry(c, id).sent + none =~= entry(c, id).sent);
            }
        },
        Step::Poll => {
            lemma_account_poll(c, id);
        },
        _ => {
            assert(quiet(c, d)) by {
                match step {
                    Step::Receive(f) => lemma_on_frame(c, f),
                    Step::StartRequest { block, end_stream } => lemma_start_request(
                        c,
                        block,
                        end_stream,
                    ),
                    Step::SendHeaders { stream_id, block, end_stream } => lemma_send_headers(
                        c,
                        stream_id,
                        block,
                        end_stream,
                    ),
                    Step::Cancel { stream_id } => lemma_cancel(c, stream_id),
                    Step::PushPromise { stream_id, block } => lemma_push_promise(
                        c,
                        stream_id,
                        block,
                    ),
                    Step::Shutdown => lemma_shutdown(c),
                    Step::Tick => lemma_tick(c),
                    Step::SettingsDeadline => lemma_fail(c, ErrorCode::SettingsTimeout),
                    Step::Abort(code) => lemma_fail(c, code),
                    _ => {},
                }
            }
            if c.has_stream(id) && d.has_stream(id) {
                assert(entry(c, id).submitted + none =~= entry(c, id).submitted);
                assert(entry(c, id).sent + none =~= entry(c, id).sent);
            }
        },
    }
}

/// Writing the next frame adds to what a stream has sent exactly the bytes
/// of the DATA frame for it, where one is written, and hands in nothing.
proof fn lemma_account_poll(c: ConnectionView, id: StreamId)
    requires
        c.wf(),
    ensures
        c.has_stream(id) && c.poll().0.has_stream(id) ==> entry(c.poll().0, id).submitted
            == entry(c, id).submitted && entry(c.poll().0, id).sent == entry(c, id).sent
            + written_by(c, Step::Poll, id),
        !c.has_stream(id) ==> written_by(c, Step::Poll, id) == Seq::<u8>::empty(),
        !c.has_stream(id) ==> !c.poll().0.has_stream(id),
{
    let d = c.poll().0;
    let none = Seq::<u8>::empty();
    if (c.ordered.len() > 0 && c.ordered[0] is Continuation) || (c.control.len() == 0
        && c.ordered.len() > 0) {
        crate::engine::proofs_outbound::lemma_emit_ordered(c);
        assert(quiet(c, d));
        lemma_poll(c);
        if c.has_stream(id) && d.has_stream(id) {
            assert(entry(c, id).sent + none =~= entry(c, id).sent);
        }
        assert(!c.has_stream(id) ==> !d.has_stream(id)) by {
            assert(d.streams == c.streams);
        }
    } else if c.control.len() > 0 {
        assert(d.streams == c.streams);
        assert(c.has_stream(id) == d.has_stream(id));
        assert(c.index_of(id) == d.index_of(id));
        crate::engine::proofs_outbound::lemma_control_frame(c.control[0]);
        assert(c.control[0].wf());
        if c.has_stream(id) {
            assert(entry(c, id).sent + none =~= entry(c, id).sent);
        }
    } else {
        crate::engine::proofs_outbound::lemma_pick(c);
        match c.pick() {
            Some(i) => {
                crate::engine::proofs_outbound::lemma_emit_data(c, i);
                crate::engine::table::lemma_index_of(c, i);
                if c.has_stream(id) && d.has_stream(id) && id != c.streams[i].id {
                    assert(entry(c, id).sent + none =~= entry(c, id).sent);
                }
            },
            None => {
                if c.has_stream(id) {
                    assert(entry(c, id).sent + none =~= entry(c, id).sent);
                }
            },
        }
    }
}

/// Along every course of steps, for every stream that was idle at the
/// start: what the stream has been handed is what the steps have handed
/// in for it, and what it has sent is what the steps have written for it
/// in DATA frames. So the bytes written, with the bytes that still wait,
/// are the bytes handed in, in the same order.
pub proof fn lemma_bytes_account(c: ConnectionView, steps: Seq<Step>, id: StreamId)
    requires
        c.wf(),
        !c.was_used(id),
    ensures
        after_all(c, steps).has_stream(id) ==> {
            let s = entry(after_all(c, steps), id);
            &&& s.submitted == handed_in(c, steps, id)
            &&& s.sent == written(c, steps, id)
            &&& written(c, steps, id) + s.pending == handed_in(c, steps, id)
        },
        !after_all(c, steps).was_used(id) ==> handed_in(c, steps, id) == Seq::<u8>::empty()
            && written(c, steps, id) == Seq::<u8>::empty(),
    decreases steps.len(),
{
    let none = Seq::<u8>::empty();
    let d = after_all(c, steps);
    lemma_after_all(c, steps);
    if steps.len() == 0 {
        if c.has_stream(id) {
            crate::engine::table::lemma_found(c, id);
            assert(c.was_used(c.streams[c.index_of(id)].id));
        }
    } else {
        let init = steps.drop_last();
        let b = after_all(c, init);
        lemma_after_all(c, init);
        lemma_bytes_account(c, init, id);
        lemma_after(b, steps.last());
        lemma_step_accounts(b, steps.last(), id);
        if b.has_stream(id) {
            crate::engine::table::lemma_found(b, id);
            assert(b.was_used(b.streams[b.index_of(id)].id));
        }
        if d.has_stream(id) {
            crate::engine::table::lemma_found(d, id);
            assert(d.streams[d.index_of(id)].wf());
            if !b.has_stream(id) {
                assert(!b.was_used(id));
                assert(none + none =~= none);
            }
        }
        if !d.was_used(id) {
            assert(!b.was_used(id));
            assert(none + none =~= none);
        }
    }
}

/// When the DATA frame that carries END_STREAM for a stream is written,
/// all bytes that were handed in for the stream have been written: the
/// bytes of the DATA frames of the stream, in order, are the bytes that
/// the application handed in.
pub proof fn lemma_all_bytes_written(c: ConnectionView, steps: Seq<Step>, id: StreamId)
    requires
        c.wf(),
        !c.was_used(id),
        after_all(c, steps).poll().1 matches Some(HttpFrameView::Data(f)) && f.stream_id == id
            && f.is_end_of_stream(),
    ensures
        written(c, steps.push(Step::Poll), id) == handed_in(c, steps.push(Step::Poll), id),
{
    let b = after_all(c, steps);
    let all = steps.push(Step::Poll);
    assert(all.drop_last() =~= steps);
    lemma_after_all(c, steps);
    lemma_bytes_account(c, steps, id);
    lemma_account_poll(b, id);
    crate::engine::proofs_outbound::lemma_pick(b);
    if (b.ordered.len() > 0 && b.ordered[0] is Continuation) || (b.control.len() == 0
        && b.ordered.len() > 0) {
        crate::engine::proofs_outbound::lemma_emit_ordered(b);
    } else if b.control.len() > 0 {
        assert(b.control[0].wf());
        crate::engine::proofs_outbound::lemma_control_frame(b.control[0]);
    } else {
        let i = b.pick().unwrap();
        crate::engine::proofs_outbound::lemma_emit_data(b, i);
        crate::engine::table::lemma_index_of(b, i);
        assert(handed_by(b, Step::Poll, id) == Seq::<u8>::empty());
        assert(handed_in(c, steps, id) + Seq::<u8>::empty() =~= handed_in(c, steps, id));
    }
}

} // verus!
