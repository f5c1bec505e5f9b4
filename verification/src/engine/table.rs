//! Lemmas on the table of streams and the queues of a connection that meets
//! its invariant.

use crate::engine::model::{ConnectionView, ControlFrame, QueuedView, StreamView};
use crate::error::ErrorCode;
use crate::frame::header::{StreamId, MAX_STREAM_ID};
use crate::stream_state::StreamState;
use vstd::prelude::*;

verus! {

/// Two connections differ in nothing that decides which frames may wait.
pub open spec fn same_frame(a: ConnectionView, b: ConnectionView) -> bool {
    a.role == b.role && a.last_peer_stream_id == b.last_peer_stream_id
}

/// Two connections differ in nothing that decides which identifiers have
/// been used.
pub open spec fn same_ids(a: ConnectionView, b: ConnectionView) -> bool {
    same_frame(a, b) && a.next_stream_id == b.next_stream_id
}

/// The entry of the table for a stream that the table holds.
pub open spec fn entry(c: ConnectionView, id: StreamId) -> StreamView {
    c.streams[c.index_of(id)]
}

/// From `a` to `b` no body byte was handed in and none has left: a stream
/// of both tables has been handed and has sent in `b` what it had in `a`,
/// and a stream that has come into the table has been handed nothing and
/// has sent nothing.
pub open spec fn quiet(a: ConnectionView, b: ConnectionView) -> bool {
    &&& forall|id: StreamId| #[trigger]
        b.has_stream(id) && a.has_stream(id) ==> entry(b, id).sent == entry(a, id).sent && entry(
            b,
            id,
        ).submitted == entry(a, id).submitted
    &&& forall|id: StreamId| #[trigger]
        b.has_stream(id) && !a.has_stream(id) ==> entry(b, id).sent == Seq::<u8>::empty()
            && entry(b, id).submitted == Seq::<u8>::empty()
}

/// From `a` to `b` no body byte was handed in and none has left on any
/// stream but `but`, which is in both tables or in neither.
pub open spec fn quiet_but(a: ConnectionView, b: ConnectionView, but: StreamId) -> bool {
    &&& forall|id: StreamId| #[trigger]
        b.has_stream(id) && a.has_stream(id) && id != but ==> entry(b, id).sent == entry(
            a,
            id,
        ).sent && entry(b, id).submitted == entry(a, id).submitted
    &&& forall|id: StreamId| #[trigger] b.has_stream(id) ==> a.has_stream(id)
}

/// In a table without doubles, the entry at `i` is the one found for its
/// identifier.
pub proof fn lemma_index_of(c: ConnectionView, i: int)
    requires
        c.ids_unique(),
        0 <= i < c.streams.len(),
    ensures
        c.has_stream(c.streams[i].id),
        c.index_of(c.streams[i].id) == i,
{
}

/// The entry found for an identifier has that identifier.
pub proof fn lemma_found(c: ConnectionView, id: StreamId)
    requires
        c.has_stream(id),
    ensures
        0 <= c.index_of(id) < c.streams.len(),
        c.streams[c.index_of(id)].id == id,
{
}

/// One more control frame leaves the invariant in place, where the frame
/// fits the wire and is for a stream that may be written on, or refuses
/// one.
pub proof fn lemma_with_control_wf(c: ConnectionView, f: ControlFrame)
    requires
        c.wf(),
        f.wf(),
        c.may_write_on(f.stream_id()) || f.is_refusal(),
    ensures
        c.with_control(f).wf(),
        same_ids(c, c.with_control(f)),
        c.with_control(f).streams == c.streams,
{
    let d = c.with_control(f);
    assert forall|i: int| 0 <= i < d.control.len() implies (#[trigger] d.control[i]).wf() && (
    d.may_write_on(d.control[i].stream_id()) || d.control[i].is_refusal()) by {
        if i < c.control.len() {
            assert(d.control[i] == c.control[i]);
        }
    }
}

/// Removing an entry leaves the invariant in place; the other entries are
/// found as before, and the removed one is found no more.
pub proof fn lemma_without_stream_wf(c: ConnectionView, i: int)
    requires
        c.wf(),
        0 <= i < c.streams.len(),
    ensures
        c.without_stream(i).wf(),
        same_ids(c, c.without_stream(i)),
        !c.without_stream(i).has_stream(c.streams[i].id),
        forall|id: StreamId|
            id != c.streams[i].id ==> c.without_stream(i).has_stream(id) == c.has_stream(id),
        forall|id: StreamId|
            id != c.streams[i].id && c.has_stream(id) ==> c.without_stream(i).streams[c.without_stream(
                i,
            ).index_of(id)] == c.streams[c.index_of(id)],
{
    let d = c.without_stream(i);
    assert forall|j: int| 0 <= j < d.streams.len() implies d.streams[j] == c.streams[if j < i {
        j
    } else {
        j + 1
    }] by {}
    assert(d.ids_unique()) by {
        assert forall|j: int, k: int|
            0 <= j < d.streams.len() && 0 <= k < d.streams.len() && j != k implies #[trigger] d.streams[j].id
            != #[trigger] d.streams[k].id by {
            let j2 = if j < i {
                j
            } else {
                j + 1
            };
            let k2 = if k < i {
                k
            } else {
                k + 1
            };
            assert(d.streams[j] == c.streams[j2]);
            assert(d.streams[k] == c.streams[k2]);
        }
    }
    assert forall|j: int| 0 <= j < d.streams.len() implies (#[trigger] d.streams[j]).wf()
        && d.was_used(d.streams[j].id) by {
        let j2 = if j < i {
            j
        } else {
            j + 1
        };
        assert(d.streams[j] == c.streams[j2]);
    }
    assert(!d.has_stream(c.streams[i].id)) by {
        if d.has_stream(c.streams[i].id) {
            let j = d.index_of(c.streams[i].id);
            let j2 = if j < i {
                j
            } else {
                j + 1
            };
            assert(d.streams[j] == c.streams[j2]);
            assert(c.streams[j2].id == c.streams[i].id);
        }
    }
    assert forall|id: StreamId| id != c.streams[i].id implies d.has_stream(id) == c.has_stream(
        id,
    ) by {
        if c.has_stream(id) {
            let k = c.index_of(id);
            let k2 = if k < i {
                k
            } else {
                k - 1
            };
            assert(d.streams[k2] == c.streams[k]);
            assert(d.streams[k2].id == id);
        }
        if d.has_stream(id) {
            let j = d.index_of(id);
            let j2 = if j < i {
                j
            } else {
                j + 1
            };
            assert(d.streams[j] == c.streams[j2]);
            assert(c.streams[j2].id == id);
        }
    }
    assert forall|id: StreamId| id != c.streams[i].id && c.has_stream(id) implies d.streams[d.index_of(
        id,
    )] == c.streams[c.index_of(id)] by {
        let k = c.index_of(id);
        let j = d.index_of(id);
        let j2 = if j < i {
            j
        } else {
            j + 1
        };
        assert(d.streams[j] == c.streams[j2]);
        assert(c.streams[j2].id == c.streams[k].id);
    }
}

/// Replacing an entry by one with the same identifier leaves the
/// invariant in place, where the new entry is a stream as the table holds
/// them or is closed. The other entries are found as before.
pub proof fn lemma_with_stream_wf(c: ConnectionView, i: int, s: StreamView)
    requires
        c.wf(),
        0 <= i < c.streams.len(),
        s.id == c.streams[i].id,
        s.wf() || s.state == StreamState::Closed,
    ensures
        c.with_stream(i, s).wf(),
        same_ids(c, c.with_stream(i, s)),
        c.with_stream(i, s).has_stream(s.id) == (s.state != StreamState::Closed),
        s.state != StreamState::Closed ==> c.with_stream(i, s).streams[c.with_stream(
            i,
            s,
        ).index_of(s.id)] == s,
        forall|id: StreamId| id != s.id ==> c.with_stream(i, s).has_stream(id) == c.has_stream(id),
        forall|id: StreamId|
            id != s.id && c.has_stream(id) ==> c.with_stream(i, s).streams[c.with_stream(
                i,
                s,
            ).index_of(id)] == c.streams[c.index_of(id)],
{
    if s.state == StreamState::Closed {
        lemma_without_stream_wf(c, i);
    } else {
        let d = c.with_stream(i, s);
        assert forall|j: int| 0 <= j < d.streams.len() implies d.streams[j].id
            == c.streams[j].id by {}
        assert(d.ids_unique()) by {
            assert forall|j: int, k: int|
                0 <= j < d.streams.len() && 0 <= k < d.streams.len() && j != k implies #[trigger] d.streams[j].id
                != #[trigger] d.streams[k].id by {
                assert(d.streams[j].id == c.streams[j].id);
                assert(d.streams[k].id == c.streams[k].id);
            }
        }
        assert forall|j: int| 0 <= j < d.streams.len() implies (#[trigger] d.streams[j]).wf()
            && d.was_used(d.streams[j].id) by {
            if j != i {
                assert(d.streams[j] == c.streams[j]);
            }
        }
        assert(d.streams[i].id == s.id);
        lemma_index_of(d, i);
        assert forall|id: StreamId| id != s.id implies d.has_stream(id) == c.has_stream(id) by {
            if c.has_stream(id) {
                let k = c.index_of(id);
                assert(d.streams[k].id == id);
            }
            if d.has_stream(id) {
                let k = d.index_of(id);
                assert(c.streams[k].id == id);
            }
        }
        assert forall|id: StreamId| id != s.id && c.has_stream(id) implies d.streams[d.index_of(
            id,
        )] == c.streams[c.index_of(id)] by {
            let k = c.index_of(id);
            let j = d.index_of(id);
            assert(d.streams[j].id == c.streams[j].id);
            assert(c.streams[j].id == c.streams[k].id);
        }
    }
}

/// One more entry leaves the invariant of the table in place, where the
/// table did not hold its identifier and the identifier counts as used.
pub proof fn lemma_with_new_stream(c: ConnectionView, s: StreamView)
    requires
        c.wf_streams(),
        !c.has_stream(s.id),
        s.wf(),
        c.was_used(s.id),
    ensures
        c.with_new_stream(s).wf_streams(),
        c.with_new_stream(s).has_stream(s.id),
        c.with_new_stream(s).streams[c.with_new_stream(s).index_of(s.id)] == s,
        forall|id: StreamId| id != s.id ==> c.with_new_stream(s).has_stream(id) == c.has_stream(id),
        forall|id: StreamId|
            id != s.id && c.has_stream(id) ==> c.with_new_stream(s).streams[c.with_new_stream(
                s,
            ).index_of(id)] == c.streams[c.index_of(id)],
{
    let d = c.with_new_stream(s);
    let n = c.streams.len() as int;
    assert(d.streams[n] == s);
    assert forall|j: int| 0 <= j < n implies d.streams[j] == c.streams[j] by {}
    assert(d.ids_unique()) by {
        assert forall|j: int, k: int|
            0 <= j < d.streams.len() && 0 <= k < d.streams.len() && j != k implies #[trigger] d.streams[j].id
            != #[trigger] d.streams[k].id by {
            if j < n {
                assert(d.streams[j] == c.streams[j]);
            }
            if k < n {
                assert(d.streams[k] == c.streams[k]);
            }
        }
    }
    assert forall|j: int| 0 <= j < d.streams.len() implies (#[trigger] d.streams[j]).wf()
        && d.was_used(d.streams[j].id) by {
        if j < n {
            assert(d.streams[j] == c.streams[j]);
        }
    }
    lemma_index_of(d, n);
    assert forall|id: StreamId| id != s.id implies d.has_stream(id) == c.has_stream(id) by {
        if c.has_stream(id) {
            let k = c.index_of(id);
            assert(d.streams[k].id == id);
        }
        if d.has_stream(id) {
            let k = d.index_of(id);
            assert(c.streams[k].id == id);
        }
    }
    assert forall|id: StreamId| id != s.id && c.has_stream(id) implies d.streams[d.index_of(id)]
        == c.streams[c.index_of(id)] by {
        let k = c.index_of(id);
        let j = d.index_of(id);
        assert(d.streams[j] == c.streams[j]);
        assert(c.streams[j].id == c.streams[k].id);
    }
}

/// A stream error leaves the invariant in place, where the stream is one
/// that has been used.
pub proof fn lemma_reset_stream_wf(c: ConnectionView, id: StreamId, code: ErrorCode)
    requires
        c.wf(),
        c.was_used(id),
        id <= MAX_STREAM_ID,
    ensures
        c.reset_stream(id, code).wf(),
        same_ids(c, c.reset_stream(id, code)),
        !c.reset_stream(id, code).has_stream(id),
        forall|other: StreamId|
            other != id ==> c.reset_stream(id, code).has_stream(other) == c.has_stream(other),
        forall|other: StreamId|
            other != id && c.has_stream(other) ==> c.reset_stream(id, code).streams[c.reset_stream(
                id,
                code,
            ).index_of(other)] == c.streams[c.index_of(other)],
{
    let c1 = if c.has_stream(id) {
        c.without_stream(c.index_of(id))
    } else {
        c
    };
    if c.has_stream(id) {
        lemma_found(c, id);
        lemma_without_stream_wf(c, c.index_of(id));
    }
    assert(c1.wf());
    if c.is_announced(id) {
        let d = c.reset_stream(id, code);
        let q = QueuedView::RstStream { stream_id: id, code };
        assert(d.ordered == c1.ordered.push(q));
        assert forall|i: int| 0 <= i < d.ordered.len() implies (#[trigger] d.ordered[i]).wf()
            && d.may_write_on(d.ordered[i].stream_id()) by {
            if i < c1.ordered.len() {
                assert(d.ordered[i] == c1.ordered[i]);
            }
        }
        assert forall|i: int| 0 < i < d.ordered.len() implies !(#[trigger] d.ordered[i] is Continuation) by {
            if i < c1.ordered.len() {
                assert(d.ordered[i] == c1.ordered[i]);
            }
        }
        assert(d.streams == c1.streams);
    } else {
        lemma_with_control_wf(c1, ControlFrame::RstStream { stream_id: id, code });
    }
}

} // verus!
