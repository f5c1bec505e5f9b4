//! The connection as a mathematical value, and what receiving a frame does
//! to it.

use crate::error::ErrorCode;
use crate::frame::flags::ACK;
use crate::frame::goaway::GoawayFrameView;
use crate::frame::header::{StreamId, MAX_STREAM_ID};
use crate::frame::http_frame::HttpFrameView;
use crate::frame::ping::PingFrame;
use crate::frame::priority::StreamDependency;
use crate::frame::rst_stream::RstStreamFrame;
use crate::frame::settings::{HttpSetting, SettingsFrameView, MAX_WINDOW_SIZE};
use crate::frame::window_update::WindowUpdateFrame;
use crate::settings::Settings;
use crate::stream_state::StreamState;
use crate::window::Window;
use vstd::prelude::*;

verus! {

/// Which end of the connection this is.
#[derive(Clone, Copy, Debug, PartialEq, Eq, Structural)]
pub enum Role {
    Client,
    Server,
}

/// The stream is one that this side opens: odd for a client, even for a
/// server.
pub open spec fn is_local_id(role: Role, id: StreamId) -> bool {
    id != 0 && ((role is Client) == (id % 2 == 1))
}

/// The stream is one that the peer opens.
pub open spec fn is_peer_id(role: Role, id: StreamId) -> bool {
    id != 0 && ((role is Client) == (id % 2 == 0))
}

/// Why a connection has ended.
#[derive(Clone, Copy, Debug, PartialEq, Eq, Structural)]
pub enum Failure {
    /// A connection error: GOAWAY with this code is the last frame written.
    Code(ErrorCode),
    /// A PING was not answered in time.
    PingTimeout,
}

/// A stream that is neither idle nor closed.
pub struct StreamView {
    pub id: StreamId,
    pub state: StreamState,
    /// Bytes that this side may still send on the stream.
    pub send_window: Window,
    /// Bytes that the peer may still send on the stream.
    pub recv_window: Window,
    /// Bytes that the application has handed in and that have not left.
    pub pending: Seq<u8>,
    /// The application has handed in the last bytes of the stream.
    pub pending_end: bool,
    /// The dependency that the peer has stated, if any.
    pub priority: Option<StreamDependency>,
    /// All bytes that the application has handed in, in order.
    pub submitted: Seq<u8>,
    /// All bytes that have left in DATA frames, in order.
    pub sent: Seq<u8>,
}

impl StreamView {
    /// What holds of every stream in the table.
    pub open spec fn wf(self) -> bool {
        &&& 0 < self.id <= MAX_STREAM_ID
        &&& self.state != StreamState::Idle
        &&& self.state != StreamState::Closed
        &&& 0 <= self.recv_window.size
        &&& self.submitted == self.sent + self.pending
        &&& (self.pending.len() > 0 || self.pending_end) ==> (self.state == StreamState::Open
            || self.state == StreamState::HalfClosedRemote)
    }

    /// A stream as it is when a frame has just opened it.
    pub open spec fn fresh(id: StreamId, state: StreamState, send: u32, recv: u32) -> StreamView {
        StreamView {
            id,
            state,
            send_window: Window { size: send as i32 },
            recv_window: Window { size: recv as i32 },
            pending: Seq::empty(),
            pending_end: false,
            priority: None,
            submitted: Seq::empty(),
            sent: Seq::empty(),
        }
    }
}

/// What the engine tells the application when a frame has been received.
pub enum EventView {
    /// A header block for a stream. It is still compressed.
    Headers { stream_id: StreamId, block: Seq<u8>, end_stream: bool },
    /// Bytes of the body of a stream.
    Data { stream_id: StreamId, data: Seq<u8>, end_stream: bool },
    /// A header block that nobody waits for: that of a stream which this
    /// side has given up or refused. It has to pass the decoder, which
    /// keeps its table in step with the peer by it, and is dropped then.
    HeadersDropped { stream_id: StreamId, block: Seq<u8> },
    /// The peer promises a stream; the block is the request it answers.
    PushPromise { stream_id: StreamId, promised_stream_id: StreamId, block: Seq<u8> },
    /// The peer has reset a stream.
    StreamReset { stream_id: StreamId, code: ErrorCode },
    /// The peer accepts no new streams.
    Goaway { last_stream_id: StreamId, code: ErrorCode },
    /// The peer has acknowledged SETTINGS of this side.
    SettingsAcked,
    /// The peer has answered the PING of this side.
    PingAcked,
    /// The connection has ended on an error of the peer; GOAWAY with this
    /// code waits to be written.
    ConnectionError(ErrorCode),
}

/// The connection.
pub struct ConnectionView {
    pub role: Role,
    /// What this side has announced.
    pub local_settings: Settings,
    /// What the peer has announced.
    pub peer_settings: Settings,
    /// Settings of the peer that have no meaning here, as they came.
    pub peer_unknown_settings: Seq<HttpSetting>,
    /// The first SETTINGS of the peer has come.
    pub peer_settings_seen: bool,
    /// SETTINGS frames of this side that the peer has not acknowledged.
    pub unacked_settings: u32,
    /// The stream that this side opens next.
    pub next_stream_id: u32,
    /// The highest stream that the peer has opened; zero where none.
    pub last_peer_stream_id: StreamId,
    /// Bytes that this side may still send on the connection.
    pub send_window: Window,
    /// Bytes that the peer may still send on the connection.
    pub recv_window: Window,
    /// The last stream named in the GOAWAY that this side has sent.
    pub goaway_sent: Option<StreamId>,
    /// The last stream named in the GOAWAY that the peer has sent.
    pub goaway_received: Option<StreamId>,
    /// The PING of this side that waits for its answer.
    pub outstanding_ping: Option<u64>,
    /// What the next PING of this side carries.
    pub next_ping: u64,
    /// Why the connection has ended, where it has.
    pub failed: Option<Failure>,
    /// The streams that are neither idle nor closed.
    pub streams: Seq<StreamView>,
    /// The streams that this side has reset while they were in the table.
    /// The peer may have sent frames on them before it knew.
    pub gave_up: Seq<StreamId>,
    /// Control frames that wait to be written, first to last.
    pub control: Seq<ControlFrame>,
    /// Header blocks that wait to be written, first to last, and resets
    /// that have to stay behind them.
    pub ordered: Seq<QueuedView>,
    /// Where the search for the next stream with data to send begins.
    pub cursor: nat,
}

/// A control frame that waits to be written.
#[derive(Clone, Copy, Debug, PartialEq, Eq, Structural)]
pub enum ControlFrame {
    /// The acknowledgement of SETTINGS.
    SettingsAck,
    /// A PING that asks for an answer.
    Ping(u64),
    /// The answer to a PING.
    PingAck(u64),
    WindowUpdate { stream_id: StreamId, increment: u32 },
    RstStream { stream_id: StreamId, code: ErrorCode },
    /// GOAWAY without debug data.
    Goaway { last_stream_id: StreamId, code: ErrorCode },
}

impl ControlFrame {
    /// The frame as it is written.
    pub open spec fn frame(self) -> HttpFrameView {
        match self {
            ControlFrame::SettingsAck => HttpFrameView::Settings(
                SettingsFrameView { flags: ACK, settings: Seq::empty() },
            ),
            ControlFrame::Ping(opaque_data) => HttpFrameView::Ping(
                PingFrame { flags: 0, opaque_data },
            ),
            ControlFrame::PingAck(opaque_data) => HttpFrameView::Ping(
                PingFrame { flags: ACK, opaque_data },
            ),
            ControlFrame::WindowUpdate { stream_id, increment } => HttpFrameView::WindowUpdate(
                WindowUpdateFrame { stream_id, flags: 0, increment },
            ),
            ControlFrame::RstStream { stream_id, code } => HttpFrameView::RstStream(
                RstStreamFrame { stream_id, flags: 0, raw_error_code: code.wire() },
            ),
            ControlFrame::Goaway { last_stream_id, code } => HttpFrameView::Goaway(
                GoawayFrameView {
                    flags: 0,
                    last_stream_id,
                    raw_error_code: code.wire(),
                    debug_data: Seq::empty(),
                },
            ),
        }
    }

    /// The stream that the frame belongs to; zero for the connection.
    pub open spec fn stream_id(self) -> StreamId {
        match self {
            ControlFrame::WindowUpdate { stream_id, .. } => stream_id,
            ControlFrame::RstStream { stream_id, .. } => stream_id,
            _ => 0,
        }
    }

    /// The frame refuses a stream.
    pub open spec fn is_refusal(self) -> bool {
        self matches ControlFrame::RstStream { code, .. } && code == ErrorCode::RefusedStream
    }

    /// The fields fit the wire.
    pub open spec fn wf(self) -> bool {
        match self {
            ControlFrame::WindowUpdate { stream_id, increment } => stream_id <= MAX_STREAM_ID && 0
                < increment <= MAX_WINDOW_SIZE,
            ControlFrame::RstStream { stream_id, .. } => 0 < stream_id <= MAX_STREAM_ID,
            ControlFrame::Goaway { last_stream_id, .. } => last_stream_id <= MAX_STREAM_ID,
            _ => true,
        }
    }
}

/// A header block that waits to be written, or a reset that has to stay
/// behind one.
pub enum QueuedView {
    /// A header block to be written as HEADERS and, where it is longer
    /// than a frame may be, CONTINUATION.
    Headers { stream_id: StreamId, block: Seq<u8>, end_stream: bool },
    /// A header block to be written as PUSH_PROMISE and CONTINUATION.
    PushPromise { stream_id: StreamId, promised_stream_id: StreamId, block: Seq<u8> },
    /// What is left of a header block whose start has been written.
    Continuation { stream_id: StreamId, block: Seq<u8> },
    /// RST_STREAM for a stream whose header block waits in front of it.
    RstStream { stream_id: StreamId, code: ErrorCode },
}

impl QueuedView {
    /// The stream on which the entry is written.
    pub open spec fn stream_id(self) -> StreamId {
        match self {
            QueuedView::Headers { stream_id, .. } => stream_id,
            QueuedView::PushPromise { stream_id, .. } => stream_id,
            QueuedView::Continuation { stream_id, .. } => stream_id,
            QueuedView::RstStream { stream_id, .. } => stream_id,
        }
    }

    /// The entry is a header block that makes the peer know the stream
    /// `id`: a reset of that stream has to stay behind it.
    pub open spec fn announces(self, id: StreamId) -> bool {
        match self {
            QueuedView::Headers { stream_id, .. } => stream_id == id,
            QueuedView::PushPromise { promised_stream_id, .. } => promised_stream_id == id,
            _ => false,
        }
    }

    /// The fields fit the wire.
    pub open spec fn wf(self) -> bool {
        match self {
            QueuedView::PushPromise { stream_id, promised_stream_id, .. } => 0 < stream_id
                <= MAX_STREAM_ID && 0 < promised_stream_id <= MAX_STREAM_ID,
            _ => 0 < self.stream_id() <= MAX_STREAM_ID,
        }
    }
}

impl ConnectionView {
    /// The table holds a stream with this identifier.
    pub open spec fn has_stream(self, id: StreamId) -> bool {
        exists|i: int| 0 <= i < self.streams.len() && #[trigger] self.streams[i].id == id
    }

    /// The place of the stream in the table, where the table holds it.
    pub open spec fn index_of(self, id: StreamId) -> int {
        choose|i: int| 0 <= i < self.streams.len() && #[trigger] self.streams[i].id == id
    }

    /// The identifier has been used on this connection: a stream of this
    /// side below the next to be opened, or a stream of the peer up to the
    /// highest it has opened.
    pub open spec fn was_used(self, id: StreamId) -> bool {
        (is_local_id(self.role, id) && id < self.next_stream_id) || (is_peer_id(self.role, id)
            && id <= self.last_peer_stream_id)
    }

    /// The state of any stream: that of its entry where the table holds
    /// it, else closed where the identifier has been used, else idle.
    pub open spec fn state_of(self, id: StreamId) -> StreamState {
        if self.has_stream(id) {
            self.streams[self.index_of(id)].state
        } else if self.was_used(id) {
            StreamState::Closed
        } else {
            StreamState::Idle
        }
    }

    /// No two entries of the table have the same identifier.
    pub open spec fn ids_unique(self) -> bool {
        forall|i: int, j: int|
            0 <= i < self.streams.len() && 0 <= j < self.streams.len() && i != j
                ==> #[trigger] self.streams[i].id != #[trigger] self.streams[j].id
    }

    /// A frame on this stream may be written: where the stream is one of
    /// the peer, the peer has opened it.
    pub open spec fn may_write_on(self, id: StreamId) -> bool {
        is_peer_id(self.role, id) ==> id <= self.last_peer_stream_id
    }

    /// A header block of the queue is announced for the stream `id`.
    pub open spec fn is_announced(self, id: StreamId) -> bool {
        exists|i: int| 0 <= i < self.ordered.len() && (#[trigger] self.ordered[i]).announces(id)
    }

    /// What holds of the numbers of the connection: settings and windows
    /// are in range, the next stream of this side is one of this side, the
    /// highest stream of the peer is one of the peer, and GOAWAY of this
    /// side has named that stream.
    pub open spec fn wf_scalars(self) -> bool {
        &&& self.local_settings.wf()
        &&& self.peer_settings.wf()
        &&& 0 <= self.send_window.size
        &&& 0 <= self.recv_window.size
        &&& is_local_id(self.role, self.next_stream_id)
        &&& self.next_stream_id <= MAX_STREAM_ID + 2
        &&& self.last_peer_stream_id <= MAX_STREAM_ID
        &&& self.last_peer_stream_id == 0 || is_peer_id(self.role, self.last_peer_stream_id)
        &&& self.goaway_sent matches Some(l) ==> l == self.last_peer_stream_id
        &&& self.failed.is_some() ==> self.streams.len() == 0 && self.ordered.len() == 0
    }

    /// What holds of the table: no identifier stands twice, every entry is
    /// a stream that has been opened and not closed.
    pub open spec fn wf_streams(self) -> bool {
        &&& self.ids_unique()
        &&& forall|i: int|
            0 <= i < self.streams.len() ==> (#[trigger] self.streams[i]).wf() && self.was_used(
                self.streams[i].id,
            )
        &&& self.cursor <= self.streams.len()
    }

    /// What holds of the frames that wait: each fits the wire; none but a
    /// refusal is for a stream of the peer that the peer has not opened;
    /// what is left of a header block stands in front.
    pub open spec fn wf_queues(self) -> bool {
        &&& forall|i: int|
            0 <= i < self.control.len() ==> (#[trigger] self.control[i]).wf() && (
            self.may_write_on(self.control[i].stream_id()) || self.control[i].is_refusal())
        &&& forall|i: int|
            0 <= i < self.ordered.len() ==> (#[trigger] self.ordered[i]).wf() && self.may_write_on(
                self.ordered[i].stream_id(),
            )
        &&& forall|i: int| 0 < i < self.ordered.len() ==> !(#[trigger] self.ordered[i] is Continuation)
    }

    /// What holds of the connection at all times.
    pub open spec fn wf(self) -> bool {
        self.wf_scalars() && self.wf_streams() && self.wf_queues()
    }

    /// The connection as it is when the handshake has been written: the
    /// first SETTINGS of this side, which switches server push off, waits
    /// for its acknowledgement, and nothing has come from the peer.
    pub open spec fn initial(role: Role) -> ConnectionView {
        ConnectionView::initial_with(role, false)
    }

    /// The connection as it is when the first SETTINGS of this side has
    /// been written, with server push admitted or not as that frame says.
    pub open spec fn initial_with(role: Role, enable_push: bool) -> ConnectionView {
        ConnectionView {
            role,
            local_settings: Settings { enable_push, ..Settings::spec_default() },
            peer_settings: Settings::spec_default(),
            peer_unknown_settings: Seq::empty(),
            peer_settings_seen: false,
            unacked_settings: 1,
            next_stream_id: if role is Client {
                1
            } else {
                2
            },
            last_peer_stream_id: 0,
            send_window: Window { size: 65_535 },
            recv_window: Window { size: 65_535 },
            goaway_sent: None,
            goaway_received: None,
            outstanding_ping: None,
            next_ping: 0,
            failed: None,
            streams: Seq::empty(),
            gave_up: Seq::empty(),
            control: Seq::empty(),
            ordered: Seq::empty(),
            cursor: 0,
        }
    }

    /// The connection after a connection error: every stream is gone, and
    /// the only frame left to write is GOAWAY with the code and the
    /// highest stream that the peer has opened.
    pub open spec fn fail(self, code: ErrorCode) -> (ConnectionView, Option<EventView>) {
        (
            ConnectionView {
                failed: Some(Failure::Code(code)),
                goaway_sent: Some(self.last_peer_stream_id),
                streams: Seq::empty(),
                control: seq![
                    ControlFrame::Goaway { last_stream_id: self.last_peer_stream_id, code },
                ],
                ordered: Seq::empty(),
                cursor: 0,
                ..self
            },
            Some(EventView::ConnectionError(code)),
        )
    }

    /// The connection with one more control frame waiting.
    pub open spec fn with_control(self, f: ControlFrame) -> ConnectionView {
        ConnectionView { control: self.control.push(f), ..self }
    }

    /// The connection without the stream at `i`. The search for the next
    /// stream with data begins where it began.
    pub open spec fn without_stream(self, i: int) -> ConnectionView {
        ConnectionView {
            streams: self.streams.remove(i),
            cursor: if self.cursor > i {
                (self.cursor - 1) as nat
            } else {
                self.cursor
            },
            ..self
        }
    }

    /// The connection with the stream at `i` replaced; a stream that has
    /// become closed leaves the table.
    pub open spec fn with_stream(self, i: int, s: StreamView) -> ConnectionView {
        if s.state == StreamState::Closed {
            self.without_stream(i)
        } else {
            ConnectionView { streams: self.streams.update(i, s), ..self }
        }
    }

    /// The connection with one more stream at the end of the table.
    pub open spec fn with_new_stream(self, s: StreamView) -> ConnectionView {
        ConnectionView { streams: self.streams.push(s), ..self }
    }

    /// The connection after a stream error: the stream, where the table
    /// holds it, is gone and counts as given up, and RST_STREAM with the
    /// code waits to be written, behind the header block that announces
    /// the stream where one still waits, else among the control frames.
    pub open spec fn reset_stream(self, id: StreamId, code: ErrorCode) -> ConnectionView {
        let c = if self.has_stream(id) {
            ConnectionView {
                gave_up: self.gave_up.push(id),
                ..self.without_stream(self.index_of(id))
            }
        } else {
            self
        };
        if self.is_announced(id) {
            ConnectionView {
                ordered: c.ordered.push(QueuedView::RstStream { stream_id: id, code }),
                ..c
            }
        } else {
            c.with_control(ControlFrame::RstStream { stream_id: id, code })
        }
    }
}

} // verus!
