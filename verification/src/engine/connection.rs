//! The connection as it runs.
//!
//! [`Connection`] holds what [`ConnectionView`] describes. Every function
//! here does to the connection what the function of the same name does to
//! its view, and keeps the invariant of the view.

use crate::buf::bytes_from_vec;
use crate::buf::bytes_view;
use crate::engine::inbound::{adjust_all, all_adjustable, unknown_of};
use crate::engine::outbound::{block_flags, LocalError};
use crate::engine::proofs_outbound::{
    lemma_cancel, lemma_pick, lemma_poll, lemma_push_promise, lemma_send_data,
    lemma_send_headers, lemma_shutdown, lemma_start_request, lemma_tick, lemma_wf_fits,
};
use crate::frame::continuation::ContinuationFrame;
use crate::engine::model::{
    ConnectionView, ControlFrame, EventView, Failure, QueuedView, Role, StreamView,
};
use crate::engine::proofs_inbound::{lemma_fail, lemma_on_frame, lemma_take_recv_wf};
use crate::engine::table::{lemma_found, lemma_index_of};
use crate::error::{Error, ErrorCode};
use crate::framer::{recv_http_frame_join_cont, rest_after, spec_recv_http_frame_join_cont};
use crate::reader::ByteReader;
use crate::frame::data::DataFrame;
use crate::frame::flags::{is_set, lemma_unpad_padded, PADDED};
use crate::frame::goaway::GoawayFrame;
use crate::frame::header::{StreamId, MAX_STREAM_ID};
use crate::frame::headers::HeadersFrame;
use crate::frame::http_frame::HttpFrame;
use crate::frame::ping::PingFrame;
use crate::frame::priority::{PriorityFrame, StreamDependency};
use crate::frame::push_promise::PushPromiseFrame;
use crate::frame::rst_stream::RstStreamFrame;
use crate::frame::settings::{
    all_settings_wf, HttpSetting, SettingsFrame, MAX_MAX_FRAME_SIZE, MAX_WINDOW_SIZE,
    MIN_MAX_FRAME_SIZE,
};
use crate::frame::window_update::WindowUpdateFrame;
use crate::join::option_view;
use crate::settings::Settings;
use crate::stream_state::{StreamEvent, StreamState};
use crate::window::{Window, DEFAULT_WINDOW_SIZE};
use bytes::Bytes;
use vstd::prelude::*;

verus! {

/// A stream of the table.
struct Stream {
    pub id: StreamId,
    pub state: StreamState,
    pub send_window: Window,
    pub recv_window: Window,
    pub pending: Vec<u8>,
    pub pending_end: bool,
    pub priority: Option<StreamDependency>,
    pub submitted: Ghost<Seq<u8>>,
    pub sent: Ghost<Seq<u8>>,
}

impl View for Stream {
    type V = StreamView;

    closed spec fn view(&self) -> StreamView {
        StreamView {
            id: self.id,
            state: self.state,
            send_window: self.send_window,
            recv_window: self.recv_window,
            pending: self.pending@,
            pending_end: self.pending_end,
            priority: self.priority,
            submitted: self.submitted@,
            sent: self.sent@,
        }
    }
}

/// An entry of the ordered queue.
enum Queued {
    Headers { stream_id: StreamId, block: Bytes, end_stream: bool },
    PushPromise { stream_id: StreamId, promised_stream_id: StreamId, block: Bytes },
    Continuation { stream_id: StreamId, block: Bytes },
    RstStream { stream_id: StreamId, code: ErrorCode },
}

impl View for Queued {
    type V = QueuedView;

    closed spec fn view(&self) -> QueuedView {
        match self {
            Queued::Headers { stream_id, block, end_stream } => QueuedView::Headers {
                stream_id: *stream_id,
                block: bytes_view(*block),
                end_stream: *end_stream,
            },
            Queued::PushPromise { stream_id, promised_stream_id, block } => QueuedView::PushPromise {
                stream_id: *stream_id,
                promised_stream_id: *promised_stream_id,
                block: bytes_view(*block),
            },
            Queued::Continuation { stream_id, block } => QueuedView::Continuation {
                stream_id: *stream_id,
                block: bytes_view(*block),
            },
            Queued::RstStream { stream_id, code } => QueuedView::RstStream {
                stream_id: *stream_id,
                code: *code,
            },
        }
    }
}

/// What the engine tells the application when a frame has been received.
#[derive(Clone, Debug, PartialEq, Eq)]
pub enum Event {
    /// A header block for a stream. It is still compressed.
    Headers { stream_id: StreamId, block: Bytes, end_stream: bool },
    /// Bytes of the body of a stream.
    Data { stream_id: StreamId, data: Bytes, end_stream: bool },
    /// A header block that nobody waits for: that of a stream which this
    /// side has given up or refused. It has to pass the decoder, which
    /// keeps its table in step with the peer by it, and is dropped then.
    HeadersDropped { stream_id: StreamId, block: Bytes },
    /// The peer promises a stream; the block is the request it answers.
    PushPromise { stream_id: StreamId, promised_stream_id: StreamId, block: Bytes },
    /// The peer has reset a stream.
    StreamReset { stream_id: StreamId, code: ErrorCode },
    /// The peer accepts no new streams.
    Goaway { last_stream_id: StreamId, code: ErrorCode },
    /// The peer has acknowledged SETTINGS of this side.
    SettingsAcked,
    /// The peer has answered the PING of this side.
    PingAcked,
    /// The connection has ended on an error of the peer; GOAWAY with this
    /// code waits to be written.
    ConnectionError(ErrorCode),
}

impl View for Event {
    type V = EventView;

    open spec fn view(&self) -> EventView {
        match self {
            Event::Headers { stream_id, block, end_stream } => EventView::Headers {
                stream_id: *stream_id,
                block: bytes_view(*block),
                end_stream: *end_stream,
            },
            Event::Data { stream_id, data, end_stream } => EventView::Data {
                stream_id: *stream_id,
                data: bytes_view(*data),
                end_stream: *end_stream,
            },
            Event::HeadersDropped { stream_id, block } => EventView::HeadersDropped {
                stream_id: *stream_id,
                block: bytes_view(*block),
            },
            Event::PushPromise { stream_id, promised_stream_id, block } => EventView::PushPromise {
                stream_id: *stream_id,
                promised_stream_id: *promised_stream_id,
                block: bytes_view(*block),
            },
            Event::StreamReset { stream_id, code } => EventView::StreamReset {
                stream_id: *stream_id,
                code: *code,
            },
            Event::Goaway { last_stream_id, code } => EventView::Goaway {
                last_stream_id: *last_stream_id,
                code: *code,
            },
            Event::SettingsAcked => EventView::SettingsAcked,
            Event::PingAcked => EventView::PingAcked,
            Event::ConnectionError(code) => EventView::ConnectionError(*code),
        }
    }
}

/// What `receive` hands back, with the view of the event.
pub open spec fn event_result_view(r: Result<Option<Event>, Error>) -> Result<
    Option<EventView>,
    Error,
> {
    match r {
        Ok(e) => Ok(option_view(e)),
        Err(e) => Err(e),
    }
}

/// The views of the streams of a table.
spec fn stream_views(streams: Seq<Stream>) -> Seq<StreamView> {
    Seq::new(streams.len(), |i: int| streams[i]@)
}

/// The views of the entries of an ordered queue.
spec fn queued_views(queue: Seq<Queued>) -> Seq<QueuedView> {
    Seq::new(queue.len(), |i: int| queue[i]@)
}

/// One connection.
pub struct Connection {
    role: Role,
    local_settings: Settings,
    peer_settings: Settings,
    peer_unknown_settings: Vec<HttpSetting>,
    peer_settings_seen: bool,
    unacked_settings: u32,
    next_stream_id: u32,
    last_peer_stream_id: StreamId,
    send_window: Window,
    recv_window: Window,
    goaway_sent: Option<StreamId>,
    goaway_received: Option<StreamId>,
    outstanding_ping: Option<u64>,
    next_ping: u64,
    failed: Option<Failure>,
    streams: Vec<Stream>,
    gave_up: Vec<StreamId>,
    control: Vec<ControlFrame>,
    ordered: Vec<Queued>,
    cursor: usize,
}

impl View for Connection {
    type V = ConnectionView;

    closed spec fn view(&self) -> ConnectionView {
        ConnectionView {
            role: self.role,
            local_settings: self.local_settings,
            peer_settings: self.peer_settings,
            peer_unknown_settings: self.peer_unknown_settings@,
            peer_settings_seen: self.peer_settings_seen,
            unacked_settings: self.unacked_settings,
            next_stream_id: self.next_stream_id,
            last_peer_stream_id: self.last_peer_stream_id,
            send_window: self.send_window,
            recv_window: self.recv_window,
            goaway_sent: self.goaway_sent,
            goaway_received: self.goaway_received,
            outstanding_ping: self.outstanding_ping,
            next_ping: self.next_ping,
            failed: self.failed,
            streams: stream_views(self.streams@),
            gave_up: self.gave_up@,
            control: self.control@,
            ordered: queued_views(self.ordered@),
            cursor: self.cursor as nat,
        }
    }
}

impl Connection {
    /// A connection whose handshake has been written.
    pub fn new(role: Role) -> (c: Connection)
        ensures
            c@ == ConnectionView::initial(role),
            c@.wf(),
    {
        Connection::with_push(role, false)
    }

    /// A connection whose first SETTINGS has been written, and says of
    /// server push what `enable_push` says.
    pub fn with_push(role: Role, enable_push: bool) -> (c: Connection)
        ensures
            c@ == ConnectionView::initial_with(role, enable_push),
            c@.wf(),
    {
        let mut local_settings = Settings::new();
        local_settings.enable_push = enable_push;
        let c = Connection {
            role,
            local_settings,
            peer_settings: Settings::new(),
            peer_unknown_settings: Vec::new(),
            peer_settings_seen: false,
            unacked_settings: 1,
            next_stream_id: match role {
                Role::Client => 1,
                Role::Server => 2,
            },
            last_peer_stream_id: 0,
            send_window: Window { size: 65_535 },
            recv_window: Window { size: 65_535 },
            goaway_sent: None,
            goaway_received: None,
            outstanding_ping: None,
            next_ping: 0,
            failed: None,
            streams: Vec::new(),
            gave_up: Vec::new(),
            control: Vec::new(),
            ordered: Vec::new(),
            cursor: 0,
        };
        assert(c@.streams =~= Seq::empty());
        assert(c@.gave_up =~= Seq::empty());
        assert(c@.ordered =~= Seq::empty());
        assert(c@.control =~= Seq::empty());
        assert(c@.peer_unknown_settings =~= Seq::empty());
        c
    }

    /// The place of a stream in the table.
    fn find(&self, id: StreamId) -> (r: Option<usize>)
        requires
            self@.ids_unique(),
        ensures
            r is Some == self@.has_stream(id),
            r matches Some(i) ==> i == self@.index_of(id) && i < self.streams@.len()
                && self.streams@[i as int].id == id,
    {
        let n: usize = self.streams.len();
        let mut i: usize = 0;
        while i < n
            invariant
                i <= n,
                n == self.streams@.len(),
                self@.ids_unique(),
                forall|j: int| 0 <= j < i ==> self.streams@[j].id != id,
            decreases n - i,
        {
            if self.streams[i].id == id {
                proof {
                    assert(self@.streams[i as int].id == id);
                    lemma_index_of(self@, i as int);
                }
                return Some(i);
            }
            i = i + 1;
        }
        proof {
            if self@.has_stream(id) {
                lemma_found(self@, id);
                let k = self@.index_of(id);
                assert(self.streams@[k].id == id);
            }
        }
        None
    }

    /// Tells whether the identifier has been used on this connection.
    fn id_was_used(&self, id: StreamId) -> (r: bool)
        ensures
            r == self@.was_used(id),
    {
        if id == 0 {
            return false;
        }
        let odd: bool = id % 2 == 1;
        let local: bool = match self.role {
            Role::Client => odd,
            Role::Server => !odd,
        };
        if local {
            id < self.next_stream_id
        } else {
            id <= self.last_peer_stream_id
        }
    }

    /// Tells whether the stream is one that the peer opens.
    fn id_is_peers(&self, id: StreamId) -> (r: bool)
        ensures
            r == crate::engine::model::is_peer_id(self@.role, id),
    {
        if id == 0 {
            return false;
        }
        let odd: bool = id % 2 == 1;
        match self.role {
            Role::Client => !odd,
            Role::Server => odd,
        }
    }

    /// Ends the connection on a connection error.
    fn fail(&mut self, code: ErrorCode) -> (e: Option<Event>)
        ensures
            (final(self)@, crate::join::option_view(e)) == old(self)@.fail(code),
    {
        self.failed = Some(Failure::Code(code));
        self.goaway_sent = Some(self.last_peer_stream_id);
        self.streams = Vec::new();
        let mut control: Vec<ControlFrame> = Vec::new();
        control.push(ControlFrame::Goaway { last_stream_id: self.last_peer_stream_id, code });
        self.control = control;
        self.ordered = Vec::new();
        self.cursor = 0;
        assert(self@.streams =~= Seq::empty());
        assert(self@.ordered =~= Seq::empty());
        assert(self@.control =~= seq![
            ControlFrame::Goaway { last_stream_id: old(self)@.last_peer_stream_id, code },
        ]);
        Some(Event::ConnectionError(code))
    }

    /// Lets one more control frame wait.
    fn push_control(&mut self, f: ControlFrame)
        ensures
            final(self)@ == old(self)@.with_control(f),
    {
        self.control.push(f);
    }

    /// Takes the stream at `i` out of the table.
    fn remove_stream(&mut self, i: usize)
        requires
            i < old(self)@.streams.len(),
            old(self)@.cursor <= old(self)@.streams.len(),
        ensures
            final(self)@ == old(self)@.without_stream(i as int),
    {
        let _ = self.streams.remove(i);
        if self.cursor > i {
            self.cursor = self.cursor - 1;
        }
        assert(self@.streams =~= old(self)@.streams.remove(i as int));
    }

    /// Tells whether a header block of the queue announces the stream.
    fn is_announced(&self, id: StreamId) -> (r: bool)
        ensures
            r == self@.is_announced(id),
    {
        let n: usize = self.ordered.len();
        let mut i: usize = 0;
        while i < n
            invariant
                i <= n,
                n == self.ordered@.len(),
                forall|j: int| 0 <= j < i ==> !self@.ordered[j].announces(id),
            decreases n - i,
        {
            let hit: bool = match &self.ordered[i] {
                Queued::Headers { stream_id, .. } => *stream_id == id,
                Queued::PushPromise { promised_stream_id, .. } => *promised_stream_id == id,
                _ => false,
            };
            assert(hit == self@.ordered[i as int].announces(id));
            if hit {
                return true;
            }
            i = i + 1;
        }
        false
    }

    /// Resets a stream on a stream error.
    fn reset_stream(&mut self, id: StreamId, code: ErrorCode)
        requires
            old(self)@.wf(),
        ensures
            final(self)@ == old(self)@.reset_stream(id, code),
    {
        let announced: bool = self.is_announced(id);
        match self.find(id) {
            Some(i) => {
                self.remove_stream(i);
                self.gave_up.push(id);
            },
            None => {},
        }
        if announced {
            self.ordered.push(Queued::RstStream { stream_id: id, code });
            assert(self@.ordered =~= old(self)@.ordered.push(
                QueuedView::RstStream { stream_id: id, code },
            ));
        } else {
            self.push_control(ControlFrame::RstStream { stream_id: id, code });
        }
    }
}

/// Tells whether every setting of a list has a value that it may have.
fn settings_valid(settings: &Vec<HttpSetting>) -> (r: bool)
    ensures
        r == all_settings_wf(settings@),
{
    let n: usize = settings.len();
    let mut i: usize = 0;
    while i < n
        invariant
            i <= n,
            n == settings@.len(),
            forall|j: int| 0 <= j < i ==> (#[trigger] settings@[j]).wf(),
        decreases n - i,
    {
        let ok: bool = match settings[i] {
            HttpSetting::InitialWindowSize(v) => v <= MAX_WINDOW_SIZE,
            HttpSetting::MaxFrameSize(v) => MIN_MAX_FRAME_SIZE <= v && v <= MAX_MAX_FRAME_SIZE,
            HttpSetting::Unknown(id, _) => id == 0 || id > 6,
            _ => true,
        };
        if !ok {
            return false;
        }
        i = i + 1;
    }
    true
}

impl Connection {
    /// Tells whether the send window of every stream can be moved by
    /// `delta`.
    fn all_adjustable(&self, delta: i64) -> (r: bool)
        ensures
            r == all_adjustable(self@.streams, delta),
    {
        let n: usize = self.streams.len();
        let mut i: usize = 0;
        while i < n
            invariant
                i <= n,
                n == self.streams@.len(),
                forall|j: int|
                    0 <= j < i ==> (#[trigger] self@.streams[j]).send_window.spec_adjust(
                        delta,
                    ).is_some(),
            decreases n - i,
        {
            let mut w = self.streams[i].send_window;
            assert(w == self@.streams[i as int].send_window);
            if w.adjust(delta).is_err() {
                return false;
            }
            i = i + 1;
        }
        true
    }

    /// Moves the send window of every stream by `delta`.
    fn adjust_all(&mut self, delta: i64)
        requires
            all_adjustable(old(self)@.streams, delta),
        ensures
            final(self)@ == (ConnectionView {
                streams: adjust_all(old(self)@.streams, delta),
                ..old(self)@
            }),
    {
        let n: usize = self.streams.len();
        let mut i: usize = 0;
        while i < n
            invariant
                i <= n,
                n == self.streams@.len(),
                n == old(self).streams@.len(),
                all_adjustable(old(self)@.streams, delta),
                forall|j: int|
                    0 <= j < i ==> self@.streams[j] == adjust_all(old(self)@.streams, delta)[j],
                forall|j: int| i <= j < n ==> self@.streams[j] == old(self)@.streams[j],
                self@ == (ConnectionView { streams: self@.streams, ..old(self)@ }),
            decreases n - i,
        {
            let ghost before = self@.streams;
            assert(old(self)@.streams[i as int].send_window.spec_adjust(delta).is_some());
            assert(before[i as int] == old(self)@.streams[i as int]);
            let mut w = self.streams[i].send_window;
            let _ = w.adjust(delta);
            self.streams[i].send_window = w;
            assert forall|j: int| 0 <= j < n && j != i implies self@.streams[j] == before[j] by {}
            assert(self@.streams[i as int] == StreamView { send_window: w, ..before[i as int] });
            assert(self@.streams[i as int] == adjust_all(old(self)@.streams, delta)[i as int]);
            assert forall|j: int| 0 <= j < i + 1 implies self@.streams[j] == adjust_all(
                old(self)@.streams,
                delta,
            )[j] by {
                if j < i {
                    assert(self@.streams[j] == before[j]);
                }
            }
            assert forall|j: int| i + 1 <= j < n implies self@.streams[j] == old(
                self,
            )@.streams[j] by {
                assert(self@.streams[j] == before[j]);
            }
            i = i + 1;
        }
        assert(self@.streams =~= adjust_all(old(self)@.streams, delta));
    }

    /// Keeps the settings of a list that have no meaning here.
    fn keep_unknown(&mut self, settings: &Vec<HttpSetting>)
        ensures
            final(self)@ == (ConnectionView {
                peer_unknown_settings: old(self)@.peer_unknown_settings + unknown_of(settings@),
                ..old(self)@
            }),
    {
        let n: usize = settings.len();
        let mut i: usize = 0;
        assert(settings@.take(0) =~= Seq::empty());
        assert(self@.peer_unknown_settings =~= old(self)@.peer_unknown_settings + unknown_of(
            settings@.take(0),
        ));
        while i < n
            invariant
                i <= n,
                n == settings@.len(),
                self@ == (ConnectionView {
                    peer_unknown_settings: old(self)@.peer_unknown_settings + unknown_of(
                        settings@.take(i as int),
                    ),
                    ..old(self)@
                }),
            decreases n - i,
        {
            proof {
                let t = settings@.take(i + 1);
                assert(t.drop_last() =~= settings@.take(i as int));
                assert(t.last() == settings@[i as int]);
            }
            match settings[i] {
                HttpSetting::Unknown(id, value) => {
                    self.peer_unknown_settings.push(HttpSetting::Unknown(id, value));
                    assert(self@.peer_unknown_settings =~= old(self)@.peer_unknown_settings
                        + unknown_of(settings@.take(i + 1)));
                },
                _ => {},
            }
            i = i + 1;
        }
        assert(settings@.take(n as int) =~= settings@);
    }

    fn on_settings(&mut self, f: SettingsFrame) -> (e: Option<Event>)
        requires
            old(self)@.wf(),
        ensures
            (final(self)@, option_view(e)) == old(self)@.on_settings(f@),
    {
        if f.is_ack() {
            if self.unacked_settings == 0 {
                self.fail(ErrorCode::ProtocolError)
            } else {
                self.unacked_settings = self.unacked_settings - 1;
                Some(Event::SettingsAcked)
            }
        } else if !settings_valid(&f.settings) {
            self.fail(ErrorCode::ProtocolError)
        } else {
            let mut peer = self.peer_settings;
            peer.apply_all(&f.settings);
            let delta: i64 = peer.initial_window_size as i64
                - self.peer_settings.initial_window_size as i64;
            if !self.all_adjustable(delta) {
                self.fail(ErrorCode::FlowControlError)
            } else {
                self.adjust_all(delta);
                self.keep_unknown(&f.settings);
                self.peer_settings = peer;
                self.peer_settings_seen = true;
                self.push_control(ControlFrame::SettingsAck);
                None
            }
        }
    }

    fn on_ping(&mut self, f: PingFrame) -> (e: Option<Event>)
        ensures
            (final(self)@, option_view(e)) == old(self)@.on_ping(f),
    {
        if f.is_ack() {
            let matches: bool = match self.outstanding_ping {
                Some(sent) => sent == f.opaque_data,
                None => false,
            };
            if matches {
                self.outstanding_ping = None;
                Some(Event::PingAcked)
            } else {
                None
            }
        } else {
            self.push_control(ControlFrame::PingAck(f.opaque_data));
            None
        }
    }

    /// Puts a stream that stays in the table back at `i`, or takes out one
    /// that has become closed.
    fn settle_stream(&mut self, i: usize, state: StreamState)
        requires
            i < old(self)@.streams.len(),
            old(self)@.cursor <= old(self)@.streams.len(),
        ensures
            final(self)@ == old(self)@.with_stream(
                i as int,
                StreamView { state, ..old(self)@.streams[i as int] },
            ),
    {
        match state {
            StreamState::Closed => {
                self.remove_stream(i);
            },
            _ => {
                self.streams[i].state = state;
                assert(self@.streams =~= old(self)@.streams.update(
                    i as int,
                    StreamView { state, ..old(self)@.streams[i as int] },
                ));
            },
        }
    }

    fn on_window_update(&mut self, f: WindowUpdateFrame) -> (e: Option<Event>)
        requires
            old(self)@.wf(),
        ensures
            (final(self)@, option_view(e)) == old(self)@.on_window_update(f),
    {
        let id: StreamId = f.stream_id;
        if id == 0 {
            if f.increment == 0 {
                return self.fail(ErrorCode::ProtocolError);
            }
            let mut w = self.send_window;
            match w.credit(f.increment) {
                Err(_) => self.fail(ErrorCode::FlowControlError),
                Ok(()) => {
                    self.send_window = w;
                    None
                },
            }
        } else {
            match self.find(id) {
                Some(i) => {
                    if f.increment == 0 {
                        self.reset_stream(id, ErrorCode::ProtocolError);
                        return Some(
                            Event::StreamReset { stream_id: id, code: ErrorCode::ProtocolError },
                        );
                    }
                    let mut w = self.streams[i].send_window;
                    assert(w == self@.streams[i as int].send_window);
                    match w.credit(f.increment) {
                        Err(_) => {
                            self.reset_stream(id, ErrorCode::FlowControlError);
                            Some(
                                Event::StreamReset {
                                    stream_id: id,
                                    code: ErrorCode::FlowControlError,
                                },
                            )
                        },
                        Ok(()) => {
                            proof {
                                assert(old(self)@.streams[i as int].wf());
                            }
                            self.streams[i].send_window = w;
                            assert(self@.streams =~= old(self)@.streams.update(
                                i as int,
                                StreamView { send_window: w, ..old(self)@.streams[i as int] },
                            ));
                            None
                        },
                    }
                },
                None => {
                    if self.id_was_used(id) {
                        None
                    } else {
                        self.fail(ErrorCode::ProtocolError)
                    }
                },
            }
        }
    }

    /// Puts a stream that a frame has just opened at the end of the table.
    fn open_stream(&mut self, id: StreamId, state: StreamState, priority: Option<StreamDependency>)
        requires
            old(self)@.wf_scalars(),
        ensures
            final(self)@ == old(self)@.with_new_stream(
                StreamView {
                    priority,
                    ..StreamView::fresh(
                        id,
                        state,
                        old(self)@.peer_settings.initial_window_size,
                        old(self)@.local_settings.initial_window_size,
                    )
                },
            ),
    {
        let s = Stream {
            id,
            state,
            send_window: Window { size: self.peer_settings.initial_window_size as i32 },
            recv_window: Window { size: self.local_settings.initial_window_size as i32 },
            pending: Vec::new(),
            pending_end: false,
            priority,
            submitted: Ghost(Seq::empty()),
            sent: Ghost(Seq::empty()),
        };
        self.streams.push(s);
        assert(self@.streams =~= old(self)@.streams.push(
            StreamView {
                priority,
                ..StreamView::fresh(
                    id,
                    state,
                    old(self)@.peer_settings.initial_window_size,
                    old(self)@.local_settings.initial_window_size,
                )
            },
        ));
    }

    fn on_headers(&mut self, f: HeadersFrame) -> (e: Option<Event>)
        requires
            old(self)@.wf(),
        ensures
            (final(self)@, option_view(e)) == old(self)@.on_headers(f@),
    {
        let id: StreamId = f.stream_id;
        let end: bool = f.is_end_of_stream();
        if !f.is_headers_end() {
            return self.fail(ErrorCode::ProtocolError);
        }
        match self.find(id) {
            Some(i) => {
                let state = self.streams[i].state;
                assert(state == self@.streams[i as int].state);
                match state.transition(StreamEvent::RecvHeaders { end_stream: end }) {
                    Err(_) => self.fail(ErrorCode::ProtocolError),
                    Ok(next) => {
                        if f.stream_dep.is_some() {
                            self.streams[i].priority = f.stream_dep;
                        }
                        assert(self@.streams =~= old(self)@.streams.update(
                            i as int,
                            StreamView {
                                priority: if f.stream_dep.is_some() {
                                    f.stream_dep
                                } else {
                                    old(self)@.streams[i as int].priority
                                },
                                ..old(self)@.streams[i as int]
                            },
                        ));
                        self.settle_stream(i, next);
                        proof {
                            let s0 = old(self)@.streams[i as int];
                            let s2 = StreamView {
                                state: next,
                                priority: if f.stream_dep.is_some() {
                                    f.stream_dep
                                } else {
                                    s0.priority
                                },
                                ..s0
                            };
                            assert(self@.streams =~= old(self)@.with_stream(i as int, s2).streams);
                        }
                        Some(
                            Event::Headers {
                                stream_id: id,
                                block: f.header_fragment,
                                end_stream: end,
                            },
                        )
                    },
                }
            },
            None => {
                if self.id_is_peers(id) && id > self.last_peer_stream_id {
                    match self.role {
                        Role::Client => self.fail(ErrorCode::ProtocolError),
                        Role::Server => {
                            if self.goaway_sent.is_some() {
                                self.push_control(
                                    ControlFrame::RstStream {
                                        stream_id: id,
                                        code: ErrorCode::RefusedStream,
                                    },
                                );
                                Some(
                                    Event::HeadersDropped {
                                        stream_id: id,
                                        block: f.header_fragment,
                                    },
                                )
                            } else {
                                let state = if end {
                                    StreamState::HalfClosedRemote
                                } else {
                                    StreamState::Open
                                };
                                self.open_stream(id, state, f.stream_dep);
                                self.last_peer_stream_id = id;
                                Some(
                                    Event::Headers {
                                        stream_id: id,
                                        block: f.header_fragment,
                                        end_stream: end,
                                    },
                                )
                            }
                        },
                    }
                } else if self.has_given_up(id) {
                    Some(Event::HeadersDropped { stream_id: id, block: f.header_fragment })
                } else {
                    self.fail(ErrorCode::ProtocolError)
                }
            },
        }
    }

    /// Tells whether this side has reset the stream while it was in the
    /// table.
    fn has_given_up(&self, id: StreamId) -> (r: bool)
        ensures
            r == self@.gave_up.contains(id),
    {
        let n: usize = self.gave_up.len();
        let mut i: usize = 0;
        while i < n
            invariant
                i <= n,
                n == self.gave_up@.len(),
                forall|j: int| 0 <= j < i ==> self.gave_up@[j] != id,
            decreases n - i,
        {
            if self.gave_up[i] == id {
                assert(self@.gave_up[i as int] == id);
                return true;
            }
            i = i + 1;
        }
        false
    }

    /// Takes `n` bytes from the receive window of the connection and
    /// fills it up again where it has dropped below half.
    fn take_recv(&mut self, n: u32)
        requires
            n <= old(self)@.recv_window.size,
        ensures
            final(self)@ == old(self)@.take_recv(n as nat),
    {
        let mut w = Window { size: self.recv_window.size - n as i32 };
        match w.refill(DEFAULT_WINDOW_SIZE) {
            Some(inc) => {
                self.recv_window = w;
                self.push_control(ControlFrame::WindowUpdate { stream_id: 0, increment: inc });
            },
            None => {
                self.recv_window = w;
            },
        }
    }

    fn on_data(&mut self, f: DataFrame) -> (e: Option<Event>)
        requires
            old(self)@.wf(),
        ensures
            (final(self)@, option_view(e)) == old(self)@.on_data(f@),
    {
        let id: StreamId = f.stream_id;
        let end: bool = f.is_end_of_stream();
        let data_len: usize = f.data.len();
        proof {
            lemma_unpad_padded(true, f.padding_len, f@.data);
        }
        if data_len > 0x7fff_ffff {
            return self.fail(ErrorCode::FlowControlError);
        }
        let n: u32 = if is_set(f.flags, PADDED) {
            data_len as u32 + 1 + f.padding_len as u32
        } else {
            data_len as u32
        };
        assert(n == f@.payload().len());
        if n > self.recv_window.size as u32 {
            return self.fail(ErrorCode::FlowControlError);
        }
        match self.find(id) {
            None => {
                if self.id_was_used(id) {
                    self.take_recv(n);
                    self.push_control(
                        ControlFrame::RstStream { stream_id: id, code: ErrorCode::StreamClosed },
                    );
                    None
                } else {
                    self.fail(ErrorCode::ProtocolError)
                }
            },
            Some(i) => {
                let state = self.streams[i].state;
                let recv = self.streams[i].recv_window;
                assert(state == self@.streams[i as int].state);
                assert(recv == self@.streams[i as int].recv_window);
                assert(self@.streams[i as int].wf());
                match state.transition(StreamEvent::RecvData { end_stream: end }) {
                    Err(_) => self.fail(ErrorCode::ProtocolError),
                    Ok(next) => {
                        if n > recv.size as u32 {
                            self.take_recv(n);
                            proof {
                                assert(self@.streams == old(self)@.streams);
                                assert(self@.has_stream(id) == old(self)@.has_stream(id));
                                assert(self@.index_of(id) == old(self)@.index_of(id));
                                lemma_take_recv_wf(old(self)@, n as nat);
                            }
                            self.reset_stream(id, ErrorCode::FlowControlError);
                            return Some(
                                Event::StreamReset {
                                    stream_id: id,
                                    code: ErrorCode::FlowControlError,
                                },
                            );
                        }
                        let mut w = Window { size: recv.size - n as i32 };
                        let refill: Option<u32> = if end {
                            None
                        } else {
                            w.refill(self.local_settings.initial_window_size)
                        };
                        self.take_recv(n);
                        self.streams[i].recv_window = w;
                        assert(self@.streams =~= old(self)@.streams.update(
                            i as int,
                            StreamView { recv_window: w, ..old(self)@.streams[i as int] },
                        ));
                        self.settle_stream(i, next);
                        proof {
                            let c1 = old(self)@.take_recv(n as nat);
                            let s0 = old(self)@.streams[i as int];
                            let s2 = StreamView { state: next, recv_window: w, ..s0 };
                            assert(c1.streams == old(self)@.streams);
                            assert(self@.streams =~= c1.with_stream(i as int, s2).streams);
                            assert(self@ == c1.with_stream(i as int, s2));
                        }
                        match refill {
                            Some(inc) => {
                                self.push_control(
                                    ControlFrame::WindowUpdate { stream_id: id, increment: inc },
                                );
                            },
                            None => {},
                        }
                        Some(Event::Data { stream_id: id, data: f.data, end_stream: end })
                    },
                }
            },
        }
    }

    fn on_rst_stream(&mut self, f: RstStreamFrame) -> (e: Option<Event>)
        requires
            old(self)@.wf(),
        ensures
            (final(self)@, option_view(e)) == old(self)@.on_rst_stream(f),
    {
        let id: StreamId = f.stream_id;
        match self.find(id) {
            Some(i) => {
                self.remove_stream(i);
                Some(Event::StreamReset { stream_id: id, code: f.error_code() })
            },
            None => {
                if self.id_was_used(id) {
                    None
                } else {
                    self.fail(ErrorCode::ProtocolError)
                }
            },
        }
    }

    fn on_goaway(&mut self, f: GoawayFrame) -> (e: Option<Event>)
        ensures
            (final(self)@, option_view(e)) == old(self)@.on_goaway(f@),
    {
        let higher: bool = match self.goaway_received {
            Some(prev) => f.last_stream_id > prev,
            None => false,
        };
        if higher {
            self.fail(ErrorCode::ProtocolError)
        } else {
            self.goaway_received = Some(f.last_stream_id);
            Some(Event::Goaway { last_stream_id: f.last_stream_id, code: f.error_code() })
        }
    }

    fn on_push_promise(&mut self, f: PushPromiseFrame) -> (e: Option<Event>)
        requires
            old(self)@.wf(),
        ensures
            (final(self)@, option_view(e)) == old(self)@.on_push_promise(f@),
    {
        let id: StreamId = f.stream_id;
        let promised: StreamId = f.promised_stream_id;
        let is_server: bool = match self.role {
            Role::Server => true,
            Role::Client => false,
        };
        if is_server || !self.local_settings.enable_push || !f.is_headers_end() {
            return self.fail(ErrorCode::ProtocolError);
        }
        match self.find(id) {
            None => self.fail(ErrorCode::ProtocolError),
            Some(i) => {
                let admits: bool = match self.streams[i].state {
                    StreamState::Open | StreamState::HalfClosedLocal => true,
                    _ => false,
                };
                assert(self.streams@[i as int].state == self@.streams[i as int].state);
                if !admits {
                    self.fail(ErrorCode::ProtocolError)
                } else if !(self.id_is_peers(promised) && self.last_peer_stream_id < promised
                    && promised <= MAX_STREAM_ID) {
                    self.fail(ErrorCode::ProtocolError)
                } else if self.goaway_sent.is_some() {
                    self.push_control(
                        ControlFrame::RstStream {
                            stream_id: promised,
                            code: ErrorCode::RefusedStream,
                        },
                    );
                    Some(Event::HeadersDropped { stream_id: promised, block: f.header_fragment })
                } else {
                    self.open_stream(promised, StreamState::ReservedRemote, None);
                    self.last_peer_stream_id = promised;
                    Some(
                        Event::PushPromise {
                            stream_id: id,
                            promised_stream_id: promised,
                            block: f.header_fragment,
                        },
                    )
                }
            },
        }
    }

    fn on_priority(&mut self, f: PriorityFrame) -> (e: Option<Event>)
        requires
            old(self)@.wf(),
        ensures
            (final(self)@, option_view(e)) == old(self)@.on_priority(f),
    {
        match self.find(f.stream_id) {
            Some(i) => {
                proof {
                    assert(old(self)@.streams[i as int].wf());
                }
                self.streams[i].priority = Some(f.stream_dep);
                assert(self@.streams =~= old(self)@.streams.update(
                    i as int,
                    StreamView { priority: Some(f.stream_dep), ..old(self)@.streams[i as int] },
                ));
                None
            },
            None => None,
        }
    }

    /// Takes a received frame into account, and tells what the application
    /// is to be told. Header blocks are expected whole, as
    /// `recv_http_frame_join_cont` hands them on.
    pub fn recv_frame(&mut self, frame: HttpFrame) -> (e: Option<Event>)
        requires
            old(self)@.wf(),
        ensures
            (final(self)@, option_view(e)) == old(self)@.on_frame(frame@),
            final(self)@.wf(),
    {
        proof {
            lemma_on_frame(self@, frame@);
        }
        if self.failed.is_some() {
            return None;
        }
        if frame.get_stream_id() > MAX_STREAM_ID {
            return self.fail(ErrorCode::ProtocolError);
        }
        if !self.peer_settings_seen {
            let first_ok: bool = match &frame {
                HttpFrame::Settings(s) => !s.is_ack(),
                _ => false,
            };
            if !first_ok {
                return self.fail(ErrorCode::ProtocolError);
            }
        }
        match frame {
            HttpFrame::Data(d) => self.on_data(d),
            HttpFrame::Headers(h) => self.on_headers(h),
            HttpFrame::Priority(p) => self.on_priority(p),
            HttpFrame::RstStream(r) => self.on_rst_stream(r),
            HttpFrame::Settings(s) => self.on_settings(s),
            HttpFrame::PushPromise(p) => self.on_push_promise(p),
            HttpFrame::Ping(p) => self.on_ping(p),
            HttpFrame::Goaway(g) => self.on_goaway(g),
            HttpFrame::WindowUpdate(w) => self.on_window_update(w),
            HttpFrame::Continuation(_) => self.fail(ErrorCode::ProtocolError),
            HttpFrame::Unknown(_) => None,
        }
    }
}

/// The flags of the frame that starts or continues a header block.
fn block_flags_of(end_stream: bool, end_headers: bool) -> (flags: u8)
    ensures
        flags == block_flags(end_stream, end_headers),
{
    if end_stream && end_headers {
        0x5
    } else if end_stream {
        0x1
    } else if end_headers {
        0x4
    } else {
        0x0
    }
}

/// The frame that is written for a control frame.
fn control_to_frame(f: ControlFrame) -> (frame: HttpFrame)
    ensures
        frame@ == f.frame(),
{
    match f {
        ControlFrame::SettingsAck => HttpFrame::Settings(SettingsFrame::new_ack()),
        ControlFrame::Ping(opaque_data) => HttpFrame::Ping(PingFrame::new(opaque_data)),
        ControlFrame::PingAck(opaque_data) => HttpFrame::Ping(PingFrame::new_ack(opaque_data)),
        ControlFrame::WindowUpdate { stream_id, increment } => HttpFrame::WindowUpdate(
            WindowUpdateFrame::new(stream_id, increment),
        ),
        ControlFrame::RstStream { stream_id, code } => HttpFrame::RstStream(
            RstStreamFrame::new(stream_id, code),
        ),
        ControlFrame::Goaway { last_stream_id, code } => HttpFrame::Goaway(
            GoawayFrame::new(last_stream_id, code),
        ),
    }
}

/// A stream of the table as a state dump shows it.
#[derive(Clone, Copy, Debug, PartialEq, Eq)]
pub struct StreamSnapshot {
    pub id: StreamId,
    pub state: StreamState,
    pub send_window: i32,
    pub recv_window: i32,
    /// Number of body bytes that wait to be written.
    pub pending: usize,
}

/// A connection as a state dump shows it.
#[derive(Clone, Debug, PartialEq, Eq)]
pub struct ConnectionStateSnapshot {
    /// The streams that are neither idle nor closed.
    pub streams: Vec<StreamSnapshot>,
    pub send_window: i32,
    pub recv_window: i32,
    pub peer_settings: Settings,
    /// Settings of the peer that have no meaning here, as they came.
    pub peer_unknown_settings: Vec<HttpSetting>,
    pub next_stream_id: u32,
    pub last_peer_stream_id: StreamId,
    /// The last stream named in the GOAWAY of the peer.
    pub last_goaway: Option<StreamId>,
    /// The last stream named in the GOAWAY of this side.
    pub goaway_sent: Option<StreamId>,
    pub failed: Option<Failure>,
}

impl ConnectionStateSnapshot {
    /// The dump shows the connection `c`.
    pub open spec fn shows(self, c: ConnectionView) -> bool {
        &&& self.streams@.len() == c.streams.len()
        &&& forall|i: int|
            0 <= i < c.streams.len() ==> {
                &&& (#[trigger] self.streams@[i]).id == c.streams[i].id
                &&& self.streams@[i].state == c.streams[i].state
                &&& self.streams@[i].send_window == c.streams[i].send_window.size
                &&& self.streams@[i].recv_window == c.streams[i].recv_window.size
                &&& self.streams@[i].pending == c.streams[i].pending.len()
            }
        &&& self.send_window == c.send_window.size
        &&& self.recv_window == c.recv_window.size
        &&& self.peer_settings == c.peer_settings
        &&& self.peer_unknown_settings@ == c.peer_unknown_settings
        &&& self.next_stream_id == c.next_stream_id
        &&& self.last_peer_stream_id == c.last_peer_stream_id
        &&& self.last_goaway == c.goaway_received
        &&& self.goaway_sent == c.goaway_sent
        &&& self.failed == c.failed
    }
}

impl Connection {
    /// Starts a request with the compressed header block `block`, and
    /// tells the stream that it has opened.
    pub fn start_request(&mut self, block: Bytes, end_stream: bool) -> (r: Result<
        StreamId,
        LocalError,
    >)
        requires
            old(self)@.wf(),
        ensures
            (final(self)@, r) == old(self)@.start_request(bytes_view(block), end_stream),
            final(self)@.wf(),
    {
        proof {
            lemma_start_request(self@, bytes_view(block), end_stream);
        }
        if self.failed.is_some() || self.goaway_sent.is_some() {
            return Err(LocalError::ConnectionClosed);
        }
        match self.role {
            Role::Server => {
                return Err(LocalError::WrongRole);
            },
            Role::Client => {},
        }
        if self.goaway_received.is_some() {
            return Err(LocalError::RefusedStream);
        }
        if self.next_stream_id > MAX_STREAM_ID {
            return Err(LocalError::StreamIdsExhausted);
        }
        let id: StreamId = self.next_stream_id;
        let state = if end_stream {
            StreamState::HalfClosedLocal
        } else {
            StreamState::Open
        };
        self.open_stream(id, state, None);
        self.next_stream_id = id + 2;
        self.ordered.push(Queued::Headers { stream_id: id, block, end_stream });
        assert(self@.ordered =~= old(self)@.ordered.push(
            QueuedView::Headers { stream_id: id, block: bytes_view(block), end_stream },
        ));
        Ok(id)
    }

    /// Sends the compressed header block `block` on a stream of the
    /// table.
    pub fn send_headers(&mut self, stream_id: StreamId, block: Bytes, end_stream: bool) -> (r:
        Result<(), LocalError>)
        requires
            old(self)@.wf(),
        ensures
            (final(self)@, r) == old(self)@.send_headers(stream_id, bytes_view(block), end_stream),
            final(self)@.wf(),
    {
        proof {
            lemma_send_headers(self@, stream_id, bytes_view(block), end_stream);
        }
        if self.failed.is_some() {
            return Err(LocalError::ConnectionClosed);
        }
        match self.find(stream_id) {
            None => Err(LocalError::UnknownStream),
            Some(i) => {
                let waiting: bool = self.streams[i].pending.len() > 0 || self.streams[i].pending_end;
                let state = self.streams[i].state;
                assert(self.streams@[i as int]@ == self@.streams[i as int]);
                if waiting {
                    return Err(LocalError::InvalidState);
                }
                match state.transition(StreamEvent::SendHeaders { end_stream }) {
                    Err(_) => Err(LocalError::InvalidState),
                    Ok(next) => {
                        self.settle_stream(i, next);
                        self.ordered.push(Queued::Headers { stream_id, block, end_stream });
                        assert(self@.ordered =~= old(self)@.ordered.push(
                            QueuedView::Headers {
                                stream_id,
                                block: bytes_view(block),
                                end_stream,
                            },
                        ));
                        Ok(())
                    },
                }
            },
        }
    }

    /// Hands in body bytes for a stream of the table; `end_stream` says
    /// that they are the last.
    pub fn send_data(&mut self, stream_id: StreamId, data: &[u8], end_stream: bool) -> (r: Result<
        (),
        LocalError,
    >)
        requires
            old(self)@.wf(),
        ensures
            (final(self)@, r) == old(self)@.send_data(stream_id, data@, end_stream),
            final(self)@.wf(),
    {
        proof {
            lemma_send_data(self@, stream_id, data@, end_stream);
        }
        if self.failed.is_some() {
            return Err(LocalError::ConnectionClosed);
        }
        match self.find(stream_id) {
            None => Err(LocalError::UnknownStream),
            Some(i) => {
                let admits: bool = match self.streams[i].state {
                    StreamState::Open | StreamState::HalfClosedRemote => true,
                    _ => false,
                };
                assert(self.streams@[i as int]@ == self@.streams[i as int]);
                if self.streams[i].pending_end || !admits {
                    return Err(LocalError::InvalidState);
                }
                let ghost s0 = self@.streams[i as int];
                self.streams[i].pending.extend_from_slice(data);
                self.streams[i].pending_end = end_stream;
                self.streams[i].submitted = Ghost(s0.submitted + data@);
                assert(self.streams@.len() == old(self).streams@.len());
                assert(self.streams@[i as int].pending@ =~= s0.pending + data@);
                assert(self.streams@[i as int]@ == StreamView {
                    pending: s0.pending + data@,
                    pending_end: end_stream,
                    submitted: s0.submitted + data@,
                    ..s0
                });
                assert forall|j: int| 0 <= j < self.streams@.len() && j != i implies self.streams@[j]
                    == old(self).streams@[j] by {}
                assert(self@.streams =~= old(self)@.streams.update(
                    i as int,
                    StreamView {
                        pending: s0.pending + data@,
                        pending_end: end_stream,
                        submitted: s0.submitted + data@,
                        ..s0
                    },
                ));
                Ok(())
            },
        }
    }

    /// Gives up a stream of the table.
    pub fn cancel(&mut self, stream_id: StreamId) -> (r: Result<(), LocalError>)
        requires
            old(self)@.wf(),
        ensures
            (final(self)@, r) == old(self)@.cancel(stream_id),
            final(self)@.wf(),
    {
        proof {
            lemma_cancel(self@, stream_id);
        }
        if self.failed.is_some() {
            return Err(LocalError::ConnectionClosed);
        }
        match self.find(stream_id) {
            None => Err(LocalError::UnknownStream),
            Some(_) => {
                self.reset_stream(stream_id, ErrorCode::Cancel);
                Ok(())
            },
        }
    }

    /// Promises a stream on behalf of `stream_id`, with the compressed
    /// header block of the promised request, and tells the stream that it
    /// has reserved.
    pub fn push_promise(&mut self, stream_id: StreamId, block: Bytes) -> (r: Result<
        StreamId,
        LocalError,
    >)
        requires
            old(self)@.wf(),
        ensures
            (final(self)@, r) == old(self)@.push_promise(stream_id, bytes_view(block)),
            final(self)@.wf(),
    {
        proof {
            lemma_push_promise(self@, stream_id, bytes_view(block));
        }
        if self.failed.is_some() || self.goaway_sent.is_some() {
            return Err(LocalError::ConnectionClosed);
        }
        match self.role {
            Role::Client => {
                return Err(LocalError::WrongRole);
            },
            Role::Server => {},
        }
        if !self.peer_settings.enable_push {
            return Err(LocalError::PushDisabled);
        }
        if self.goaway_received.is_some() {
            return Err(LocalError::RefusedStream);
        }
        match self.find(stream_id) {
            None => Err(LocalError::UnknownStream),
            Some(i) => {
                let admits: bool = match self.streams[i].state {
                    StreamState::Open | StreamState::HalfClosedRemote => true,
                    _ => false,
                };
                assert(self.streams@[i as int]@ == self@.streams[i as int]);
                if !admits {
                    return Err(LocalError::InvalidState);
                }
                if self.next_stream_id > MAX_STREAM_ID {
                    return Err(LocalError::StreamIdsExhausted);
                }
                let promised: StreamId = self.next_stream_id;
                self.open_stream(promised, StreamState::ReservedLocal, None);
                self.next_stream_id = promised + 2;
                self.ordered.push(
                    Queued::PushPromise { stream_id, promised_stream_id: promised, block },
                );
                assert(self@.ordered =~= old(self)@.ordered.push(
                    QueuedView::PushPromise {
                        stream_id,
                        promised_stream_id: promised,
                        block: bytes_view(block),
                    },
                ));
                Ok(promised)
            },
        }
    }

    /// Receives the frame that stands first in the bytes that have
    /// arrived, and tells what the application is to be told. The bytes of
    /// the frame are taken up. Where the bytes do not give a frame,
    /// nothing is taken up; `UnexpectedEof` says that more bytes are
    /// needed, and every other error has ended the connection with its
    /// code.
    pub fn receive(&mut self, read: &mut ByteReader) -> (r: Result<Option<Event>, Error>)
        requires
            old(self)@.wf(),
        ensures
            (final(self)@, event_result_view(r)) == old(self)@.on_input(old(read).remaining()),
            final(read).remaining() == rest_after(
                old(read).remaining(),
                spec_recv_http_frame_join_cont(
                    old(read).remaining(),
                    old(self)@.local_settings.max_frame_size,
                    None,
                ),
            ),
            final(self)@.wf(),
    {
        match recv_http_frame_join_cont(read, self.local_settings.max_frame_size) {
            Ok(frame) => Ok(self.recv_frame(frame)),
            Err(e) => {
                match e.error_code() {
                    Some(code) => {
                        if self.failed.is_none() {
                            self.abort(code);
                        }
                    },
                    None => {},
                }
                Err(e)
            },
        }
    }

    /// Ends the connection on a connection error that was found outside
    /// the engine: by the framer, or by the decoder of header blocks.
    /// GOAWAY with the code is the only frame left to write.
    pub fn abort(&mut self, code: ErrorCode)
        requires
            old(self)@.wf(),
        ensures
            final(self)@ == old(self)@.fail(code).0,
            final(self)@.wf(),
    {
        proof {
            lemma_fail(self@, code);
        }
        let _ = self.fail(code);
    }

    /// Begins to shut the connection down.
    pub fn shutdown(&mut self)
        requires
            old(self)@.wf(),
        ensures
            final(self)@ == old(self)@.shutdown(),
            final(self)@.wf(),
    {
        proof {
            lemma_shutdown(self@);
        }
        if self.failed.is_some() || self.goaway_sent.is_some() {
            return ;
        }
        self.push_control(
            ControlFrame::Goaway {
                last_stream_id: self.last_peer_stream_id,
                code: ErrorCode::NoError,
            },
        );
        self.goaway_sent = Some(self.last_peer_stream_id);
    }

    /// Tells whether the connection is shutting down and no stream is
    /// left.
    pub fn is_drained(&self) -> (r: bool)
        ensures
            r == self@.is_drained(),
    {
        self.goaway_sent.is_some() && self.streams.len() == 0
    }

    /// Tells why the connection has ended, where it has.
    pub fn failure(&self) -> (r: Option<Failure>)
        ensures
            r == self@.failed,
    {
        self.failed
    }

    /// A tick of the keepalive timer.
    pub fn tick(&mut self) -> (r: Result<(), LocalError>)
        requires
            old(self)@.wf(),
        ensures
            (final(self)@, r) == old(self)@.tick(),
            final(self)@.wf(),
    {
        proof {
            lemma_tick(self@);
        }
        if self.failed.is_some() {
            return Err(LocalError::ConnectionClosed);
        }
        if self.outstanding_ping.is_some() {
            self.failed = Some(Failure::PingTimeout);
            self.streams = Vec::new();
            self.control = Vec::new();
            self.ordered = Vec::new();
            self.cursor = 0;
            assert(self@.streams =~= Seq::empty());
            assert(self@.ordered =~= Seq::empty());
            assert(self@.control =~= Seq::empty());
            return Err(LocalError::PingTimeout);
        }
        let payload: u64 = self.next_ping;
        self.push_control(ControlFrame::Ping(payload));
        self.outstanding_ping = Some(payload);
        self.next_ping = if payload == u64::MAX {
            0
        } else {
            payload + 1
        };
        Ok(())
    }

    /// Tells the connection that the time for the acknowledgement of
    /// SETTINGS is over.
    pub fn settings_deadline(&mut self)
        requires
            old(self)@.wf(),
        ensures
            final(self)@ == old(self)@.settings_deadline(),
            final(self)@.wf(),
    {
        proof {
            lemma_fail(self@, ErrorCode::SettingsTimeout);
        }
        if self.failed.is_none() && self.unacked_settings > 0 {
            let _ = self.fail(ErrorCode::SettingsTimeout);
        }
    }

    /// Tells whether the stream at `i` has something that can be written
    /// now.
    fn is_ready(&self, i: usize) -> (r: bool)
        requires
            i < self@.streams.len(),
        ensures
            r == self@.ready(self@.streams[i as int]),
    {
        let s = &self.streams[i];
        assert(s@ == self@.streams[i as int]);
        if s.pending.len() > 0 {
            s.send_window.size > 0 && self.send_window.size > 0
        } else {
            s.pending_end
        }
    }

    /// The first place from `from` up to `to` whose stream is ready.
    fn first_ready(&self, from: usize, to: usize) -> (r: Option<usize>)
        requires
            to <= self@.streams.len(),
        ensures
            (match r {
                Some(i) => Some(i as int),
                None => None,
            }) == self@.first_ready(from as int, to as int),
    {
        let mut i: usize = from;
        while i < to
            invariant
                from <= i || from >= to,
                to <= self@.streams.len(),
                self@.first_ready(from as int, to as int) == self@.first_ready(i as int, to as int),
            decreases to - i,
        {
            if self.is_ready(i) {
                return Some(i);
            }
            i = i + 1;
        }
        None
    }

    /// The stream whose body is written next.
    fn pick(&self) -> (r: Option<usize>)
        requires
            self@.cursor <= self@.streams.len(),
        ensures
            (match r {
                Some(i) => Some(i as int),
                None => None,
            }) == self@.pick(),
    {
        match self.first_ready(self.cursor, self.streams.len()) {
            Some(i) => Some(i),
            None => self.first_ready(0, self.cursor),
        }
    }

    /// Writes the first entry of the ordered queue, or its first piece.
    fn emit_ordered(&mut self) -> (frame: HttpFrame)
        requires
            old(self)@.wf(),
            old(self)@.ordered.len() > 0,
        ensures
            (final(self)@, frame@) == old(self)@.emit_ordered(),
    {
        let max: usize = self.peer_settings.max_frame_size as usize;
        let head = self.ordered.remove(0);
        assert(self@.ordered =~= old(self)@.ordered.skip(1));
        assert(head@ == old(self)@.ordered[0]);
        match head {
            Queued::Headers { stream_id, block, end_stream } => {
                let len: usize = block.len();
                if len <= max {
                    let mut f = HeadersFrame::new(stream_id, block);
                    f.flags = block_flags_of(end_stream, true);
                    HttpFrame::Headers(f)
                } else {
                    let first = block.slice(0, max);
                    let rest = block.slice(max, len);
                    assert(bytes_view(first) =~= bytes_view(block).take(max as int));
                    assert(bytes_view(rest) =~= bytes_view(block).skip(max as int));
                    self.ordered.insert(0, Queued::Continuation { stream_id, block: rest });
                    assert(self@.ordered =~= old(self)@.ordered.update(
                        0,
                        QueuedView::Continuation { stream_id, block: bytes_view(rest) },
                    ));
                    let mut f = HeadersFrame::new(stream_id, first);
                    f.flags = block_flags_of(end_stream, false);
                    HttpFrame::Headers(f)
                }
            },
            Queued::PushPromise { stream_id, promised_stream_id, block } => {
                let len: usize = block.len();
                let room: usize = max - 4;
                if len <= room {
                    let mut f = PushPromiseFrame::new(stream_id, promised_stream_id, block);
                    f.flags = block_flags_of(false, true);
                    HttpFrame::PushPromise(f)
                } else {
                    let first = block.slice(0, room);
                    let rest = block.slice(room, len);
                    assert(bytes_view(first) =~= bytes_view(block).take(room as int));
                    assert(bytes_view(rest) =~= bytes_view(block).skip(room as int));
                    self.ordered.insert(0, Queued::Continuation { stream_id, block: rest });
                    assert(self@.ordered =~= old(self)@.ordered.update(
                        0,
                        QueuedView::Continuation { stream_id, block: bytes_view(rest) },
                    ));
                    let mut f = PushPromiseFrame::new(stream_id, promised_stream_id, first);
                    f.flags = block_flags_of(false, false);
                    HttpFrame::PushPromise(f)
                }
            },
            Queued::Continuation { stream_id, block } => {
                let len: usize = block.len();
                if len <= max {
                    let mut f = ContinuationFrame::new(stream_id, block);
                    f.flags = block_flags_of(false, true);
                    HttpFrame::Continuation(f)
                } else {
                    let first = block.slice(0, max);
                    let rest = block.slice(max, len);
                    assert(bytes_view(first) =~= bytes_view(block).take(max as int));
                    assert(bytes_view(rest) =~= bytes_view(block).skip(max as int));
                    self.ordered.insert(0, Queued::Continuation { stream_id, block: rest });
                    assert(self@.ordered =~= old(self)@.ordered.update(
                        0,
                        QueuedView::Continuation { stream_id, block: bytes_view(rest) },
                    ));
                    let mut f = ContinuationFrame::new(stream_id, first);
                    f.flags = block_flags_of(false, false);
                    HttpFrame::Continuation(f)
                }
            },
            Queued::RstStream { stream_id, code } => HttpFrame::RstStream(
                RstStreamFrame::new(stream_id, code),
            ),
        }
    }

    /// Writes the next DATA frame of the stream at `i`.
    fn emit_data(&mut self, i: usize) -> (frame: HttpFrame)
        requires
            old(self)@.wf(),
            i < old(self)@.streams.len(),
            old(self)@.ready(old(self)@.streams[i as int]),
        ensures
            (final(self)@, frame@) == old(self)@.emit_data(i as int),
    {
        let ghost c0 = self@;
        let ghost s0 = self@.streams[i as int];
        assert(self.streams@[i as int]@ == s0);
        assert(s0.wf());
        let table_len: usize = self.streams.len();
        let behind: usize = i + 1;
        let id: StreamId = self.streams[i].id;
        let state = self.streams[i].state;
        let pending_len: usize = self.streams[i].pending.len();
        let n: usize = if pending_len == 0 {
            0
        } else {
            let mut n: usize = pending_len;
            let max: usize = self.peer_settings.max_frame_size as usize;
            if max < n {
                n = max;
            }
            let room: usize = self.streams[i].send_window.size as usize;
            if room < n {
                n = room;
            }
            let conn_room: usize = self.send_window.size as usize;
            if conn_room < n {
                n = conn_room;
            }
            n
        };
        assert(n == c0.chunk_len(s0));
        let end: bool = self.streams[i].pending_end && n == pending_len;
        let mut chunk = self.streams[i].pending.split_off(n);
        core::mem::swap(&mut self.streams[i].pending, &mut chunk);
        assert(chunk@ =~= s0.pending.take(n as int));
        assert(self.streams@[i as int].pending@ =~= s0.pending.skip(n as int));
        self.streams[i].send_window = Window { size: self.streams[i].send_window.size - n as i32 };
        self.streams[i].pending_end = self.streams[i].pending_end && !end;
        self.streams[i].sent = Ghost(s0.sent + s0.pending.take(n as int));
        self.send_window = Window { size: self.send_window.size - n as i32 };
        let next = if end {
            match state {
                StreamState::Open => StreamState::HalfClosedLocal,
                StreamState::HalfClosedRemote => StreamState::Closed,
                s => s,
            }
        } else {
            state
        };
        let ghost s1 = StreamView {
            send_window: Window { size: (s0.send_window.size - n) as i32 },
            pending: s0.pending.skip(n as int),
            pending_end: s0.pending_end && !end,
            sent: s0.sent + s0.pending.take(n as int),
            ..s0
        };
        assert(self@.streams =~= c0.streams.update(i as int, s1));
        self.settle_stream(i, next);
        self.cursor = match next {
            StreamState::Closed => i,
            _ => behind,
        };
        let mut f = DataFrame::new(id, bytes_from_vec(chunk));
        f.flags = block_flags_of(end, false);
        proof {
            let s2 = StreamView { state: next, ..s1 };
            let c1 = ConnectionView {
                send_window: Window { size: (c0.send_window.size - n) as i32 },
                ..c0
            };
            assert(self@.streams =~= c1.with_stream(i as int, s2).streams);
        }
        HttpFrame::Data(f)
    }

    /// Hands out the frame that is to be written next, if there is one.
    /// The frame can be encoded as it is.
    pub fn poll_frame(&mut self) -> (r: Option<HttpFrame>)
        requires
            old(self)@.wf(),
        ensures
            (final(self)@, option_view(r)) == old(self)@.poll(),
            final(self)@.wf(),
            r matches Some(f) ==> f@.wf() && f@.fits(),
    {
        proof {
            lemma_poll(self@);
            lemma_pick(self@);
        }
        let continues: bool = self.ordered.len() > 0 && match &self.ordered[0] {
            Queued::Continuation { .. } => true,
            _ => false,
        };
        assert(continues == (self@.ordered.len() > 0 && self@.ordered[0] is Continuation)) by {
            if self.ordered@.len() > 0 {
                assert(self@.ordered[0] == self.ordered@[0]@);
            }
        }
        let r = if continues {
            Some(self.emit_ordered())
        } else if self.control.len() > 0 {
            let f = self.control.remove(0);
            assert(self@.control =~= old(self)@.control.skip(1));
            Some(control_to_frame(f))
        } else if self.ordered.len() > 0 {
            Some(self.emit_ordered())
        } else {
            match self.pick() {
                Some(i) => Some(self.emit_data(i)),
                None => None,
            }
        };
        proof {
            if r is Some {
                lemma_wf_fits(r.unwrap()@);
            }
        }
        r
    }

    /// A dump of the state, for tests and for observation.
    pub fn dump_state(&self) -> (d: ConnectionStateSnapshot)
        ensures
            d.shows(self@),
    {
        let n: usize = self.streams.len();
        let mut streams: Vec<StreamSnapshot> = Vec::new();
        let mut i: usize = 0;
        while i < n
            invariant
                i <= n,
                n == self.streams@.len(),
                streams@.len() == i,
                forall|j: int|
                    0 <= j < i ==> {
                        &&& (#[trigger] streams@[j]).id == self@.streams[j].id
                        &&& streams@[j].state == self@.streams[j].state
                        &&& streams@[j].send_window == self@.streams[j].send_window.size
                        &&& streams@[j].recv_window == self@.streams[j].recv_window.size
                        &&& streams@[j].pending == self@.streams[j].pending.len()
                    },
            decreases n - i,
        {
            let s = &self.streams[i];
            assert(s@ == self@.streams[i as int]);
            streams.push(
                StreamSnapshot {
                    id: s.id,
                    state: s.state,
                    send_window: s.send_window.size,
                    recv_window: s.recv_window.size,
                    pending: s.pending.len(),
                },
            );
            i = i + 1;
        }
        let m: usize = self.peer_unknown_settings.len();
        let mut unknown: Vec<HttpSetting> = Vec::new();
        let mut k: usize = 0;
        while k < m
            invariant
                k <= m,
                m == self.peer_unknown_settings@.len(),
                unknown@ == self.peer_unknown_settings@.take(k as int),
            decreases m - k,
        {
            unknown.push(self.peer_unknown_settings[k]);
            assert(unknown@ =~= self.peer_unknown_settings@.take(k + 1));
            k = k + 1;
        }
        assert(self.peer_unknown_settings@.take(m as int) =~= self.peer_unknown_settings@);
        ConnectionStateSnapshot {
            streams,
            send_window: self.send_window.size,
            recv_window: self.recv_window.size,
            peer_settings: self.peer_settings,
            peer_unknown_settings: unknown,
            next_stream_id: self.next_stream_id,
            last_peer_stream_id: self.last_peer_stream_id,
            last_goaway: self.goaway_received,
            goaway_sent: self.goaway_sent,
            failed: self.failed,
        }
    }
}

} // verus!
