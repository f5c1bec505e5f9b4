//! What a received frame does to the connection.

use crate::engine::model::{is_peer_id, ConnectionView, ControlFrame, EventView, StreamView};
use crate::error::{Error, ErrorCode};
use crate::framer::spec_recv_http_frame_join_cont;
use crate::frame::data::DataFrameView;
use crate::frame::goaway::GoawayFrameView;
use crate::frame::header::MAX_STREAM_ID;
use crate::frame::headers::HeadersFrameView;
use crate::frame::http_frame::HttpFrameView;
use crate::frame::ping::PingFrame;
use crate::frame::priority::PriorityFrame;
use crate::frame::push_promise::PushPromiseFrameView;
use crate::frame::rst_stream::RstStreamFrame;
use crate::frame::settings::{all_settings_wf, HttpSetting, SettingsFrameView};
use crate::frame::window_update::WindowUpdateFrame;
use crate::stream_state::{StreamEvent, StreamState};
use crate::window::{Window, DEFAULT_WINDOW_SIZE};
use vstd::prelude::*;

verus! {

/// The settings of a list that have no meaning here, in order.
pub open spec fn unknown_of(settings: Seq<HttpSetting>) -> Seq<HttpSetting>
    decreases settings.len(),
{
    if settings.len() == 0 {
        Seq::empty()
    } else if settings.last() is Unknown {
        unknown_of(settings.drop_last()).push(settings.last())
    } else {
        unknown_of(settings.drop_last())
    }
}

/// The send window of every stream can be moved by `delta`.
pub open spec fn all_adjustable(streams: Seq<StreamView>, delta: i64) -> bool {
    forall|i: int|
        0 <= i < streams.len() ==> (#[trigger] streams[i]).send_window.spec_adjust(delta).is_some()
}

/// The streams with every send window moved by `delta`.
pub open spec fn adjust_all(streams: Seq<StreamView>, delta: i64) -> Seq<StreamView> {
    Seq::new(
        streams.len(),
        |i: int|
            StreamView {
                send_window: streams[i].send_window.spec_adjust(delta).unwrap(),
                ..streams[i]
            },
    )
}

impl ConnectionView {
    /// SETTINGS. An acknowledgement confirms SETTINGS of this side, and is
    /// an error where none waits for it. Settings of the peer are taken
    /// over and acknowledged; a change of the initial window moves the
    /// send window of every stream by the difference, and is an error
    /// where one of them would leave the range of a window.
    pub open spec fn on_settings(self, f: SettingsFrameView) -> (ConnectionView, Option<EventView>) {
        if f.is_ack() {
            if self.unacked_settings == 0 {
                self.fail(ErrorCode::ProtocolError)
            } else {
                (
                    ConnectionView {
                        unacked_settings: (self.unacked_settings - 1) as u32,
                        ..self
                    },
                    Some(EventView::SettingsAcked),
                )
            }
        } else if !all_settings_wf(f.settings) {
            self.fail(ErrorCode::ProtocolError)
        } else {
            let peer = self.peer_settings.spec_apply_all(f.settings);
            let delta = (peer.initial_window_size - self.peer_settings.initial_window_size) as i64;
            if !all_adjustable(self.streams, delta) {
                self.fail(ErrorCode::FlowControlError)
            } else {
                (
                    ConnectionView {
                        peer_settings: peer,
                        peer_unknown_settings: self.peer_unknown_settings + unknown_of(f.settings),
                        peer_settings_seen: true,
                        streams: adjust_all(self.streams, delta),
                        control: self.control.push(ControlFrame::SettingsAck),
                        ..self
                    },
                    None,
                )
            }
        }
    }

    /// PING. One that asks is answered with the same eight bytes. An
    /// answer settles the PING of this side that it matches, and is passed
    /// over where it matches none.
    pub open spec fn on_ping(self, f: PingFrame) -> (ConnectionView, Option<EventView>) {
        if f.spec_is_ack() {
            if self.outstanding_ping == Some(f.opaque_data) {
                (ConnectionView { outstanding_ping: None, ..self }, Some(EventView::PingAcked))
            } else {
                (self, None)
            }
        } else {
            (self.with_control(ControlFrame::PingAck(f.opaque_data)), None)
        }
    }

    /// WINDOW_UPDATE. The increment is added to the send window of the
    /// connection or of the stream. An increment of zero is a protocol
    /// error, one that leads above 2^31 - 1 a flow-control error: of the
    /// connection where the frame names none, else of the stream. A frame
    /// for a closed stream is passed over, one for an idle stream is a
    /// connection error.
    pub open spec fn on_window_update(self, f: WindowUpdateFrame) -> (
        ConnectionView,
        Option<EventView>,
    ) {
        let id = f.stream_id;
        if id == 0 {
            if f.increment == 0 {
                self.fail(ErrorCode::ProtocolError)
            } else {
                match self.send_window.spec_credit(f.increment) {
                    None => self.fail(ErrorCode::FlowControlError),
                    Some(w) => (ConnectionView { send_window: w, ..self }, None),
                }
            }
        } else if self.has_stream(id) {
            let i = self.index_of(id);
            let s = self.streams[i];
            if f.increment == 0 {
                (
                    self.reset_stream(id, ErrorCode::ProtocolError),
                    Some(EventView::StreamReset { stream_id: id, code: ErrorCode::ProtocolError }),
                )
            } else {
                match s.send_window.spec_credit(f.increment) {
                    None => (
                        self.reset_stream(id, ErrorCode::FlowControlError),
                        Some(
                            EventView::StreamReset {
                                stream_id: id,
                                code: ErrorCode::FlowControlError,
                            },
                        ),
                    ),
                    Some(w) => (self.with_stream(i, StreamView { send_window: w, ..s }), None),
                }
            }
        } else if self.was_used(id) {
            (self, None)
        } else {
            self.fail(ErrorCode::ProtocolError)
        }
    }

    /// HEADERS, whole. On a stream of the table the block is handed to the
    /// application where the state admits HEADERS, and END_STREAM closes
    /// the peer's side. A stream of the peer above all that it has opened
    /// is opened, on a server that has sent no GOAWAY; after GOAWAY it is
    /// refused. On a stream that this side has given up the frame is
    /// passed over: the peer may have sent it before it knew. The block of
    /// a frame that is refused or passed over is handed out to be dropped.
    /// Everything else is a connection error.
    pub open spec fn on_headers(self, f: HeadersFrameView) -> (ConnectionView, Option<EventView>) {
        let id = f.stream_id;
        let end = f.is_end_of_stream();
        let event = Some(
            EventView::Headers { stream_id: id, block: f.header_fragment, end_stream: end },
        );
        if !f.is_headers_end() {
            self.fail(ErrorCode::ProtocolError)
        } else if self.has_stream(id) {
            let i = self.index_of(id);
            let s = self.streams[i];
            match s.state.next(StreamEvent::RecvHeaders { end_stream: end }) {
                None => self.fail(ErrorCode::ProtocolError),
                Some(state) => (
                    self.with_stream(
                        i,
                        StreamView {
                            state,
                            priority: if f.stream_dep.is_some() {
                                f.stream_dep
                            } else {
                                s.priority
                            },
                            ..s
                        },
                    ),
                    event,
                ),
            }
        } else if is_peer_id(self.role, id) && id > self.last_peer_stream_id {
            if self.role is Client {
                self.fail(ErrorCode::ProtocolError)
            } else if self.goaway_sent.is_some() {
                (
                    self.with_control(
                        ControlFrame::RstStream { stream_id: id, code: ErrorCode::RefusedStream },
                    ),
                    Some(EventView::HeadersDropped { stream_id: id, block: f.header_fragment }),
                )
            } else {
                let state = if end {
                    StreamState::HalfClosedRemote
                } else {
                    StreamState::Open
                };
                let s = StreamView {
                    priority: f.stream_dep,
                    ..StreamView::fresh(
                        id,
                        state,
                        self.peer_settings.initial_window_size,
                        self.local_settings.initial_window_size,
                    )
                };
                (ConnectionView { last_peer_stream_id: id, ..self.with_new_stream(s) }, event)
            }
        } else if self.gave_up.contains(id) {
            (self, Some(EventView::HeadersDropped { stream_id: id, block: f.header_fragment }))
        } else {
            self.fail(ErrorCode::ProtocolError)
        }
    }

    /// The connection after `n` bytes were taken from its receive window,
    /// which is filled up again, with WINDOW_UPDATE, where it has dropped
    /// below half of what it started with.
    pub open spec fn take_recv(self, n: nat) -> ConnectionView {
        let w = Window { size: (self.recv_window.size - n) as i32 };
        match w.spec_refill(DEFAULT_WINDOW_SIZE) {
            Some(inc) => ConnectionView {
                recv_window: Window { size: DEFAULT_WINDOW_SIZE as i32 },
                control: self.control.push(
                    ControlFrame::WindowUpdate { stream_id: 0, increment: inc },
                ),
                ..self
            },
            None => ConnectionView { recv_window: w, ..self },
        }
    }

    /// DATA. The whole payload counts against the receive windows of the
    /// connection and of the stream. More than the connection admits is a
    /// connection error, more than the stream admits resets the stream.
    /// On a stream whose state admits DATA the bytes are handed to the
    /// application, END_STREAM closes the peer's side, and a window that
    /// has dropped below half is filled up again. On a closed stream the
    /// answer is RST_STREAM with STREAM_CLOSED; on any other stream DATA
    /// is a connection error.
    pub open spec fn on_data(self, f: DataFrameView) -> (ConnectionView, Option<EventView>) {
        let id = f.stream_id;
        let n = f.payload().len();
        let end = f.is_end_of_stream();
        if n > self.recv_window.size {
            self.fail(ErrorCode::FlowControlError)
        } else if !self.has_stream(id) {
            if self.was_used(id) {
                (
                    self.take_recv(n).with_control(
                        ControlFrame::RstStream { stream_id: id, code: ErrorCode::StreamClosed },
                    ),
                    None,
                )
            } else {
                self.fail(ErrorCode::ProtocolError)
            }
        } else {
            let i = self.index_of(id);
            let s = self.streams[i];
            match s.state.next(StreamEvent::RecvData { end_stream: end }) {
                None => self.fail(ErrorCode::ProtocolError),
                Some(state) => if n > s.recv_window.size {
                    (
                        self.take_recv(n).reset_stream(id, ErrorCode::FlowControlError),
                        Some(
                            EventView::StreamReset {
                                stream_id: id,
                                code: ErrorCode::FlowControlError,
                            },
                        ),
                    )
                } else {
                    let w = Window { size: (s.recv_window.size - n) as i32 };
                    let refill = if end {
                        None
                    } else {
                        w.spec_refill(self.local_settings.initial_window_size)
                    };
                    let c = self.take_recv(n);
                    let event = Some(
                        EventView::Data { stream_id: id, data: f.data, end_stream: end },
                    );
                    match refill {
                        Some(inc) => (
                            c.with_stream(
                                i,
                                StreamView {
                                    state,
                                    recv_window: Window {
                                        size: self.local_settings.initial_window_size as i32,
                                    },
                                    ..s
                                },
                            ).with_control(ControlFrame::WindowUpdate { stream_id: id, increment: inc }),
                            event,
                        ),
                        None => (c.with_stream(i, StreamView { state, recv_window: w, ..s }), event),
                    }
                },
            }
        }
    }

    /// RST_STREAM. A stream of the table is closed, and the application
    /// is told the code. A frame for a closed stream is passed over, one
    /// for an idle stream is a connection error.
    pub open spec fn on_rst_stream(self, f: RstStreamFrame) -> (ConnectionView, Option<EventView>) {
        let id = f.stream_id;
        if self.has_stream(id) {
            (
                self.without_stream(self.index_of(id)),
                Some(EventView::StreamReset { stream_id: id, code: f.spec_error_code() }),
            )
        } else if self.was_used(id) {
            (self, None)
        } else {
            self.fail(ErrorCode::ProtocolError)
        }
    }

    /// GOAWAY. The last stream that it names is kept. A second GOAWAY
    /// that names a higher one is a connection error.
    pub open spec fn on_goaway(self, f: GoawayFrameView) -> (ConnectionView, Option<EventView>) {
        if self.goaway_received matches Some(prev) && f.last_stream_id > prev {
            self.fail(ErrorCode::ProtocolError)
        } else {
            (
                ConnectionView { goaway_received: Some(f.last_stream_id), ..self },
                Some(
                    EventView::Goaway { last_stream_id: f.last_stream_id, code: f.error_code() },
                ),
            )
        }
    }

    /// PUSH_PROMISE, whole. A client that has not switched push off takes
    /// it on a stream that is open or half closed on its own side, for a
    /// stream of the server above all that the server has opened: that
    /// stream is reserved, or refused where GOAWAY has been sent, and then
    /// the block is handed out to be dropped. Everything else is a
    /// connection error.
    pub open spec fn on_push_promise(self, f: PushPromiseFrameView) -> (
        ConnectionView,
        Option<EventView>,
    ) {
        let id = f.stream_id;
        let promised = f.promised_stream_id;
        if self.role is Server || !self.local_settings.enable_push || !f.is_headers_end()
            || !self.has_stream(id) {
            self.fail(ErrorCode::ProtocolError)
        } else {
            let s = self.streams[self.index_of(id)];
            if !(s.state == StreamState::Open || s.state == StreamState::HalfClosedLocal) {
                self.fail(ErrorCode::ProtocolError)
            } else if !(is_peer_id(self.role, promised) && self.last_peer_stream_id < promised
                <= MAX_STREAM_ID) {
                self.fail(ErrorCode::ProtocolError)
            } else if self.goaway_sent.is_some() {
                (
                    self.with_control(
                        ControlFrame::RstStream {
                            stream_id: promised,
                            code: ErrorCode::RefusedStream,
                        },
                    ),
                    Some(
                        EventView::HeadersDropped { stream_id: promised, block: f.header_fragment },
                    ),
                )
            } else {
                (
                    ConnectionView {
                        last_peer_stream_id: promised,
                        ..self.with_new_stream(
                            StreamView::fresh(
                                promised,
                                StreamState::ReservedRemote,
                                self.peer_settings.initial_window_size,
                                self.local_settings.initial_window_size,
                            ),
                        )
                    },
                    Some(
                        EventView::PushPromise {
                            stream_id: id,
                            promised_stream_id: promised,
                            block: f.header_fragment,
                        },
                    ),
                )
            }
        }
    }

    /// PRIORITY. The dependency is kept with the stream, where the table
    /// holds it.
    pub open spec fn on_priority(self, f: PriorityFrame) -> (ConnectionView, Option<EventView>) {
        if self.has_stream(f.stream_id) {
            let i = self.index_of(f.stream_id);
            (
                self.with_stream(
                    i,
                    StreamView { priority: Some(f.stream_dep), ..self.streams[i] },
                ),
                None,
            )
        } else {
            (self, None)
        }
    }

    /// What a received frame does to the connection, and what the
    /// application is told.
    ///
    /// A connection that has ended takes no frame. A frame for a stream
    /// above 2^31 - 1 is a connection error, and so is any first frame but
    /// SETTINGS without ACK. CONTINUATION is a connection error: whole
    /// header blocks are expected here. A frame of a type without a
    /// meaning is passed over.
    pub open spec fn on_frame(self, f: HttpFrameView) -> (ConnectionView, Option<EventView>) {
        if self.failed.is_some() {
            (self, None)
        } else if f.stream_id() > MAX_STREAM_ID {
            self.fail(ErrorCode::ProtocolError)
        } else if !self.peer_settings_seen && !(f matches HttpFrameView::Settings(s)
            && !s.is_ack()) {
            self.fail(ErrorCode::ProtocolError)
        } else {
            match f {
                HttpFrameView::Data(d) => self.on_data(d),
                HttpFrameView::Headers(h) => self.on_headers(h),
                HttpFrameView::Priority(p) => self.on_priority(p),
                HttpFrameView::RstStream(r) => self.on_rst_stream(r),
                HttpFrameView::Settings(s) => self.on_settings(s),
                HttpFrameView::PushPromise(p) => self.on_push_promise(p),
                HttpFrameView::Ping(p) => self.on_ping(p),
                HttpFrameView::Goaway(g) => self.on_goaway(g),
                HttpFrameView::WindowUpdate(w) => self.on_window_update(w),
                HttpFrameView::Continuation(_) => self.fail(ErrorCode::ProtocolError),
                HttpFrameView::Unknown(_) => (self, None),
            }
        }
    }
}

impl ConnectionView {
    /// What an error of the framer does to the connection: an error with
    /// a code is a connection error with that code, unless the connection
    /// has ended already; the end of the bytes changes nothing.
    pub open spec fn on_framer_error(self, e: Error) -> ConnectionView {
        match e.code() {
            Some(code) => if self.failed.is_none() {
                self.fail(code).0
            } else {
                self
            },
            None => self,
        }
    }

    /// What the bytes that have arrived do to the connection: the frame
    /// that stands first in them, a header block being taken whole, is
    /// received; where the bytes do not give a frame, that is an error of
    /// the framer. No frame may be longer than this side has said.
    pub open spec fn on_input(self, input: Seq<u8>) -> (
        ConnectionView,
        Result<Option<EventView>, Error>,
    ) {
        match spec_recv_http_frame_join_cont(input, self.local_settings.max_frame_size, None) {
            Ok((f, _)) => (self.on_frame(f).0, Ok(self.on_frame(f).1)),
            Err(e) => (self.on_framer_error(e), Err(e)),
        }
    }
}

} // verus!
