//! What the application may ask of the connection, and which frame is
//! written next.

use crate::engine::model::{ConnectionView, ControlFrame, Failure, QueuedView, StreamView};
use crate::error::ErrorCode;
use crate::frame::continuation::ContinuationFrameView;
use crate::frame::data::DataFrameView;
use crate::frame::flags::{has_flag, END_HEADERS, END_STREAM, PADDED, PRIORITY};
use crate::frame::header::{StreamId, MAX_STREAM_ID};
use crate::frame::headers::HeadersFrameView;
use crate::frame::http_frame::HttpFrameView;
use crate::frame::push_promise::PushPromiseFrameView;
use crate::frame::rst_stream::RstStreamFrame;
use crate::stream_state::{StreamEvent, StreamState};
use crate::window::Window;
use vstd::prelude::*;

verus! {

/// Why a request of the application was not carried out. Nothing goes to
/// the wire, and the connection is as it was.
#[derive(Clone, Copy, Debug, PartialEq, Eq, Structural)]
pub enum LocalError {
    /// The connection has ended or is shutting down.
    ConnectionClosed,
    /// The peer has sent GOAWAY: a new stream would be refused.
    RefusedStream,
    /// This side has no stream identifier left.
    StreamIdsExhausted,
    /// Only a client starts requests, only a server promises streams.
    WrongRole,
    /// The peer has switched server push off.
    PushDisabled,
    /// The table holds no such stream.
    UnknownStream,
    /// The state of the stream, or what still waits on it, does not admit
    /// what was asked.
    InvalidState,
    /// A PING was not answered in time. The connection has ended.
    PingTimeout,
}

/// The flags of the frame that starts or continues a header block.
pub open spec fn block_flags(end_stream: bool, end_headers: bool) -> u8 {
    if end_stream && end_headers {
        0x5
    } else if end_stream {
        0x1
    } else if end_headers {
        0x4
    } else {
        0x0
    }
}

/// The flags of a block say what they are meant to say, and nothing else.
pub proof fn lemma_block_flags(end_stream: bool, end_headers: bool)
    ensures
        has_flag(block_flags(end_stream, end_headers), END_STREAM) == end_stream,
        has_flag(block_flags(end_stream, end_headers), END_HEADERS) == end_headers,
        !has_flag(block_flags(end_stream, end_headers), PADDED),
        !has_flag(block_flags(end_stream, end_headers), PRIORITY),
{
    assert(0x5u8 & 0x1 != 0 && 0x5u8 & 0x4 != 0 && 0x5u8 & 0x8 == 0 && 0x5u8 & 0x20 == 0
        && 0x1u8 & 0x1 != 0 && 0x1u8 & 0x4 == 0 && 0x1u8 & 0x8 == 0 && 0x1u8 & 0x20 == 0
        && 0x4u8 & 0x1 == 0 && 0x4u8 & 0x4 != 0 && 0x4u8 & 0x8 == 0 && 0x4u8 & 0x20 == 0
        && 0x0u8 & 0x1 == 0 && 0x0u8 & 0x4 == 0 && 0x0u8 & 0x8 == 0 && 0x0u8 & 0x20 == 0)
        by (bit_vector);
}

/// The smaller of two numbers.
pub open spec fn min2(a: int, b: int) -> int {
    if a <= b {
        a
    } else {
        b
    }
}

impl ConnectionView {
    /// Starts a request: a client that neither has ended nor is shutting
    /// down, and whose peer has sent no GOAWAY, opens its next stream, and
    /// the header block waits to be written. `end_stream` says that no
    /// body follows.
    pub open spec fn start_request(self, block: Seq<u8>, end_stream: bool) -> (
        ConnectionView,
        Result<StreamId, LocalError>,
    ) {
        if self.failed.is_some() || self.goaway_sent.is_some() {
            (self, Err(LocalError::ConnectionClosed))
        } else if self.role is Server {
            (self, Err(LocalError::WrongRole))
        } else if self.goaway_received.is_some() {
            (self, Err(LocalError::RefusedStream))
        } else if self.next_stream_id > MAX_STREAM_ID {
            (self, Err(LocalError::StreamIdsExhausted))
        } else {
            let id = self.next_stream_id;
            let state = if end_stream {
                StreamState::HalfClosedLocal
            } else {
                StreamState::Open
            };
            let s = StreamView::fresh(
                id,
                state,
                self.peer_settings.initial_window_size,
                self.local_settings.initial_window_size,
            );
            (
                ConnectionView {
                    next_stream_id: (id + 2) as u32,
                    ordered: self.ordered.push(
                        QueuedView::Headers { stream_id: id, block, end_stream },
                    ),
                    ..self.with_new_stream(s)
                },
                Ok(id),
            )
        }
    }

    /// Sends a header block on a stream of the table: the headers of a
    /// response, or trailers. The state has to admit HEADERS, and no body
    /// bytes may wait on the stream.
    pub open spec fn send_headers(self, id: StreamId, block: Seq<u8>, end_stream: bool) -> (
        ConnectionView,
        Result<(), LocalError>,
    ) {
        if self.failed.is_some() {
            (self, Err(LocalError::ConnectionClosed))
        } else if !self.has_stream(id) {
            (self, Err(LocalError::UnknownStream))
        } else {
            let i = self.index_of(id);
            let s = self.streams[i];
            if s.pending.len() > 0 || s.pending_end {
                (self, Err(LocalError::InvalidState))
            } else {
                match s.state.next(StreamEvent::SendHeaders { end_stream }) {
                    None => (self, Err(LocalError::InvalidState)),
                    Some(state) => (
                        ConnectionView {
                            ordered: self.ordered.push(
                                QueuedView::Headers { stream_id: id, block, end_stream },
                            ),
                            ..self.with_stream(i, StreamView { state, ..s })
                        },
                        Ok(()),
                    ),
                }
            }
        }
    }

    /// Hands in body bytes for a stream of the table. The stream has to be
    /// open on this side, and the end of the body must not have been
    /// handed in. The bytes wait behind those that wait already.
    pub open spec fn send_data(self, id: StreamId, data: Seq<u8>, end_stream: bool) -> (
        ConnectionView,
        Result<(), LocalError>,
    ) {
        if self.failed.is_some() {
            (self, Err(LocalError::ConnectionClosed))
        } else if !self.has_stream(id) {
            (self, Err(LocalError::UnknownStream))
        } else {
            let i = self.index_of(id);
            let s = self.streams[i];
            if s.pending_end || !(s.state == StreamState::Open || s.state
                == StreamState::HalfClosedRemote) {
                (self, Err(LocalError::InvalidState))
            } else {
                (
                    self.with_stream(
                        i,
                        StreamView {
                            pending: s.pending + data,
                            pending_end: end_stream,
                            submitted: s.submitted + data,
                            ..s
                        },
                    ),
                    Ok(()),
                )
            }
        }
    }

    /// Gives up a stream of the table: what waits on it is dropped, and
    /// RST_STREAM with CANCEL waits to be written.
    pub open spec fn cancel(self, id: StreamId) -> (ConnectionView, Result<(), LocalError>) {
        if self.failed.is_some() {
            (self, Err(LocalError::ConnectionClosed))
        } else if !self.has_stream(id) {
            (self, Err(LocalError::UnknownStream))
        } else {
            (self.reset_stream(id, ErrorCode::Cancel), Ok(()))
        }
    }

    /// Promises a stream: a server whose peer admits push reserves its
    /// next stream on behalf of a stream of the peer that is open on the
    /// side of the server, and the header block of the promised request
    /// waits to be written.
    pub open spec fn push_promise(self, id: StreamId, block: Seq<u8>) -> (
        ConnectionView,
        Result<StreamId, LocalError>,
    ) {
        if self.failed.is_some() || self.goaway_sent.is_some() {
            (self, Err(LocalError::ConnectionClosed))
        } else if self.role is Client {
            (self, Err(LocalError::WrongRole))
        } else if !self.peer_settings.enable_push {
            (self, Err(LocalError::PushDisabled))
        } else if self.goaway_received.is_some() {
            (self, Err(LocalError::RefusedStream))
        } else if !self.has_stream(id) {
            (self, Err(LocalError::UnknownStream))
        } else if !(self.streams[self.index_of(id)].state == StreamState::Open
            || self.streams[self.index_of(id)].state == StreamState::HalfClosedRemote) {
            (self, Err(LocalError::InvalidState))
        } else if self.next_stream_id > MAX_STREAM_ID {
            (self, Err(LocalError::StreamIdsExhausted))
        } else {
            let promised = self.next_stream_id;
            let s = StreamView::fresh(
                promised,
                StreamState::ReservedLocal,
                self.peer_settings.initial_window_size,
                self.local_settings.initial_window_size,
            );
            (
                ConnectionView {
                    next_stream_id: (promised + 2) as u32,
                    ordered: self.ordered.push(
                        QueuedView::PushPromise {
                            stream_id: id,
                            promised_stream_id: promised,
                            block,
                        },
                    ),
                    ..self.with_new_stream(s)
                },
                Ok(promised),
            )
        }
    }

    /// Begins to shut down: GOAWAY with NO_ERROR and the highest stream
    /// that the peer has opened waits to be written, and no new stream is
    /// started from now on. A connection that has ended or is shutting
    /// down stays as it is.
    pub open spec fn shutdown(self) -> ConnectionView {
        if self.failed.is_some() || self.goaway_sent.is_some() {
            self
        } else {
            ConnectionView {
                goaway_sent: Some(self.last_peer_stream_id),
                ..self.with_control(
                    ControlFrame::Goaway {
                        last_stream_id: self.last_peer_stream_id,
                        code: ErrorCode::NoError,
                    },
                )
            }
        }
    }

    /// The connection is shutting down and no stream is left.
    pub open spec fn is_drained(self) -> bool {
        self.goaway_sent.is_some() && self.streams.len() == 0
    }

    /// A tick of the keepalive timer. Where the PING of the tick before
    /// has not been answered, the connection ends with `PingTimeout`:
    /// every stream is gone and nothing waits to be written. Else a PING
    /// with the next payload waits to be written.
    pub open spec fn tick(self) -> (ConnectionView, Result<(), LocalError>) {
        if self.failed.is_some() {
            (self, Err(LocalError::ConnectionClosed))
        } else if self.outstanding_ping.is_some() {
            (
                ConnectionView {
                    failed: Some(Failure::PingTimeout),
                    streams: Seq::empty(),
                    control: Seq::empty(),
                    ordered: Seq::empty(),
                    cursor: 0,
                    ..self
                },
                Err(LocalError::PingTimeout),
            )
        } else {
            (
                ConnectionView {
                    outstanding_ping: Some(self.next_ping),
                    next_ping: if self.next_ping == u64::MAX {
                        0
                    } else {
                        (self.next_ping + 1) as u64
                    },
                    ..self.with_control(ControlFrame::Ping(self.next_ping))
                },
                Ok(()),
            )
        }
    }

    /// The time that the peer has to acknowledge SETTINGS is over. Where
    /// SETTINGS of this side still wait for their acknowledgement, that is
    /// a connection error with SETTINGS_TIMEOUT.
    pub open spec fn settings_deadline(self) -> ConnectionView {
        if self.failed.is_none() && self.unacked_settings > 0 {
            self.fail(ErrorCode::SettingsTimeout).0
        } else {
            self
        }
    }

    /// The stream has something that can be written now: body bytes and
    /// room for them in its own window and in that of the connection, or
    /// the end of a body of which no byte waits.
    pub open spec fn ready(self, s: StreamView) -> bool {
        if s.pending.len() > 0 {
            s.send_window.size > 0 && self.send_window.size > 0
        } else {
            s.pending_end
        }
    }

    /// The first place from `from` up to `to` whose stream is ready.
    pub open spec fn first_ready(self, from: int, to: int) -> Option<int>
        decreases to - from,
    {
        if from >= to {
            None
        } else if self.ready(self.streams[from]) {
            Some(from)
        } else {
            self.first_ready(from + 1, to)
        }
    }

    /// The stream whose body is written next: the first ready one from the
    /// cursor on, going round the table once.
    pub open spec fn pick(self) -> Option<int> {
        match self.first_ready(self.cursor as int, self.streams.len() as int) {
            Some(i) => Some(i),
            None => self.first_ready(0, self.cursor as int),
        }
    }

    /// The number of body bytes of the stream that go into the next DATA
    /// frame: as many as wait, but no more than a frame of the peer may
    /// hold and no more than either window admits.
    pub open spec fn chunk_len(self, s: StreamView) -> int {
        if s.pending.len() == 0 {
            0
        } else {
            min2(
                min2(s.pending.len() as int, self.peer_settings.max_frame_size as int),
                min2(s.send_window.size as int, self.send_window.size as int),
            )
        }
    }

    /// The DATA frame that is written for the stream at `i`, and the
    /// connection afterwards: the bytes have left the stream and both
    /// windows, and the cursor stands behind the stream. The frame that
    /// carries the last bytes of a body whose end was handed in carries
    /// END_STREAM and closes this side of the stream.
    pub open spec fn emit_data(self, i: int) -> (ConnectionView, HttpFrameView) {
        let s = self.streams[i];
        let n = self.chunk_len(s);
        let end = s.pending_end && n == s.pending.len();
        let frame = HttpFrameView::Data(
            DataFrameView {
                stream_id: s.id,
                flags: block_flags(end, false),
                data: s.pending.take(n),
                padding_len: 0,
            },
        );
        let state = if end {
            s.state.after_send_end()
        } else {
            s.state
        };
        let s2 = StreamView {
            state,
            send_window: Window { size: (s.send_window.size - n) as i32 },
            pending: s.pending.skip(n),
            pending_end: s.pending_end && !end,
            sent: s.sent + s.pending.take(n),
            ..s
        };
        let c = ConnectionView {
            send_window: Window { size: (self.send_window.size - n) as i32 },
            ..self
        }.with_stream(i, s2);
        (
            ConnectionView {
                cursor: if state == StreamState::Closed {
                    i as nat
                } else {
                    (i + 1) as nat
                },
                ..c
            },
            frame,
        )
    }

    /// The frame that is written for the first entry of the ordered queue,
    /// and the connection afterwards. A header block that is longer than a
    /// frame of the peer may be is written piece by piece: the first piece
    /// leaves, and what is left stays in front as a continuation.
    pub open spec fn emit_ordered(self) -> (ConnectionView, HttpFrameView) {
        let max = self.peer_settings.max_frame_size as int;
        let rest = self.ordered.skip(1);
        match self.ordered[0] {
            QueuedView::Headers { stream_id, block, end_stream } => {
                let whole = block.len() <= max;
                let frame = HttpFrameView::Headers(
                    HeadersFrameView {
                        stream_id,
                        flags: block_flags(end_stream, whole),
                        header_fragment: if whole {
                            block
                        } else {
                            block.take(max)
                        },
                        stream_dep: None,
                        padding_len: 0,
                    },
                );
                if whole {
                    (ConnectionView { ordered: rest, ..self }, frame)
                } else {
                    (
                        ConnectionView {
                            ordered: self.ordered.update(
                                0,
                                QueuedView::Continuation { stream_id, block: block.skip(max) },
                            ),
                            ..self
                        },
                        frame,
                    )
                }
            },
            QueuedView::PushPromise { stream_id, promised_stream_id, block } => {
                let whole = block.len() <= max - 4;
                let frame = HttpFrameView::PushPromise(
                    PushPromiseFrameView {
                        stream_id,
                        flags: block_flags(false, whole),
                        promised_stream_id,
                        header_fragment: if whole {
                            block
                        } else {
                            block.take(max - 4)
                        },
                        padding_len: 0,
                    },
                );
                if whole {
                    (ConnectionView { ordered: rest, ..self }, frame)
                } else {
                    (
                        ConnectionView {
                            ordered: self.ordered.update(
                                0,
                                QueuedView::Continuation { stream_id, block: block.skip(max - 4) },
                            ),
                            ..self
                        },
                        frame,
                    )
                }
            },
            QueuedView::Continuation { stream_id, block } => {
                let whole = block.len() <= max;
                let frame = HttpFrameView::Continuation(
                    ContinuationFrameView {
                        stream_id,
                        flags: block_flags(false, whole),
                        header_fragment: if whole {
                            block
                        } else {
                            block.take(max)
                        },
                    },
                );
                if whole {
                    (ConnectionView { ordered: rest, ..self }, frame)
                } else {
                    (
                        ConnectionView {
                            ordered: self.ordered.update(
                                0,
                                QueuedView::Continuation { stream_id, block: block.skip(max) },
                            ),
                            ..self
                        },
                        frame,
                    )
                }
            },
            QueuedView::RstStream { stream_id, code } => (
                ConnectionView { ordered: rest, ..self },
                HttpFrameView::RstStream(
                    RstStreamFrame { stream_id, flags: 0, raw_error_code: code.wire() },
                ),
            ),
        }
    }

    /// The frame that is written next, if there is one, and the connection
    /// afterwards.
    ///
    /// A header block whose start has been written is finished first.
    /// Then control frames go before everything else, in the order in
    /// which they came to wait; then header blocks, in that order too;
    /// and then the body of the stream that [`Self::pick`] names.
    pub open spec fn poll(self) -> (ConnectionView, Option<HttpFrameView>) {
        if self.ordered.len() > 0 && self.ordered[0] is Continuation {
            (self.emit_ordered().0, Some(self.emit_ordered().1))
        } else if self.control.len() > 0 {
            (ConnectionView { control: self.control.skip(1), ..self }, Some(self.control[0].frame()))
        } else if self.ordered.len() > 0 {
            (self.emit_ordered().0, Some(self.emit_ordered().1))
        } else {
            match self.pick() {
                Some(i) => (self.emit_data(i).0, Some(self.emit_data(i).1)),
                None => (self, None),
            }
        }
    }
}

} // verus!
