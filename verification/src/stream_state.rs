//! The states of a stream and the moves between them.

use crate::error::ErrorCode;
use vstd::prelude::*;

verus! {

/// The state of a stream.
#[derive(Clone, Copy, Debug, PartialEq, Eq, Structural)]
pub enum StreamState {
    Idle,
    ReservedLocal,
    ReservedRemote,
    Open,
    HalfClosedLocal,
    HalfClosedRemote,
    Closed,
}

/// A frame that moves a stream, seen from this side: sent or received,
/// and for HEADERS and DATA whether it carries END_STREAM.
#[derive(Clone, Copy, Debug, PartialEq, Eq, Structural)]
pub enum StreamEvent {
    SendHeaders { end_stream: bool },
    RecvHeaders { end_stream: bool },
    SendData { end_stream: bool },
    RecvData { end_stream: bool },
    /// This side promises the stream.
    SendPushPromise,
    /// The peer promises the stream.
    RecvPushPromise,
    SendRstStream,
    RecvRstStream,
}

/// Why a frame cannot move a stream.
#[derive(Clone, Copy, Debug, PartialEq, Eq, Structural)]
pub enum StreamError {
    /// The peer sent a frame that the state does not admit: the connection
    /// ends with the given code.
    Connection(ErrorCode),
    /// The peer sent a frame that the state does not admit: the stream is
    /// reset with the given code, the connection goes on.
    Stream(ErrorCode),
    /// This side asked to send what the state does not admit. Nothing goes
    /// to the wire.
    Local,
}

impl StreamEvent {
    /// The frame is one that this side sends.
    pub open spec fn is_send(self) -> bool {
        self is SendHeaders || self is SendData || self is SendPushPromise || self is SendRstStream
    }
}

impl StreamState {
    /// The state after END_STREAM was sent in it.
    pub open spec fn after_send_end(self) -> StreamState {
        match self {
            StreamState::Open => StreamState::HalfClosedLocal,
            StreamState::HalfClosedRemote => StreamState::Closed,
            s => s,
        }
    }

    /// The state after END_STREAM was received in it.
    pub open spec fn after_recv_end(self) -> StreamState {
        match self {
            StreamState::Open => StreamState::HalfClosedRemote,
            StreamState::HalfClosedLocal => StreamState::Closed,
            s => s,
        }
    }

    /// Where a frame leads from a state, where the state admits it.
    ///
    /// RST_STREAM closes a stream in any state. HEADERS opens an idle
    /// stream, takes a reserved stream to the half-closed state of the
    /// side that reserved nothing, and is admitted on a stream that the
    /// sender has not closed. DATA is admitted on a stream that the sender
    /// has not closed. END_STREAM on either closes the sender's side. A
    /// promise reserves an idle stream.
    pub open spec fn next(self, ev: StreamEvent) -> Option<StreamState> {
        match ev {
            StreamEvent::SendRstStream => Some(StreamState::Closed),
            StreamEvent::RecvRstStream => Some(StreamState::Closed),
            StreamEvent::SendPushPromise => match self {
                StreamState::Idle => Some(StreamState::ReservedLocal),
                _ => None,
            },
            StreamEvent::RecvPushPromise => match self {
                StreamState::Idle => Some(StreamState::ReservedRemote),
                _ => None,
            },
            StreamEvent::SendHeaders { end_stream } => {
                let opened = match self {
                    StreamState::Idle => Some(StreamState::Open),
                    StreamState::ReservedLocal => Some(StreamState::HalfClosedRemote),
                    StreamState::Open => Some(StreamState::Open),
                    StreamState::HalfClosedRemote => Some(StreamState::HalfClosedRemote),
                    _ => None,
                };
                match opened {
                    Some(s) => Some(
                        if end_stream {
                            s.after_send_end()
                        } else {
                            s
                        },
                    ),
                    None => None,
                }
            },
            StreamEvent::RecvHeaders { end_stream } => {
                let opened = match self {
                    StreamState::Idle => Some(StreamState::Open),
                    StreamState::ReservedRemote => Some(StreamState::HalfClosedLocal),
                    StreamState::Open => Some(StreamState::Open),
                    StreamState::HalfClosedLocal => Some(StreamState::HalfClosedLocal),
                    _ => None,
                };
                match opened {
                    Some(s) => Some(
                        if end_stream {
                            s.after_recv_end()
                        } else {
                            s
                        },
                    ),
                    None => None,
                }
            },
            StreamEvent::SendData { end_stream } => match self {
                StreamState::Open | StreamState::HalfClosedRemote => Some(
                    if end_stream {
                        self.after_send_end()
                    } else {
                        self
                    },
                ),
                _ => None,
            },
            StreamEvent::RecvData { end_stream } => match self {
                StreamState::Open | StreamState::HalfClosedLocal => Some(
                    if end_stream {
                        self.after_recv_end()
                    } else {
                        self
                    },
                ),
                _ => None,
            },
        }
    }

    /// Where a frame leads from a state, or why it leads nowhere: a frame
    /// of the peer that the state does not admit ends the connection with
    /// `ProtocolError`, but for DATA on a closed stream, which resets the
    /// stream with `StreamClosed`; a frame of this side that the state does
    /// not admit is a local error.
    pub open spec fn spec_transition(self, ev: StreamEvent) -> Result<StreamState, StreamError> {
        match self.next(ev) {
            Some(s) => Ok(s),
            None => if ev.is_send() {
                Err(StreamError::Local)
            } else if self == StreamState::Closed && ev is RecvData {
                Err(StreamError::Stream(ErrorCode::StreamClosed))
            } else {
                Err(StreamError::Connection(ErrorCode::ProtocolError))
            },
        }
    }

    /// Moves the state by a frame.
    pub fn transition(self, ev: StreamEvent) -> (r: Result<StreamState, StreamError>)
        ensures
            r == self.spec_transition(ev),
    {
        let moved: Option<StreamState> = match ev {
            StreamEvent::SendRstStream | StreamEvent::RecvRstStream => Some(StreamState::Closed),
            StreamEvent::SendPushPromise => match self {
                StreamState::Idle => Some(StreamState::ReservedLocal),
                _ => None,
            },
            StreamEvent::RecvPushPromise => match self {
                StreamState::Idle => Some(StreamState::ReservedRemote),
                _ => None,
            },
            StreamEvent::SendHeaders { end_stream } => match self {
                StreamState::Idle | StreamState::Open => Some(
                    if end_stream {
                        StreamState::HalfClosedLocal
                    } else {
                        StreamState::Open
                    },
                ),
                StreamState::ReservedLocal | StreamState::HalfClosedRemote => Some(
                    if end_stream {
                        StreamState::Closed
                    } else {
                        StreamState::HalfClosedRemote
                    },
                ),
                _ => None,
            },
            StreamEvent::RecvHeaders { end_stream } => match self {
                StreamState::Idle | StreamState::Open => Some(
                    if end_stream {
                        StreamState::HalfClosedRemote
                    } else {
                        StreamState::Open
                    },
                ),
                StreamState::ReservedRemote | StreamState::HalfClosedLocal => Some(
                    if end_stream {
                        StreamState::Closed
                    } else {
                        StreamState::HalfClosedLocal
                    },
                ),
                _ => None,
            },
            StreamEvent::SendData { end_stream } => match self {
                StreamState::Open => Some(
                    if end_stream {
                        StreamState::HalfClosedLocal
                    } else {
                        StreamState::Open
                    },
                ),
                StreamState::HalfClosedRemote => Some(
                    if end_stream {
                        StreamState::Closed
                    } else {
                        StreamState::HalfClosedRemote
                    },
                ),
                _ => None,
            },
            StreamEvent::RecvData { end_stream } => match self {
                StreamState::Open => Some(
                    if end_stream {
                        StreamState::HalfClosedRemote
                    } else {
                        StreamState::Open
                    },
                ),
                StreamState::HalfClosedLocal => Some(
                    if end_stream {
                        StreamState::Closed
                    } else {
                        StreamState::HalfClosedLocal
                    },
                ),
                _ => None,
            },
        };
        match moved {
            Some(s) => Ok(s),
            None => match ev {
                StreamEvent::SendHeaders { .. }
                | StreamEvent::SendData { .. }
                | StreamEvent::SendPushPromise
                | StreamEvent::SendRstStream => Err(StreamError::Local),
                StreamEvent::RecvData { .. } => match self {
                    StreamState::Closed => Err(StreamError::Stream(ErrorCode::StreamClosed)),
                    _ => Err(StreamError::Connection(ErrorCode::ProtocolError)),
                },
                _ => Err(StreamError::Connection(ErrorCode::ProtocolError)),
            },
        }
    }

    /// No frame leads out of `Closed`: where a closed stream is moved at
    /// all, it stays closed.
    pub proof fn lemma_closed_is_final(ev: StreamEvent)
        ensures
            StreamState::Closed.spec_transition(ev) matches Ok(s) ==> s == StreamState::Closed,
            StreamState::Closed.next(ev) matches Some(s) ==> s == StreamState::Closed,
    {
    }

}

} // verus!
