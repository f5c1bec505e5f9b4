//! Error codes of the wire and the errors that the library reports.

use vstd::prelude::*;

verus! {

/// The error codes that RST_STREAM and GOAWAY carry.
#[derive(Clone, Copy, Debug, PartialEq, Eq, Structural)]
pub enum ErrorCode {
    NoError,
    ProtocolError,
    InternalError,
    FlowControlError,
    SettingsTimeout,
    StreamClosed,
    FrameSizeError,
    RefusedStream,
    Cancel,
    CompressionError,
    ConnectError,
    EnhanceYourCalm,
    InadequateSecurity,
    Http11Required,
}

impl ErrorCode {
    /// The number that stands for the code on the wire.
    pub open spec fn wire(self) -> u32 {
        match self {
            ErrorCode::NoError => 0,
            ErrorCode::ProtocolError => 1,
            ErrorCode::InternalError => 2,
            ErrorCode::FlowControlError => 3,
            ErrorCode::SettingsTimeout => 4,
            ErrorCode::StreamClosed => 5,
            ErrorCode::FrameSizeError => 6,
            ErrorCode::RefusedStream => 7,
            ErrorCode::Cancel => 8,
            ErrorCode::CompressionError => 9,
            ErrorCode::ConnectError => 10,
            ErrorCode::EnhanceYourCalm => 11,
            ErrorCode::InadequateSecurity => 12,
            ErrorCode::Http11Required => 13,
        }
    }

    /// The code that a number of the wire stands for. A number that no code
    /// has is read as `InternalError`.
    pub open spec fn of_wire(n: u32) -> ErrorCode {
        if n == 0 {
            ErrorCode::NoError
        } else if n == 1 {
            ErrorCode::ProtocolError
        } else if n == 3 {
            ErrorCode::FlowControlError
        } else if n == 4 {
            ErrorCode::SettingsTimeout
        } else if n == 5 {
            ErrorCode::StreamClosed
        } else if n == 6 {
            ErrorCode::FrameSizeError
        } else if n == 7 {
            ErrorCode::RefusedStream
        } else if n == 8 {
            ErrorCode::Cancel
        } else if n == 9 {
            ErrorCode::CompressionError
        } else if n == 10 {
            ErrorCode::ConnectError
        } else if n == 11 {
            ErrorCode::EnhanceYourCalm
        } else if n == 12 {
            ErrorCode::InadequateSecurity
        } else if n == 13 {
            ErrorCode::Http11Required
        } else {
            ErrorCode::InternalError
        }
    }

    /// The number that stands for the code on the wire.
    pub fn to_u32(self) -> (n: u32)
        ensures
            n == self.wire(),
    {
        match self {
            ErrorCode::NoError => 0,
            ErrorCode::ProtocolError => 1,
            ErrorCode::InternalError => 2,
            ErrorCode::FlowControlError => 3,
            ErrorCode::SettingsTimeout => 4,
            ErrorCode::StreamClosed => 5,
            ErrorCode::FrameSizeError => 6,
            ErrorCode::RefusedStream => 7,
            ErrorCode::Cancel => 8,
            ErrorCode::CompressionError => 9,
            ErrorCode::ConnectError => 10,
            ErrorCode::EnhanceYourCalm => 11,
            ErrorCode::InadequateSecurity => 12,
            ErrorCode::Http11Required => 13,
        }
    }

    /// The code that a number of the wire stands for.
    pub fn from_u32(n: u32) -> (code: ErrorCode)
        ensures
            code == ErrorCode::of_wire(n),
    {
        match n {
            0 => ErrorCode::NoError,
            1 => ErrorCode::ProtocolError,
            3 => ErrorCode::FlowControlError,
            4 => ErrorCode::SettingsTimeout,
            5 => ErrorCode::StreamClosed,
            6 => ErrorCode::FrameSizeError,
            7 => ErrorCode::RefusedStream,
            8 => ErrorCode::Cancel,
            9 => ErrorCode::CompressionError,
            10 => ErrorCode::ConnectError,
            11 => ErrorCode::EnhanceYourCalm,
            12 => ErrorCode::InadequateSecurity,
            13 => ErrorCode::Http11Required,
            _ => ErrorCode::InternalError,
        }
    }

    /// Every code is read back from its own number.
    pub proof fn lemma_of_wire_wire(code: ErrorCode)
        ensures
            ErrorCode::of_wire(code.wire()) == code,
            code.wire() <= 13,
    {
    }
}

/// Why the bytes of a frame are not a frame.
#[derive(Clone, Copy, Debug, PartialEq, Eq, Structural)]
pub enum ParseFrameError {
    /// Fewer than the nine bytes of a frame header.
    BufMustBeAtLeast9Bytes,
    /// The frame is of another type than the one asked for.
    UnexpectedFrameType,
    /// The payload is not as long as the header says, or not of a length
    /// that the frame type admits.
    IncorrectPayloadLen,
    /// A frame that belongs to the connection names a stream.
    StreamIdMustBeZero,
    /// A frame that belongs to a stream names none.
    StreamIdMustBeNonZero,
    /// The padding is as long as the payload or longer.
    PaddingTooLong,
    /// SETTINGS_ENABLE_PUSH with a value other than 0 or 1.
    IncorrectSettingsPushValue,
    /// SETTINGS_INITIAL_WINDOW_SIZE above 2^31 - 1.
    IncorrectSettingsWindowSize,
    /// SETTINGS_MAX_FRAME_SIZE outside 2^14 ..= 2^24 - 1.
    IncorrectSettingsMaxFrameSize,
}

impl ParseFrameError {
    /// The code with which the connection is closed on this error.
    pub open spec fn code(self) -> ErrorCode {
        match self {
            ParseFrameError::BufMustBeAtLeast9Bytes => ErrorCode::FrameSizeError,
            ParseFrameError::UnexpectedFrameType => ErrorCode::InternalError,
            ParseFrameError::IncorrectPayloadLen => ErrorCode::FrameSizeError,
            ParseFrameError::StreamIdMustBeZero => ErrorCode::ProtocolError,
            ParseFrameError::StreamIdMustBeNonZero => ErrorCode::ProtocolError,
            ParseFrameError::PaddingTooLong => ErrorCode::ProtocolError,
            ParseFrameError::IncorrectSettingsPushValue => ErrorCode::ProtocolError,
            ParseFrameError::IncorrectSettingsWindowSize => ErrorCode::FlowControlError,
            ParseFrameError::IncorrectSettingsMaxFrameSize => ErrorCode::ProtocolError,
        }
    }
}

/// A frame that is well formed but not the one that had to come.
#[derive(Clone, Copy, Debug, PartialEq, Eq, Structural)]
pub enum InvalidFrame {
    /// The first 24 bytes are not the client preface.
    WrongPreface,
    /// As `WrongPreface`, and the first byte is 0x16, the start of a TLS
    /// handshake record: the peer is likely speaking TLS.
    WrongPrefaceLikelyTls,
    /// A frame of the given type came where SETTINGS was expected.
    ExpectedSettings(u8),
    /// SETTINGS without ACK came where an acknowledgement was expected.
    ExpectedSettingsAck,
    /// A SETTINGS acknowledgement came where settings were expected.
    ExpectedSettingsWithoutAck,
}

/// A header block that is not continued as it has to be.
#[derive(Clone, Copy, Debug, PartialEq, Eq, Structural)]
pub enum ContinuationError {
    /// HEADERS inside an unfinished header block.
    GotHeaders,
    /// PUSH_PROMISE inside an unfinished header block.
    GotPushPromise,
    /// A frame other than CONTINUATION inside an unfinished header block.
    GotOther,
    /// CONTINUATION for another stream than the one of the header block.
    DifferentStream,
    /// CONTINUATION with no header block to continue.
    WithoutHeaders,
}

impl InvalidFrame {
    /// What went wrong, in words.
    pub open spec fn spec_message(self) -> Seq<char> {
        match self {
            InvalidFrame::WrongPreface => "wrong preface"@,
            InvalidFrame::WrongPrefaceLikelyTls => "wrong preface, likely TLS"@,
            InvalidFrame::ExpectedSettings(_) => "unexpected frame, expected SETTINGS"@,
            InvalidFrame::ExpectedSettingsAck => "expecting SETTINGS with ack, got without ack"@,
            InvalidFrame::ExpectedSettingsWithoutAck => "expecting SETTINGS without ack, got with ack"@,
        }
    }

    /// What went wrong, in words.
    pub fn message(&self) -> (m: &'static str)
        ensures
            m@ == self.spec_message(),
    {
        match self {
            InvalidFrame::WrongPreface => "wrong preface",
            InvalidFrame::WrongPrefaceLikelyTls => "wrong preface, likely TLS",
            InvalidFrame::ExpectedSettings(_) => "unexpected frame, expected SETTINGS",
            InvalidFrame::ExpectedSettingsAck => "expecting SETTINGS with ack, got without ack",
            InvalidFrame::ExpectedSettingsWithoutAck => "expecting SETTINGS without ack, got with ack",
        }
    }
}

impl ContinuationError {
    /// What went wrong, in words.
    pub open spec fn spec_message(self) -> Seq<char> {
        match self {
            ContinuationError::GotHeaders => "expecting CONTINUATION frame, got HEADERS"@,
            ContinuationError::GotPushPromise => "expecting CONTINUATION frame, got PUSH_PROMISE"@,
            ContinuationError::GotOther => "expecting CONTINUATION frame"@,
            ContinuationError::DifferentStream => "CONTINUATION frame with different stream id"@,
            ContinuationError::WithoutHeaders => "CONTINUATION frame without headers"@,
        }
    }

    /// What went wrong, in words.
    pub fn message(&self) -> (m: &'static str)
        ensures
            m@ == self.spec_message(),
    {
        match self {
            ContinuationError::GotHeaders => "expecting CONTINUATION frame, got HEADERS",
            ContinuationError::GotPushPromise => "expecting CONTINUATION frame, got PUSH_PROMISE",
            ContinuationError::GotOther => "expecting CONTINUATION frame",
            ContinuationError::DifferentStream => "CONTINUATION frame with different stream id",
            ContinuationError::WithoutHeaders => "CONTINUATION frame without headers",
        }
    }
}

/// What the library reports when it cannot go on.
#[derive(Clone, Copy, Debug, PartialEq, Eq, Structural)]
pub enum Error {
    /// The byte source ended before the bytes asked for were there.
    UnexpectedEof,
    /// A condition that has an error code of its own.
    CodeError(ErrorCode),
    /// Bytes that are not a frame.
    ParseFrameError(ParseFrameError),
    /// A frame other than the one that had to come.
    InvalidFrame(InvalidFrame),
    /// A broken sequence of HEADERS, PUSH_PROMISE and CONTINUATION.
    Other(ContinuationError),
}

impl Error {
    /// The code that GOAWAY carries when the connection is closed on this
    /// error; none where the transport itself has ended.
    pub open spec fn code(self) -> Option<ErrorCode> {
        match self {
            Error::UnexpectedEof => None,
            Error::CodeError(c) => Some(c),
            Error::ParseFrameError(e) => Some(e.code()),
            Error::InvalidFrame(_) => Some(ErrorCode::ProtocolError),
            Error::Other(_) => Some(ErrorCode::ProtocolError),
        }
    }

    /// The code that GOAWAY carries when the connection is closed on this
    /// error.
    pub fn error_code(&self) -> (r: Option<ErrorCode>)
        ensures
            r == self.code(),
    {
        match self {
            Error::UnexpectedEof => None,
            Error::CodeError(c) => Some(*c),
            Error::ParseFrameError(e) => Some(
                match e {
                    ParseFrameError::BufMustBeAtLeast9Bytes => ErrorCode::FrameSizeError,
                    ParseFrameError::IncorrectPayloadLen => ErrorCode::FrameSizeError,
                    ParseFrameError::UnexpectedFrameType => ErrorCode::InternalError,
                    ParseFrameError::IncorrectSettingsWindowSize => ErrorCode::FlowControlError,
                    _ => ErrorCode::ProtocolError,
                },
            ),
            Error::InvalidFrame(_) => Some(ErrorCode::ProtocolError),
            Error::Other(_) => Some(ErrorCode::ProtocolError),
        }
    }
}

} // verus!
