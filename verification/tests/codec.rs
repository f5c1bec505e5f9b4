//! The bytes of every frame type, both ways.

use bytes::Bytes;
use httpbis::error::{ErrorCode, ParseFrameError};
use httpbis::frame::continuation::ContinuationFrame;
use httpbis::frame::data::DataFrame;
use httpbis::frame::flags::{is_set, set_flag, ACK, END_HEADERS, END_STREAM, PADDED, PRIORITY};
use httpbis::frame::goaway::GoawayFrame;
use httpbis::frame::header::{FrameHeader, RawFrame};
use httpbis::frame::headers::HeadersFrame;
use httpbis::frame::http_frame::HttpFrame;
use httpbis::frame::ping::PingFrame;
use httpbis::frame::priority::{PriorityFrame, StreamDependency};
use httpbis::frame::push_promise::PushPromiseFrame;
use httpbis::frame::rst_stream::RstStreamFrame;
use httpbis::frame::settings::{HttpSetting, SettingsFrame};
use httpbis::frame::window_update::WindowUpdateFrame;
use httpbis::wire::{push_u16, push_u24, push_u32, push_u64, read_u16, read_u24, read_u32, read_u64};

fn raw(bytes: &[u8]) -> RawFrame {
    RawFrame::from_vec(bytes.to_vec())
}

/// Encodes, compares with the expected bytes, decodes, compares with the
/// frame.
fn both_ways(frame: HttpFrame, bytes: &[u8]) {
    assert_eq!(frame.serialize_into_vec(), bytes);
    assert_eq!(HttpFrame::from_raw(&raw(bytes)), Ok(frame));
}

#[test]
fn integers_are_big_endian() {
    let mut out = Vec::new();
    push_u16(&mut out, 0x0102);
    push_u24(&mut out, 0x030405);
    push_u32(&mut out, 0x06070809);
    push_u64(&mut out, 0x0a0b0c0d0e0f1011);
    assert_eq!(out, (1u8..=0x11).collect::<Vec<u8>>());
    assert_eq!(read_u16(&out, 0), 0x0102);
    assert_eq!(read_u24(&out, 2), 0x030405);
    assert_eq!(read_u32(&out, 5), 0x06070809);
    assert_eq!(read_u64(&out, 9), 0x0a0b0c0d0e0f1011);
    let mut max = Vec::new();
    push_u64(&mut max, u64::MAX);
    assert_eq!(max, vec![0xff; 8]);
    assert_eq!(read_u64(&max, 0), u64::MAX);
}

#[test]
fn flags_are_bits() {
    assert!(is_set(0x05, END_STREAM));
    assert!(is_set(0x05, END_HEADERS));
    assert!(!is_set(0x05, PADDED));
    assert_eq!(set_flag(0x01, END_HEADERS), 0x05);
    assert_eq!(set_flag(0x05, END_HEADERS), 0x05);
}

#[test]
fn data_frame() {
    let mut f = DataFrame::new(1, Bytes::from(&b"hi"[..]));
    f.flags = END_STREAM;
    assert!(f.is_end_of_stream());
    assert_eq!(f.payload_len(), 2);
    both_ways(HttpFrame::Data(f), &[0, 0, 2, 0, 1, 0, 0, 0, 1, b'h', b'i']);
}

#[test]
fn data_frame_with_padding() {
    let mut f = DataFrame::new(1, Bytes::from(&b"ab"[..]));
    f.flags = PADDED;
    f.padding_len = 3;
    assert_eq!(f.payload_len(), 6);
    both_ways(
        HttpFrame::Data(f),
        &[0, 0, 6, 0, 8, 0, 0, 0, 1, 3, b'a', b'b', 0, 0, 0],
    );
}

#[test]
fn data_frame_padding_is_not_data() {
    // Padding bytes that are not zero are dropped all the same.
    let got = DataFrame::from_raw(&raw(&[0, 0, 4, 0, 8, 0, 0, 0, 1, 2, b'a', 9, 9])).unwrap();
    assert_eq!(&got.data[..], b"a");
    assert_eq!(got.padding_len, 2);
}

#[test]
fn headers_frame() {
    let mut f = HeadersFrame::new(1, Bytes::from(&[0x82u8, 0x86][..]));
    f.flags = END_HEADERS | END_STREAM;
    assert!(f.is_headers_end());
    assert!(f.is_end_of_stream());
    both_ways(HttpFrame::Headers(f), &[0, 0, 2, 1, 5, 0, 0, 0, 1, 0x82, 0x86]);
}

#[test]
fn headers_frame_with_priority_and_padding() {
    let mut f = HeadersFrame::new(5, Bytes::from(&[0x82u8][..]));
    f.flags = END_HEADERS | PRIORITY | PADDED;
    f.stream_dep = Some(StreamDependency { stream_id: 3, weight: 15, is_exclusive: true });
    f.padding_len = 2;
    assert_eq!(f.payload_len(), 9);
    both_ways(
        HttpFrame::Headers(f),
        &[0, 0, 9, 1, 0x2c, 0, 0, 0, 5, 2, 0x80, 0, 0, 3, 15, 0x82, 0, 0],
    );
}

#[test]
fn priority_frame() {
    let f = PriorityFrame {
        stream_id: 1,
        flags: 0,
        stream_dep: StreamDependency { stream_id: 3, weight: 7, is_exclusive: false },
    };
    both_ways(HttpFrame::Priority(f), &[0, 0, 5, 2, 0, 0, 0, 0, 1, 0, 0, 0, 3, 7]);
}

#[test]
fn rst_stream_frame() {
    let f = RstStreamFrame::new(1, ErrorCode::Cancel);
    assert_eq!(f.error_code(), ErrorCode::Cancel);
    both_ways(HttpFrame::RstStream(f), &[0, 0, 4, 3, 0, 0, 0, 0, 1, 0, 0, 0, 8]);
}

#[test]
fn settings_frame() {
    let mut f = SettingsFrame::new();
    f.add_setting(HttpSetting::HeaderTableSize(4096));
    f.add_setting(HttpSetting::EnablePush(true));
    f.add_setting(HttpSetting::MaxConcurrentStreams(100));
    f.add_setting(HttpSetting::InitialWindowSize(0x7fff_ffff));
    f.add_setting(HttpSetting::MaxFrameSize(0x4000));
    f.add_setting(HttpSetting::MaxHeaderListSize(8));
    f.add_setting(HttpSetting::Unknown(0x99, 0x01020304));
    assert!(!f.is_ack());
    both_ways(
        HttpFrame::Settings(f),
        &[
            0, 0, 42, 4, 0, 0, 0, 0, 0, //
            0, 1, 0, 0, 0x10, 0, //
            0, 2, 0, 0, 0, 1, //
            0, 3, 0, 0, 0, 100, //
            0, 4, 0x7f, 0xff, 0xff, 0xff, //
            0, 5, 0, 0, 0x40, 0, //
            0, 6, 0, 0, 0, 8, //
            0, 0x99, 1, 2, 3, 4,
        ],
    );
}

#[test]
fn settings_ack_frame() {
    let f = SettingsFrame::new_ack();
    assert!(f.is_ack());
    both_ways(HttpFrame::Settings(f), &[0, 0, 0, 4, ACK, 0, 0, 0, 0]);
}

#[test]
fn setting_identifiers_and_values() {
    assert_eq!(HttpSetting::from_id(2, 0), Ok(HttpSetting::EnablePush(false)));
    assert_eq!(HttpSetting::EnablePush(true).get_id(), 2);
    assert_eq!(HttpSetting::EnablePush(true).get_val(), 1);
    assert_eq!(HttpSetting::from_id(7, 9), Ok(HttpSetting::Unknown(7, 9)));
    assert_eq!(HttpSetting::Unknown(7, 9).get_id(), 7);
    assert_eq!(HttpSetting::MaxFrameSize(0xff_ffff).get_val(), 0xff_ffff);
    assert_eq!(
        HttpSetting::from_id(2, 2),
        Err(ParseFrameError::IncorrectSettingsPushValue)
    );
    assert_eq!(
        HttpSetting::from_id(4, 0x8000_0000),
        Err(ParseFrameError::IncorrectSettingsWindowSize)
    );
    assert_eq!(
        HttpSetting::from_id(5, 0x3fff),
        Err(ParseFrameError::IncorrectSettingsMaxFrameSize)
    );
    assert_eq!(
        HttpSetting::from_id(5, 0x100_0000),
        Err(ParseFrameError::IncorrectSettingsMaxFrameSize)
    );
}

#[test]
fn push_promise_frame() {
    let mut f = PushPromiseFrame::new(1, 2, Bytes::from(&[0x82u8][..]));
    f.flags = END_HEADERS;
    assert!(f.is_headers_end());
    assert_eq!(f.payload_len(), 5);
    both_ways(
        HttpFrame::PushPromise(f),
        &[0, 0, 5, 5, 4, 0, 0, 0, 1, 0, 0, 0, 2, 0x82],
    );
}

#[test]
fn ping_frame() {
    let f = PingFrame::new_ack(0x0102030405060708);
    assert!(f.is_ack());
    both_ways(HttpFrame::Ping(f), &[0, 0, 8, 6, 1, 0, 0, 0, 0, 1, 2, 3, 4, 5, 6, 7, 8]);
}

#[test]
fn goaway_frame() {
    let mut f = GoawayFrame::new(5, ErrorCode::ProtocolError);
    f.debug_data = Bytes::from(&b"x"[..]);
    assert_eq!(f.error_code(), ErrorCode::ProtocolError);
    both_ways(
        HttpFrame::Goaway(f),
        &[0, 0, 9, 7, 0, 0, 0, 0, 0, 0, 0, 0, 5, 0, 0, 0, 1, b'x'],
    );
}

#[test]
fn window_update_frame() {
    let f = WindowUpdateFrame::new(1, 0x1000);
    both_ways(HttpFrame::WindowUpdate(f), &[0, 0, 4, 8, 0, 0, 0, 0, 1, 0, 0, 0x10, 0]);
    // The reserved bit in front of the increment is dropped.
    let got = WindowUpdateFrame::from_raw(&raw(&[0, 0, 4, 8, 0, 0, 0, 0, 0, 0x80, 0, 0, 1]));
    assert_eq!(got, Ok(WindowUpdateFrame::new(0, 1)));
}

#[test]
fn continuation_frame() {
    let mut f = ContinuationFrame::new(1, Bytes::from(&[0x82u8][..]));
    f.flags = END_HEADERS;
    assert!(f.is_headers_end());
    both_ways(HttpFrame::Continuation(f), &[0, 0, 1, 9, 4, 0, 0, 0, 1, 0x82]);
}

#[test]
fn frame_of_unknown_type_is_kept() {
    let bytes = [0, 0, 2, 0x20, 0x7, 0, 0, 0, 9, 0xde, 0xad];
    let frame = HttpFrame::Unknown(raw(&bytes));
    assert_eq!(frame.frame_type(), 0x20);
    assert_eq!(frame.get_stream_id(), 9);
    both_ways(frame, &bytes);
}

#[test]
fn frame_type_and_stream_id() {
    let ping = HttpFrame::Ping(PingFrame::new(0));
    assert_eq!((ping.frame_type(), ping.get_stream_id()), (6, 0));
    let data = HttpFrame::Data(DataFrame::new(7, Bytes::new()));
    assert_eq!((data.frame_type(), data.get_stream_id()), (0, 7));
    let short = HttpFrame::Unknown(raw(&[1, 2, 3]));
    assert_eq!((short.frame_type(), short.get_stream_id()), (0xff, 0));
}

#[test]
fn raw_frame_header() {
    let r = raw(&[0, 0, 0, 4, 1, 0, 0, 0, 0]);
    assert_eq!(
        r.header(),
        Some(FrameHeader { length: 0, frame_type: 4, flags: 1, stream_id: 0 })
    );
    assert_eq!(r.checked_header(), Ok(r.header().unwrap()));
    assert_eq!(&r.serialize()[..], r.as_slice());
    assert_eq!(raw(&[0, 0, 0]).header(), None);
}

#[test]
fn unknown_error_code_reads_as_internal_error() {
    assert_eq!(ErrorCode::from_u32(0), ErrorCode::NoError);
    assert_eq!(ErrorCode::from_u32(12), ErrorCode::InadequateSecurity);
    assert_eq!(ErrorCode::from_u32(13), ErrorCode::Http11Required);
    assert_eq!(ErrorCode::from_u32(14), ErrorCode::InternalError);
    assert_eq!(ErrorCode::from_u32(2), ErrorCode::InternalError);
    assert_eq!(ErrorCode::FrameSizeError.to_u32(), 6);
    for n in 0..14 {
        assert_eq!(ErrorCode::from_u32(n).to_u32(), n);
    }
    let f = RstStreamFrame::from_raw(&raw(&[0, 0, 4, 3, 0, 0, 0, 0, 1, 0, 0, 1, 0])).unwrap();
    assert_eq!(f.raw_error_code, 0x100);
    assert_eq!(f.error_code(), ErrorCode::InternalError);
}

#[test]
fn too_short_for_a_header() {
    assert_eq!(
        HttpFrame::from_raw(&raw(&[0, 0, 0, 0, 0])),
        Err(ParseFrameError::BufMustBeAtLeast9Bytes)
    );
}

#[test]
fn payload_not_as_long_as_the_header_says() {
    assert_eq!(
        HttpFrame::from_raw(&raw(&[0, 0, 3, 0, 0, 0, 0, 0, 1, 1, 2])),
        Err(ParseFrameError::IncorrectPayloadLen)
    );
}

#[test]
fn decoder_for_another_type() {
    let ping = [0, 0, 8, 6, 0, 0, 0, 0, 0, 1, 2, 3, 4, 5, 6, 7, 8];
    assert_eq!(DataFrame::from_raw(&raw(&ping)), Err(ParseFrameError::UnexpectedFrameType));
    assert_eq!(HeadersFrame::from_raw(&raw(&ping)), Err(ParseFrameError::UnexpectedFrameType));
    assert_eq!(SettingsFrame::from_raw(&raw(&ping)), Err(ParseFrameError::UnexpectedFrameType));
    assert_eq!(PingFrame::from_raw(&raw(&ping)), Ok(PingFrame::new(0x0102030405060708)));
}

#[test]
fn payload_lengths_that_a_type_does_not_admit() {
    let wrong: &[&[u8]] = &[
        &[0, 0, 4, 2, 0, 0, 0, 0, 1, 0, 0, 0, 3],           // PRIORITY, 4 bytes
        &[0, 0, 5, 3, 0, 0, 0, 0, 1, 0, 0, 0, 8, 0],        // RST_STREAM, 5 bytes
        &[0, 0, 5, 4, 0, 0, 0, 0, 0, 0, 1, 0, 0, 0],        // SETTINGS, 5 bytes
        &[0, 0, 6, 4, 1, 0, 0, 0, 0, 0, 1, 0, 0, 0, 0],     // SETTINGS ACK with payload
        &[0, 0, 7, 6, 0, 0, 0, 0, 0, 1, 2, 3, 4, 5, 6, 7],  // PING, 7 bytes
        &[0, 0, 7, 7, 0, 0, 0, 0, 0, 0, 0, 0, 1, 0, 0, 0],  // GOAWAY, 7 bytes
        &[0, 0, 3, 8, 0, 0, 0, 0, 1, 0, 0, 1],              // WINDOW_UPDATE, 3 bytes
        &[0, 0, 4, 1, 0x24, 0, 0, 0, 1, 0, 0, 0, 3],        // HEADERS, short dependency
        &[0, 0, 3, 5, 4, 0, 0, 0, 1, 0, 0, 0],              // PUSH_PROMISE, short stream id
    ];
    for bytes in wrong {
        assert_eq!(
            HttpFrame::from_raw(&raw(bytes)),
            Err(ParseFrameError::IncorrectPayloadLen),
            "{:?}",
            bytes
        );
    }
}

#[test]
fn frames_of_the_connection_on_a_stream() {
    let wrong: &[&[u8]] = &[
        &[0, 0, 0, 4, 0, 0, 0, 0, 1],
        &[0, 0, 8, 6, 0, 0, 0, 0, 1, 1, 2, 3, 4, 5, 6, 7, 8],
        &[0, 0, 8, 7, 0, 0, 0, 0, 1, 0, 0, 0, 0, 0, 0, 0, 0],
    ];
    for bytes in wrong {
        assert_eq!(
            HttpFrame::from_raw(&raw(bytes)),
            Err(ParseFrameError::StreamIdMustBeZero),
            "{:?}",
            bytes
        );
    }
}

#[test]
fn frames_of_a_stream_on_the_connection() {
    let wrong: &[&[u8]] = &[
        &[0, 0, 1, 0, 0, 0, 0, 0, 0, b'x'],
        &[0, 0, 1, 1, 4, 0, 0, 0, 0, 0x82],
        &[0, 0, 5, 2, 0, 0, 0, 0, 0, 0, 0, 0, 3, 7],
        &[0, 0, 4, 3, 0, 0, 0, 0, 0, 0, 0, 0, 8],
        &[0, 0, 5, 5, 4, 0, 0, 0, 0, 0, 0, 0, 2, 0x82],
        &[0, 0, 1, 9, 4, 0, 0, 0, 0, 0x82],
    ];
    for bytes in wrong {
        assert_eq!(
            HttpFrame::from_raw(&raw(bytes)),
            Err(ParseFrameError::StreamIdMustBeNonZero),
            "{:?}",
            bytes
        );
    }
}

#[test]
fn padding_as_long_as_the_payload() {
    let wrong: &[&[u8]] = &[
        &[0, 0, 0, 0, 8, 0, 0, 0, 1],
        &[0, 0, 3, 0, 8, 0, 0, 0, 1, 3, 0, 0],
        &[0, 0, 2, 1, 0xc, 0, 0, 0, 1, 2, 0],
        &[0, 0, 5, 5, 0xc, 0, 0, 0, 1, 9, 0, 0, 0, 2],
    ];
    for bytes in wrong {
        assert_eq!(
            HttpFrame::from_raw(&raw(bytes)),
            Err(ParseFrameError::PaddingTooLong),
            "{:?}",
            bytes
        );
    }
    // Padding that fills all but the byte that counts it leaves no data.
    let all_padding = DataFrame::from_raw(&raw(&[0, 0, 3, 0, 8, 0, 0, 0, 1, 2, 0, 0])).unwrap();
    assert_eq!(all_padding.data.len(), 0);
}

#[test]
fn settings_with_values_out_of_range() {
    assert_eq!(
        HttpFrame::from_raw(&raw(&[0, 0, 6, 4, 0, 0, 0, 0, 0, 0, 2, 0, 0, 0, 2])),
        Err(ParseFrameError::IncorrectSettingsPushValue)
    );
    assert_eq!(
        HttpFrame::from_raw(&raw(&[0, 0, 6, 4, 0, 0, 0, 0, 0, 0, 4, 0x80, 0, 0, 0])),
        Err(ParseFrameError::IncorrectSettingsWindowSize)
    );
    // The first setting that is wrong decides.
    assert_eq!(
        HttpFrame::from_raw(&raw(&[
            0, 0, 12, 4, 0, 0, 0, 0, 0, //
            0, 5, 0, 0, 0, 1, //
            0, 2, 0, 0, 0, 2,
        ])),
        Err(ParseFrameError::IncorrectSettingsMaxFrameSize)
    );
}
