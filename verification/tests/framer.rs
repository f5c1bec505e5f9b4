use bytes::Bytes;
use httpbis::error::{ContinuationError, Error, ErrorCode, InvalidFrame, ParseFrameError};
use httpbis::frame::continuation::ContinuationFrame;
use httpbis::frame::data::DataFrame;
use httpbis::frame::flags::{ACK, END_HEADERS, END_STREAM};
use httpbis::frame::header::{pack_header, unpack_header, FrameHeader, RawFrame};
use httpbis::frame::headers::HeadersFrame;
use httpbis::frame::http_frame::HttpFrame;
use httpbis::frame::ping::PingFrame;
use httpbis::frame::push_promise::PushPromiseFrame;
use httpbis::frame::settings::{HttpSetting, SettingsFrame};
use httpbis::framer::{
    frame_payload_len, recv_http_frame, recv_http_frame_join_cont, recv_raw_frame,
    recv_raw_frame_sync, recv_settings_frame, recv_settings_frame_ack, recv_settings_frame_set,
    send_frame, send_raw_frame,
};
use httpbis::handshake::{check_preface, client_handshake, preface, send_settings, server_handshake};
use httpbis::join::{join_cont_step, ContinuableFrame, JoinStep};
use httpbis::reader::ByteReader;

fn headers(stream_id: u32, flags: u8, fragment: &[u8]) -> HeadersFrame {
    let mut h = HeadersFrame::new(stream_id, Bytes::from(fragment.to_vec()));
    h.flags = flags;
    h
}

fn continuation(stream_id: u32, flags: u8, fragment: &[u8]) -> ContinuationFrame {
    let mut c = ContinuationFrame::new(stream_id, Bytes::from(fragment.to_vec()));
    c.flags = flags;
    c
}

fn wire(frames: &[HttpFrame]) -> Vec<u8> {
    let mut out = Vec::new();
    for f in frames {
        send_frame(&mut out, f);
    }
    out
}

#[test]
fn header_unpack_reads_fields_and_drops_reserved_bit() {
    let h = unpack_header(&[0x01, 0x02, 0x03, 0x09, 0x05, 0x80, 0x00, 0x00, 0x07]);
    assert_eq!(
        h,
        FrameHeader { length: 0x010203, frame_type: 9, flags: 5, stream_id: 7 }
    );
}

#[test]
fn header_pack_writes_big_endian() {
    let h = FrameHeader { length: 0x00abcdef, frame_type: 1, flags: 0x24, stream_id: 0x7fff_fffe };
    assert_eq!(pack_header(&h), [0xab, 0xcd, 0xef, 0x01, 0x24, 0x7f, 0xff, 0xff, 0xfe]);
    assert_eq!(unpack_header(&pack_header(&h)), h);
}

#[test]
fn payload_len_refuses_frames_over_the_limit() {
    let header = [0x00, 0x40, 0x01, 0x00, 0x00, 0x00, 0x00, 0x00, 0x01];
    assert_eq!(
        frame_payload_len(&header, 0x4000),
        Err(Error::CodeError(ErrorCode::FrameSizeError))
    );
    assert_eq!(frame_payload_len(&header, 0x4001), Ok(0x4001));
}

#[test]
fn recv_raw_frame_takes_exactly_one_frame() {
    let mut bytes = wire(&[HttpFrame::Ping(PingFrame::new(0x0102030405060708))]);
    bytes.extend_from_slice(&[0xaa, 0xbb]);
    let mut read = ByteReader::new(bytes);
    let raw = recv_raw_frame(&mut read, 16384).unwrap();
    assert_eq!(
        &raw.raw_content[..],
        &[0, 0, 8, 6, 0, 0, 0, 0, 0, 1, 2, 3, 4, 5, 6, 7, 8][..]
    );
    assert_eq!(read.rest(), &[0xaa, 0xbb][..]);
}

#[test]
fn recv_raw_frame_reports_eof_and_takes_nothing() {
    let bytes = wire(&[HttpFrame::Ping(PingFrame::new(1))]);
    let mut read = ByteReader::new(bytes[..12].to_vec());
    assert_eq!(recv_raw_frame(&mut read, 16384), Err(Error::UnexpectedEof));
    assert_eq!(read.remaining_len(), 12);
    read.feed(&bytes[12..]);
    let raw = recv_raw_frame_sync(&mut read, 16384).unwrap();
    assert_eq!(&raw.raw_content[..], &bytes[..]);
    assert_eq!(read.remaining_len(), 0);
    assert_eq!(recv_raw_frame_sync(&mut read, 16384), Err(Error::UnexpectedEof));
}

#[test]
fn recv_raw_frame_refuses_oversized_frame() {
    let mut read = ByteReader::new(vec![0x00, 0x00, 0x09, 0x00, 0x00, 0x00, 0x00, 0x00, 0x01]);
    assert_eq!(
        recv_raw_frame(&mut read, 8),
        Err(Error::CodeError(ErrorCode::FrameSizeError))
    );
    assert_eq!(read.remaining_len(), 9);
}

#[test]
fn recv_http_frame_decodes_data() {
    let mut d = DataFrame::new(1, Bytes::from(b"xxyy".to_vec()));
    d.flags = END_STREAM;
    let mut read = ByteReader::new(wire(&[HttpFrame::Data(d.clone())]));
    let got = recv_http_frame(&mut read, 16384).unwrap();
    assert_eq!(got, HttpFrame::Data(d));
    assert_eq!(read.remaining_len(), 0);
}

#[test]
fn recv_http_frame_reports_parse_errors() {
    // PING with a payload of seven bytes.
    let mut read = ByteReader::new(vec![0, 0, 7, 6, 0, 0, 0, 0, 0, 1, 2, 3, 4, 5, 6, 7]);
    assert_eq!(
        recv_http_frame(&mut read, 16384),
        Err(Error::ParseFrameError(ParseFrameError::IncorrectPayloadLen))
    );
    assert_eq!(read.remaining_len(), 16);
}

#[test]
fn continuation_joining() {
    let bytes = wire(&[
        HttpFrame::Headers(headers(1, 0, b"fragment_a")),
        HttpFrame::Continuation(continuation(1, END_HEADERS, b"fragment_b")),
        HttpFrame::Ping(PingFrame::new(9)),
    ]);
    let mut read = ByteReader::new(bytes);
    let got = recv_http_frame_join_cont(&mut read, 16384).unwrap();
    assert_eq!(
        got,
        HttpFrame::Headers(headers(1, END_HEADERS, b"fragment_afragment_b"))
    );
    let next = recv_http_frame_join_cont(&mut read, 16384).unwrap();
    assert_eq!(next, HttpFrame::Ping(PingFrame::new(9)));
    assert_eq!(read.remaining_len(), 0);
}

#[test]
fn continuation_joining_over_three_frames_keeps_other_flags() {
    let bytes = wire(&[
        HttpFrame::Headers(headers(3, END_STREAM, b"a")),
        HttpFrame::Continuation(continuation(3, 0, b"b")),
        HttpFrame::Continuation(continuation(3, END_HEADERS, b"c")),
    ]);
    let mut read = ByteReader::new(bytes);
    let got = recv_http_frame_join_cont(&mut read, 16384).unwrap();
    assert_eq!(
        got,
        HttpFrame::Headers(headers(3, END_STREAM | END_HEADERS, b"abc"))
    );
}

#[test]
fn continuation_interrupted_by_other_frame_is_refused() {
    let bytes = wire(&[
        HttpFrame::Headers(headers(1, 0, b"a")),
        HttpFrame::Ping(PingFrame::new(9)),
        HttpFrame::Continuation(continuation(1, END_HEADERS, b"b")),
    ]);
    let len = bytes.len();
    let mut read = ByteReader::new(bytes);
    let got = recv_http_frame_join_cont(&mut read, 16384);
    assert_eq!(got, Err(Error::Other(ContinuationError::GotOther)));
    assert_eq!(got.unwrap_err().error_code(), Some(ErrorCode::ProtocolError));
    assert_eq!(read.remaining_len(), len);
}

#[test]
fn continuation_on_other_stream_is_refused() {
    let bytes = wire(&[
        HttpFrame::Headers(headers(1, 0, b"a")),
        HttpFrame::Continuation(continuation(3, END_HEADERS, b"b")),
    ]);
    let mut read = ByteReader::new(bytes);
    assert_eq!(
        recv_http_frame_join_cont(&mut read, 16384),
        Err(Error::Other(ContinuationError::DifferentStream))
    );
}

#[test]
fn continuation_without_headers_is_refused() {
    let bytes = wire(&[HttpFrame::Continuation(continuation(1, END_HEADERS, b"b"))]);
    let mut read = ByteReader::new(bytes);
    assert_eq!(
        recv_http_frame_join_cont(&mut read, 16384),
        Err(Error::Other(ContinuationError::WithoutHeaders))
    );
}

#[test]
fn headers_inside_header_block_are_refused() {
    let bytes = wire(&[
        HttpFrame::Headers(headers(1, 0, b"a")),
        HttpFrame::Headers(headers(3, END_HEADERS, b"b")),
    ]);
    let mut read = ByteReader::new(bytes);
    assert_eq!(
        recv_http_frame_join_cont(&mut read, 16384),
        Err(Error::Other(ContinuationError::GotHeaders))
    );
}

#[test]
fn unfinished_header_block_waits_for_more_bytes() {
    let bytes = wire(&[
        HttpFrame::Headers(headers(1, 0, b"a")),
        HttpFrame::Continuation(continuation(1, END_HEADERS, b"b")),
    ]);
    let mut read = ByteReader::new(bytes[..10].to_vec());
    assert_eq!(recv_http_frame_join_cont(&mut read, 16384), Err(Error::UnexpectedEof));
    assert_eq!(read.remaining_len(), 10);
    read.feed(&bytes[10..]);
    let got = recv_http_frame_join_cont(&mut read, 16384).unwrap();
    assert_eq!(got, HttpFrame::Headers(headers(1, END_HEADERS, b"ab")));
}

#[test]
fn join_step_extends_and_marks_the_pending_frame() {
    let pending = ContinuableFrame::Headers(headers(5, 0, b"xy"));
    let frame = HttpFrame::Continuation(continuation(5, 0, b"z"));
    let step = join_cont_step(Some(pending), frame).unwrap();
    assert_eq!(step, JoinStep::Continue(ContinuableFrame::Headers(headers(5, 0, b"xyz"))));
}

#[test]
fn recv_settings_frame_accepts_settings_only() {
    let mut s = SettingsFrame::new();
    s.add_setting(HttpSetting::MaxFrameSize(20000));
    let mut read = ByteReader::new(wire(&[HttpFrame::Settings(s.clone())]));
    assert_eq!(recv_settings_frame(&mut read, 16384), Ok(s));

    let mut read = ByteReader::new(wire(&[HttpFrame::Ping(PingFrame::new(1))]));
    assert_eq!(
        recv_settings_frame(&mut read, 16384),
        Err(Error::InvalidFrame(InvalidFrame::ExpectedSettings(6)))
    );
    assert_eq!(read.remaining_len(), 17);
}

#[test]
fn recv_settings_frame_ack_and_set_tell_the_two_apart() {
    let ack = wire(&[HttpFrame::Settings(SettingsFrame::new_ack())]);
    let set = wire(&[HttpFrame::Settings(SettingsFrame::new())]);

    let mut read = ByteReader::new(ack.clone());
    assert_eq!(recv_settings_frame_ack(&mut read, 16384), Ok(SettingsFrame::new_ack()));
    let mut read = ByteReader::new(set.clone());
    assert_eq!(
        recv_settings_frame_ack(&mut read, 16384),
        Err(Error::InvalidFrame(InvalidFrame::ExpectedSettingsAck))
    );
    let mut read = ByteReader::new(set);
    assert_eq!(recv_settings_frame_set(&mut read, 16384), Ok(SettingsFrame::new()));
    let mut read = ByteReader::new(ack);
    assert_eq!(
        recv_settings_frame_set(&mut read, 16384),
        Err(Error::InvalidFrame(InvalidFrame::ExpectedSettingsWithoutAck))
    );
}

#[test]
fn send_raw_frame_appends_the_bytes() {
    let mut out = vec![1u8];
    send_raw_frame(&mut out, &RawFrame::from_vec(vec![0, 0, 0, 4, ACK, 0, 0, 0, 0]));
    assert_eq!(out, vec![1, 0, 0, 0, 4, 1, 0, 0, 0, 0]);
}

#[test]
fn send_settings_writes_enable_push_off() {
    let mut out = Vec::new();
    send_settings(&mut out);
    assert_eq!(out, vec![0, 0, 6, 4, 0, 0, 0, 0, 0, 0, 2, 0, 0, 0, 0]);
}

#[test]
fn client_handshake_writes_preface_then_settings() {
    let mut out = Vec::new();
    client_handshake(&mut out);
    let mut expected = b"PRI * HTTP/2.0\r\n\r\nSM\r\n\r\n".to_vec();
    expected.extend_from_slice(&[0, 0, 6, 4, 0, 0, 0, 0, 0, 0, 2, 0, 0, 0, 0]);
    assert_eq!(out, expected);
    assert_eq!(&preface()[..], &b"PRI * HTTP/2.0\r\n\r\nSM\r\n\r\n"[..]);
}

#[test]
fn server_handshake_accepts_the_client_handshake() {
    let mut sent = Vec::new();
    client_handshake(&mut sent);
    let mut read = ByteReader::new(sent);
    let mut out = Vec::new();
    assert_eq!(server_handshake(&mut read, &mut out), Ok(()));
    assert_eq!(out, vec![0, 0, 6, 4, 0, 0, 0, 0, 0, 0, 2, 0, 0, 0, 0]);
    let mut expected = SettingsFrame::new();
    expected.add_setting(HttpSetting::EnablePush(false));
    assert_eq!(recv_settings_frame_set(&mut read, 16384), Ok(expected));
    assert_eq!(read.remaining_len(), 0);
}

#[test]
fn server_handshake_hints_at_tls() {
    let mut hello = vec![0x16, 0x03, 0x01];
    hello.resize(24, 0);
    let mut read = ByteReader::new(hello);
    let mut out = Vec::new();
    assert_eq!(
        server_handshake(&mut read, &mut out),
        Err(Error::InvalidFrame(InvalidFrame::WrongPrefaceLikelyTls))
    );
    assert!(out.is_empty());
    assert_eq!(read.remaining_len(), 24);
}

#[test]
fn server_handshake_refuses_other_bytes_and_short_input() {
    let mut read = ByteReader::new(b"GET / HTTP/1.1\r\nHost: a\r\n\r\n".to_vec());
    let mut out = Vec::new();
    assert_eq!(
        server_handshake(&mut read, &mut out),
        Err(Error::InvalidFrame(InvalidFrame::WrongPreface))
    );
    let mut read = ByteReader::new(b"PRI * HTTP/2.0".to_vec());
    assert_eq!(server_handshake(&mut read, &mut out), Err(Error::UnexpectedEof));
    assert_eq!(check_preface(b"PRI * HTTP/2.0\r\n\r\nSM\r\n\r\n"), Ok(()));
    assert_eq!(
        check_preface(b"PRI * HTTP/2.0\r\n\r\nSM\r\n\r\n!"),
        Err(Error::InvalidFrame(InvalidFrame::WrongPreface))
    );
}

#[test]
fn push_promise_inside_header_block_is_refused() {
    let mut p = PushPromiseFrame::new(1, 2, Bytes::from(&b"b"[..]));
    p.flags = END_HEADERS;
    let bytes = wire(&[
        HttpFrame::Headers(headers(1, 0, b"a")),
        HttpFrame::PushPromise(p),
    ]);
    let mut read = ByteReader::new(bytes);
    assert_eq!(
        recv_http_frame_join_cont(&mut read, 16384),
        Err(Error::Other(ContinuationError::GotPushPromise))
    );
}

#[test]
fn push_promise_is_continued_too() {
    let p = PushPromiseFrame::new(1, 2, Bytes::from(&b"ab"[..]));
    let bytes = wire(&[
        HttpFrame::PushPromise(p),
        HttpFrame::Continuation(continuation(1, END_HEADERS, b"cd")),
    ]);
    let mut read = ByteReader::new(bytes);
    let mut joined = PushPromiseFrame::new(1, 2, Bytes::from(&b"abcd"[..]));
    joined.flags = END_HEADERS;
    assert_eq!(
        recv_http_frame_join_cont(&mut read, 16384),
        Ok(HttpFrame::PushPromise(joined))
    );
}

#[test]
fn frame_size_limit_holds_inside_a_header_block() {
    let bytes = wire(&[
        HttpFrame::Headers(headers(1, 0, b"a")),
        HttpFrame::Continuation(continuation(1, END_HEADERS, &[0u8; 20])),
    ]);
    let mut read = ByteReader::new(bytes);
    assert_eq!(
        recv_http_frame_join_cont(&mut read, 16),
        Err(Error::CodeError(ErrorCode::FrameSizeError))
    );
}

#[test]
fn errors_in_words_and_codes() {
    assert_eq!(InvalidFrame::WrongPrefaceLikelyTls.message(), "wrong preface, likely TLS");
    assert!(InvalidFrame::WrongPrefaceLikelyTls.message().contains("likely TLS"));
    assert_eq!(InvalidFrame::WrongPreface.message(), "wrong preface");
    assert_eq!(
        InvalidFrame::ExpectedSettings(6).message(),
        "unexpected frame, expected SETTINGS"
    );
    assert_eq!(
        InvalidFrame::ExpectedSettingsAck.message(),
        "expecting SETTINGS with ack, got without ack"
    );
    assert_eq!(
        InvalidFrame::ExpectedSettingsWithoutAck.message(),
        "expecting SETTINGS without ack, got with ack"
    );
    assert_eq!(
        ContinuationError::GotHeaders.message(),
        "expecting CONTINUATION frame, got HEADERS"
    );
    assert_eq!(
        ContinuationError::GotPushPromise.message(),
        "expecting CONTINUATION frame, got PUSH_PROMISE"
    );
    assert_eq!(ContinuationError::GotOther.message(), "expecting CONTINUATION frame");
    assert_eq!(
        ContinuationError::DifferentStream.message(),
        "CONTINUATION frame with different stream id"
    );
    assert_eq!(
        ContinuationError::WithoutHeaders.message(),
        "CONTINUATION frame without headers"
    );

    assert_eq!(Error::UnexpectedEof.error_code(), None);
    assert_eq!(
        Error::CodeError(ErrorCode::FrameSizeError).error_code(),
        Some(ErrorCode::FrameSizeError)
    );
    assert_eq!(
        Error::InvalidFrame(InvalidFrame::WrongPreface).error_code(),
        Some(ErrorCode::ProtocolError)
    );
    assert_eq!(
        Error::Other(ContinuationError::DifferentStream).error_code(),
        Some(ErrorCode::ProtocolError)
    );
    let codes = [
        (ParseFrameError::BufMustBeAtLeast9Bytes, ErrorCode::FrameSizeError),
        (ParseFrameError::UnexpectedFrameType, ErrorCode::InternalError),
        (ParseFrameError::IncorrectPayloadLen, ErrorCode::FrameSizeError),
        (ParseFrameError::StreamIdMustBeZero, ErrorCode::ProtocolError),
        (ParseFrameError::StreamIdMustBeNonZero, ErrorCode::ProtocolError),
        (ParseFrameError::PaddingTooLong, ErrorCode::ProtocolError),
        (ParseFrameError::IncorrectSettingsPushValue, ErrorCode::ProtocolError),
        (ParseFrameError::IncorrectSettingsWindowSize, ErrorCode::FlowControlError),
        (ParseFrameError::IncorrectSettingsMaxFrameSize, ErrorCode::ProtocolError),
    ];
    for (e, code) in codes {
        assert_eq!(Error::ParseFrameError(e).error_code(), Some(code), "{:?}", e);
    }
}

#[test]
fn frames_that_do_not_fit_a_header() {
    let big = HttpFrame::Continuation(continuation(1, 0, &vec![0u8; 0x100_0000]));
    assert!(!big.fits());
    let most = HttpFrame::Continuation(continuation(1, 0, &vec![0u8; 0xff_ffff]));
    assert!(most.fits());
    let mut padded = DataFrame::new(1, Bytes::from(vec![0u8; 0xff_ffff - 3]));
    padded.flags = httpbis::frame::flags::PADDED;
    padded.padding_len = 2;
    assert!(HttpFrame::Data(padded.clone()).fits());
    padded.padding_len = 3;
    assert!(!HttpFrame::Data(padded).fits());
    assert!(HttpFrame::Ping(PingFrame::new(0)).fits());
}
