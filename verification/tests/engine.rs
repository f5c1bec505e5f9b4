//! The engine of one connection, frame by frame.

use bytes::Bytes;
use httpbis::engine::connection::{Connection, Event};
use httpbis::engine::model::{Failure, Role};
use httpbis::engine::outbound::LocalError;
use httpbis::error::ErrorCode;
use httpbis::frame::continuation::ContinuationFrame;
use httpbis::frame::data::DataFrame;
use httpbis::frame::flags::{END_HEADERS, END_STREAM, PADDED};
use httpbis::frame::goaway::GoawayFrame;
use httpbis::frame::headers::HeadersFrame;
use httpbis::frame::http_frame::HttpFrame;
use httpbis::frame::ping::PingFrame;
use httpbis::frame::priority::{PriorityFrame, StreamDependency};
use httpbis::frame::push_promise::PushPromiseFrame;
use httpbis::frame::rst_stream::RstStreamFrame;
use httpbis::frame::settings::{HttpSetting, SettingsFrame};
use httpbis::frame::window_update::WindowUpdateFrame;
use httpbis::framer::{recv_http_frame_join_cont, send_frame};
use httpbis::reader::ByteReader;
use httpbis::stream_state::StreamState;

fn settings(list: &[HttpSetting]) -> HttpFrame {
    let mut f = SettingsFrame::new();
    for s in list {
        f.add_setting(*s);
    }
    HttpFrame::Settings(f)
}

fn headers(stream_id: u32, flags: u8) -> HttpFrame {
    let mut f = HeadersFrame::new(stream_id, Bytes::from(&[0x82u8][..]));
    f.flags = flags;
    HttpFrame::Headers(f)
}

fn data(stream_id: u32, flags: u8, len: usize) -> HttpFrame {
    let mut f = DataFrame::new(stream_id, Bytes::from(vec![7u8; len]));
    f.flags = flags;
    HttpFrame::Data(f)
}

fn rst(stream_id: u32, code: ErrorCode) -> HttpFrame {
    HttpFrame::RstStream(RstStreamFrame::new(stream_id, code))
}

fn goaway(last: u32, code: ErrorCode) -> HttpFrame {
    HttpFrame::Goaway(GoawayFrame::new(last, code))
}

fn window_update(stream_id: u32, increment: u32) -> HttpFrame {
    HttpFrame::WindowUpdate(WindowUpdateFrame::new(stream_id, increment))
}

fn written(conn: &mut Connection) -> Vec<HttpFrame> {
    let mut frames = Vec::new();
    while let Some(f) = conn.poll_frame() {
        frames.push(f);
    }
    frames
}

/// A connection that has received the first SETTINGS of its peer and has
/// written the acknowledgement.
fn started(role: Role, peer: &[HttpSetting]) -> Connection {
    let mut conn = Connection::new(role);
    assert_eq!(None, conn.recv_frame(settings(peer)));
    assert_eq!(vec![HttpFrame::Settings(SettingsFrame::new_ack())], written(&mut conn));
    conn
}

fn states(conn: &Connection) -> Vec<(u32, StreamState)> {
    conn.dump_state().streams.iter().map(|s| (s.id, s.state)).collect()
}

fn assert_failed(conn: &mut Connection, last: u32, code: ErrorCode) {
    assert_eq!(Some(Failure::Code(code)), conn.failure());
    assert_eq!(vec![goaway(last, code)], written(conn));
    assert!(conn.dump_state().streams.is_empty());
    assert_eq!(None, conn.poll_frame());
    // A connection that has ended takes no frame.
    assert_eq!(None, conn.recv_frame(HttpFrame::Ping(PingFrame::new(1))));
    assert_eq!(None, conn.poll_frame());
}

#[test]
fn first_frame_has_to_be_settings() {
    let mut conn = Connection::new(Role::Server);
    assert_eq!(
        Some(Event::ConnectionError(ErrorCode::ProtocolError)),
        conn.recv_frame(HttpFrame::Ping(PingFrame::new(1)))
    );
    assert_failed(&mut conn, 0, ErrorCode::ProtocolError);

    let mut conn = Connection::new(Role::Client);
    assert_eq!(
        Some(Event::ConnectionError(ErrorCode::ProtocolError)),
        conn.recv_frame(HttpFrame::Settings(SettingsFrame::new_ack()))
    );
    assert_failed(&mut conn, 0, ErrorCode::ProtocolError);
}

#[test]
fn settings_are_taken_over_and_acknowledged() {
    let conn = started(
        Role::Client,
        &[
            HttpSetting::MaxFrameSize(20_000),
            HttpSetting::Unknown(0x77, 1),
            HttpSetting::InitialWindowSize(1000),
        ],
    );
    let state = conn.dump_state();
    assert_eq!(20_000, state.peer_settings.max_frame_size);
    assert_eq!(1000, state.peer_settings.initial_window_size);
    assert!(state.peer_settings.enable_push);
    assert_eq!(65_535, state.send_window);
    // A setting without a meaning is kept as it came.
    assert_eq!(vec![HttpSetting::Unknown(0x77, 1)], state.peer_unknown_settings);
}

#[test]
fn settings_that_are_not_acknowledged_in_time() {
    let mut conn = started(Role::Client, &[]);
    conn.recv_frame(HttpFrame::Settings(SettingsFrame::new_ack()));
    conn.settings_deadline();
    assert_eq!(None, conn.failure());

    let mut conn = started(Role::Client, &[]);
    conn.settings_deadline();
    assert_failed(&mut conn, 0, ErrorCode::SettingsTimeout);
}

#[test]
fn settings_ack_without_settings_is_an_error() {
    let mut conn = started(Role::Client, &[]);
    let ack = HttpFrame::Settings(SettingsFrame::new_ack());
    assert_eq!(Some(Event::SettingsAcked), conn.recv_frame(ack.clone()));
    assert_eq!(
        Some(Event::ConnectionError(ErrorCode::ProtocolError)),
        conn.recv_frame(ack)
    );
    assert_failed(&mut conn, 0, ErrorCode::ProtocolError);
}

#[test]
fn settings_with_a_value_out_of_range_are_an_error() {
    let mut conn = started(Role::Client, &[]);
    assert_eq!(
        Some(Event::ConnectionError(ErrorCode::ProtocolError)),
        conn.recv_frame(settings(&[HttpSetting::MaxFrameSize(1)]))
    );
}

#[test]
fn initial_window_change_moves_every_stream() {
    let mut conn = started(Role::Client, &[]);
    let a = conn.start_request(Bytes::new(), false).unwrap();
    let b = conn.start_request(Bytes::new(), false).unwrap();
    conn.send_data(a, &[1u8; 100], false).unwrap();
    let frames = written(&mut conn);
    assert_eq!(3, frames.len());
    assert_eq!(65_435, conn.dump_state().streams[0].send_window);

    assert_eq!(None, conn.recv_frame(settings(&[HttpSetting::InitialWindowSize(50)])));
    let state = conn.dump_state();
    assert_eq!(-50, state.streams[0].send_window);
    assert_eq!(50, state.streams[1].send_window);
    assert_eq!(65_435, state.send_window);

    // Nothing leaves on a stream whose window is below zero.
    conn.send_data(a, &[2u8; 10], false).unwrap();
    conn.send_data(b, &[3u8; 60], true).unwrap();
    let frames = written(&mut conn);
    assert_eq!(2, frames.len());
    assert_eq!(HttpFrame::Settings(SettingsFrame::new_ack()), frames[0]);
    match &frames[1] {
        HttpFrame::Data(d) => {
            assert_eq!((b, 50, 0), (d.stream_id, d.data.len(), d.flags));
        }
        f => panic!("{:?}", f),
    }

    // Credit brings the window back above zero.
    assert_eq!(None, conn.recv_frame(window_update(a, 55)));
    assert_eq!(5, conn.dump_state().streams[0].send_window);
    let frames = written(&mut conn);
    assert_eq!(vec![data(a, 0, 5)].len(), frames.len());
    match &frames[0] {
        HttpFrame::Data(d) => assert_eq!((a, &[2u8; 5][..]), (d.stream_id, &d.data[..])),
        f => panic!("{:?}", f),
    }

}

#[test]
fn initial_window_change_that_overflows_is_an_error() {
    let mut conn = started(Role::Client, &[]);
    let a = conn.start_request(Bytes::new(), false).unwrap();
    written(&mut conn);
    assert_eq!(None, conn.recv_frame(window_update(a, 0x7fff_0000)));
    assert_eq!(
        Some(Event::ConnectionError(ErrorCode::FlowControlError)),
        conn.recv_frame(settings(&[HttpSetting::InitialWindowSize(0x2_0000)]))
    );
    assert_failed(&mut conn, 0, ErrorCode::FlowControlError);
}

#[test]
fn ping_is_answered_with_the_same_bytes() {
    let mut conn = started(Role::Server, &[]);
    assert_eq!(None, conn.recv_frame(HttpFrame::Ping(PingFrame::new(0xdead_beef))));
    assert_eq!(vec![HttpFrame::Ping(PingFrame::new_ack(0xdead_beef))], written(&mut conn));
    // An answer that matches no PING of this side is passed over.
    assert_eq!(None, conn.recv_frame(HttpFrame::Ping(PingFrame::new_ack(5))));
    assert!(written(&mut conn).is_empty());
}

#[test]
fn keepalive_ping_and_timeout() {
    let mut conn = started(Role::Client, &[]);
    assert_eq!(Ok(()), conn.tick());
    assert_eq!(vec![HttpFrame::Ping(PingFrame::new(0))], written(&mut conn));
    assert_eq!(None, conn.recv_frame(HttpFrame::Ping(PingFrame::new_ack(1))));
    assert_eq!(Some(Event::PingAcked), conn.recv_frame(HttpFrame::Ping(PingFrame::new_ack(0))));
    assert_eq!(Ok(()), conn.tick());
    assert_eq!(vec![HttpFrame::Ping(PingFrame::new(1))], written(&mut conn));

    conn.start_request(Bytes::new(), false).unwrap();
    assert_eq!(Err(LocalError::PingTimeout), conn.tick());
    assert_eq!(Some(Failure::PingTimeout), conn.failure());
    assert!(written(&mut conn).is_empty());
    assert!(conn.dump_state().streams.is_empty());
    assert_eq!(Err(LocalError::ConnectionClosed), conn.tick());
    assert_eq!(Err(LocalError::ConnectionClosed), conn.start_request(Bytes::new(), true));
}

#[test]
fn window_update_credits_the_connection() {
    let mut conn = started(Role::Client, &[]);
    assert_eq!(None, conn.recv_frame(window_update(0, 1000)));
    assert_eq!(66_535, conn.dump_state().send_window);
    assert_eq!(
        Some(Event::ConnectionError(ErrorCode::FlowControlError)),
        conn.recv_frame(window_update(0, 0x7fff_ffff))
    );
    assert_failed(&mut conn, 0, ErrorCode::FlowControlError);
}

#[test]
fn window_update_of_zero_is_a_protocol_error() {
    let mut conn = started(Role::Client, &[]);
    let id = conn.start_request(Bytes::new(), false).unwrap();
    written(&mut conn);
    assert_eq!(
        Some(Event::StreamReset { stream_id: id, code: ErrorCode::ProtocolError }),
        conn.recv_frame(window_update(id, 0))
    );
    assert_eq!(vec![rst(id, ErrorCode::ProtocolError)], written(&mut conn));
    assert!(conn.dump_state().streams.is_empty());
    assert_eq!(
        Some(Event::ConnectionError(ErrorCode::ProtocolError)),
        conn.recv_frame(window_update(0, 0))
    );
}

#[test]
fn window_update_that_overflows_a_stream_resets_it() {
    let mut conn = started(Role::Client, &[]);
    let a = conn.start_request(Bytes::new(), false).unwrap();
    let b = conn.start_request(Bytes::new(), false).unwrap();
    written(&mut conn);
    assert_eq!(
        Some(Event::StreamReset { stream_id: a, code: ErrorCode::FlowControlError }),
        conn.recv_frame(window_update(a, 0x7fff_ffff))
    );
    assert_eq!(vec![rst(a, ErrorCode::FlowControlError)], written(&mut conn));
    assert_eq!(vec![(b, StreamState::Open)], states(&conn));
    assert_eq!(None, conn.failure());
    // For a closed stream it is passed over, for an idle one it is an error.
    assert_eq!(None, conn.recv_frame(window_update(a, 1)));
    assert_eq!(
        Some(Event::ConnectionError(ErrorCode::ProtocolError)),
        conn.recv_frame(window_update(7, 1))
    );
}

#[test]
fn server_opens_streams_of_the_client() {
    let mut conn = started(Role::Server, &[]);
    assert_eq!(
        Some(Event::Headers {
            stream_id: 1,
            block: Bytes::from(&[0x82u8][..]),
            end_stream: false
        }),
        conn.recv_frame(headers(1, END_HEADERS))
    );
    assert!(conn.recv_frame(headers(5, END_HEADERS | END_STREAM)).is_some());
    assert_eq!(
        vec![(1, StreamState::Open), (5, StreamState::HalfClosedRemote)],
        states(&conn)
    );
    assert_eq!(5, conn.dump_state().last_peer_stream_id);
}

#[test]
fn peer_stream_ids_have_to_increase() {
    let mut conn = started(Role::Server, &[]);
    assert!(conn.recv_frame(headers(5, END_HEADERS | END_STREAM)).is_some());
    assert_eq!(
        Some(Event::ConnectionError(ErrorCode::ProtocolError)),
        conn.recv_frame(headers(3, END_HEADERS))
    );
    assert_failed(&mut conn, 5, ErrorCode::ProtocolError);
}

#[test]
fn peer_may_not_open_streams_of_this_side() {
    let mut conn = started(Role::Server, &[]);
    assert_eq!(
        Some(Event::ConnectionError(ErrorCode::ProtocolError)),
        conn.recv_frame(headers(2, END_HEADERS))
    );
    let mut conn = started(Role::Client, &[]);
    assert_eq!(
        Some(Event::ConnectionError(ErrorCode::ProtocolError)),
        conn.recv_frame(headers(2, END_HEADERS))
    );
}

#[test]
fn header_block_that_is_not_whole_is_an_error() {
    let mut conn = started(Role::Server, &[]);
    assert_eq!(
        Some(Event::ConnectionError(ErrorCode::ProtocolError)),
        conn.recv_frame(headers(1, 0))
    );
    let mut conn = started(Role::Server, &[]);
    let c = ContinuationFrame::new(1, Bytes::new());
    assert_eq!(
        Some(Event::ConnectionError(ErrorCode::ProtocolError)),
        conn.recv_frame(HttpFrame::Continuation(c))
    );
}

#[test]
fn stream_id_above_31_bits_is_an_error() {
    let mut conn = started(Role::Server, &[]);
    assert_eq!(
        Some(Event::ConnectionError(ErrorCode::ProtocolError)),
        conn.recv_frame(headers(0x8000_0001, END_HEADERS))
    );
}

#[test]
fn data_is_delivered_and_closes_the_stream() {
    let mut conn = started(Role::Server, &[]);
    conn.recv_frame(headers(1, END_HEADERS));
    assert_eq!(
        Some(Event::Data { stream_id: 1, data: Bytes::from(vec![7u8; 10]), end_stream: false }),
        conn.recv_frame(data(1, 0, 10))
    );
    let state = conn.dump_state();
    assert_eq!(65_525, state.recv_window);
    assert_eq!(65_525, state.streams[0].recv_window);
    assert!(conn.recv_frame(data(1, END_STREAM, 0)).is_some());
    assert_eq!(vec![(1, StreamState::HalfClosedRemote)], states(&conn));
    assert_eq!(Ok(()), conn.send_headers(1, Bytes::new(), true));
    assert!(states(&conn).is_empty());
}

#[test]
fn data_on_a_closed_stream_resets_it() {
    let mut conn = started(Role::Server, &[]);
    conn.recv_frame(headers(1, END_HEADERS | END_STREAM));
    conn.send_headers(1, Bytes::new(), true).unwrap();
    written(&mut conn);
    assert_eq!(None, conn.recv_frame(data(1, 0, 3)));
    assert_eq!(vec![rst(1, ErrorCode::StreamClosed)], written(&mut conn));
    assert_eq!(None, conn.failure());
    assert_eq!(65_532, conn.dump_state().recv_window);
}

#[test]
fn data_on_an_idle_or_half_closed_stream_is_an_error() {
    let mut conn = started(Role::Server, &[]);
    assert_eq!(
        Some(Event::ConnectionError(ErrorCode::ProtocolError)),
        conn.recv_frame(data(1, 0, 3))
    );
    let mut conn = started(Role::Server, &[]);
    conn.recv_frame(headers(1, END_HEADERS | END_STREAM));
    assert_eq!(
        Some(Event::ConnectionError(ErrorCode::ProtocolError)),
        conn.recv_frame(data(1, 0, 3))
    );
    assert_failed(&mut conn, 1, ErrorCode::ProtocolError);
}

#[test]
fn receive_windows_are_filled_up_below_half() {
    let mut conn = started(Role::Server, &[]);
    conn.recv_frame(headers(1, END_HEADERS));
    conn.recv_frame(data(1, 0, 16_384));
    conn.recv_frame(data(1, 0, 16_384));
    assert!(written(&mut conn).is_empty());
    assert_eq!(32_767, conn.dump_state().recv_window);
    conn.recv_frame(data(1, 0, 16_384));
    assert_eq!(
        vec![window_update(0, 49_152), window_update(1, 49_152)],
        written(&mut conn)
    );
    let state = conn.dump_state();
    assert_eq!(65_535, state.recv_window);
    assert_eq!(65_535, state.streams[0].recv_window);
}

#[test]
fn padding_counts_against_the_windows() {
    let mut conn = started(Role::Server, &[]);
    conn.recv_frame(headers(1, END_HEADERS));
    let mut f = DataFrame::new(1, Bytes::from(&b"ab"[..]));
    f.flags = PADDED;
    f.padding_len = 7;
    assert_eq!(
        Some(Event::Data { stream_id: 1, data: Bytes::from(&b"ab"[..]), end_stream: false }),
        conn.recv_frame(HttpFrame::Data(f))
    );
    assert_eq!(65_525, conn.dump_state().recv_window);
}

#[test]
fn more_data_than_the_connection_admits() {
    let mut conn = started(Role::Server, &[]);
    conn.recv_frame(headers(1, END_HEADERS));
    conn.recv_frame(headers(3, END_HEADERS));
    assert!(conn.recv_frame(data(1, 0, 65_535)).is_some());
    assert!(conn.recv_frame(data(3, 0, 65_535)).is_some());
    let e = conn.recv_frame(data(3, 0, 65_536));
    assert_eq!(Some(Event::ConnectionError(ErrorCode::FlowControlError)), e);
    assert_failed(&mut conn, 3, ErrorCode::FlowControlError);
}

#[test]
fn more_data_than_the_stream_admits() {
    let mut conn = started(Role::Server, &[]);
    conn.recv_frame(headers(1, END_HEADERS));
    conn.recv_frame(headers(3, END_HEADERS));
    conn.recv_frame(data(1, 0, 30_000));
    conn.recv_frame(data(3, 0, 30_000));
    // The connection has been filled up again, the streams have not.
    assert_eq!(vec![window_update(0, 60_000)], written(&mut conn));
    let e = conn.recv_frame(data(1, 0, 40_000));
    assert_eq!(
        Some(Event::StreamReset { stream_id: 1, code: ErrorCode::FlowControlError }),
        e
    );
    assert_eq!(
        vec![window_update(0, 40_000), rst(1, ErrorCode::FlowControlError)],
        written(&mut conn)
    );
    assert_eq!(vec![(3, StreamState::Open)], states(&conn));
    assert_eq!(None, conn.failure());
}

#[test]
fn rst_stream_from_the_peer() {
    let mut conn = started(Role::Client, &[]);
    let id = conn.start_request(Bytes::new(), false).unwrap();
    conn.send_data(id, b"never sent", true).unwrap();
    assert_eq!(
        Some(Event::StreamReset { stream_id: id, code: ErrorCode::RefusedStream }),
        conn.recv_frame(rst(id, ErrorCode::RefusedStream))
    );
    // What waited on the stream is dropped; the header block still leaves.
    let frames = written(&mut conn);
    assert_eq!(1, frames.len());
    assert_eq!(1, frames[0].frame_type());
    assert_eq!(None, conn.recv_frame(rst(id, ErrorCode::Cancel)));
    assert_eq!(
        Some(Event::ConnectionError(ErrorCode::ProtocolError)),
        conn.recv_frame(rst(9, ErrorCode::Cancel))
    );
}

#[test]
fn second_goaway_may_not_name_a_higher_stream() {
    let mut conn = started(Role::Client, &[]);
    assert_eq!(
        Some(Event::Goaway { last_stream_id: 5, code: ErrorCode::NoError }),
        conn.recv_frame(goaway(5, ErrorCode::NoError))
    );
    assert_eq!(
        Some(Event::Goaway { last_stream_id: 3, code: ErrorCode::EnhanceYourCalm }),
        conn.recv_frame(goaway(3, ErrorCode::EnhanceYourCalm))
    );
    assert_eq!(
        Some(Event::ConnectionError(ErrorCode::ProtocolError)),
        conn.recv_frame(goaway(5, ErrorCode::NoError))
    );
}

#[test]
fn push_promise_needs_push_switched_on() {
    // A connection switches push off in its first SETTINGS.
    let mut conn = started(Role::Client, &[]);
    let id = conn.start_request(Bytes::new(), true).unwrap();
    let mut p = PushPromiseFrame::new(id, 2, Bytes::new());
    p.flags = END_HEADERS;
    assert_eq!(
        Some(Event::ConnectionError(ErrorCode::ProtocolError)),
        conn.recv_frame(HttpFrame::PushPromise(p))
    );
}

#[test]
fn server_promises_only_where_the_client_admits_it() {
    let mut conn = started(Role::Server, &[HttpSetting::EnablePush(false)]);
    conn.recv_frame(headers(1, END_HEADERS | END_STREAM));
    assert_eq!(Err(LocalError::PushDisabled), conn.push_promise(1, Bytes::new()));

    let mut conn = started(Role::Server, &[]);
    conn.recv_frame(headers(1, END_HEADERS | END_STREAM));
    assert_eq!(Err(LocalError::UnknownStream), conn.push_promise(3, Bytes::new()));
    assert_eq!(Ok(2), conn.push_promise(1, Bytes::from(&[0x82u8][..])));
    assert_eq!(Ok(4), conn.push_promise(1, Bytes::new()));
    assert_eq!(
        vec![
            (1, StreamState::HalfClosedRemote),
            (2, StreamState::ReservedLocal),
            (4, StreamState::ReservedLocal)
        ],
        states(&conn)
    );
    let mut expected = PushPromiseFrame::new(1, 2, Bytes::from(&[0x82u8][..]));
    expected.flags = END_HEADERS;
    assert_eq!(Some(HttpFrame::PushPromise(expected)), conn.poll_frame());
    assert_eq!(Ok(()), conn.send_headers(2, Bytes::new(), false));
    assert_eq!(Ok(()), conn.send_data(2, b"pushed", true));
    assert_eq!(3, written(&mut conn).len());
    assert_eq!(
        vec![(1, StreamState::HalfClosedRemote), (4, StreamState::ReservedLocal)],
        states(&conn)
    );

    let mut client = started(Role::Client, &[]);
    assert_eq!(Err(LocalError::WrongRole), client.push_promise(1, Bytes::new()));
    assert_eq!(Err(LocalError::WrongRole), conn.start_request(Bytes::new(), true));
}

#[test]
fn priority_is_kept_and_changes_nothing_else() {
    let mut conn = started(Role::Server, &[]);
    conn.recv_frame(headers(1, END_HEADERS));
    let before = conn.dump_state();
    let p = PriorityFrame {
        stream_id: 1,
        flags: 0,
        stream_dep: StreamDependency { stream_id: 0, weight: 200, is_exclusive: false },
    };
    assert_eq!(None, conn.recv_frame(HttpFrame::Priority(p)));
    let idle = PriorityFrame { stream_id: 9, ..p };
    assert_eq!(None, conn.recv_frame(HttpFrame::Priority(idle)));
    assert_eq!(before, conn.dump_state());
    assert!(written(&mut conn).is_empty());
}

#[test]
fn frames_of_unknown_type_are_passed_over() {
    let mut conn = started(Role::Server, &[]);
    let before = conn.dump_state();
    let raw = httpbis::frame::header::RawFrame::from_vec(vec![0, 0, 1, 0x42, 0, 0, 0, 0, 3, 9]);
    assert_eq!(None, conn.recv_frame(HttpFrame::Unknown(raw)));
    assert_eq!(before, conn.dump_state());
}

#[test]
fn sending_on_a_stream_that_does_not_admit_it() {
    let mut conn = started(Role::Client, &[]);
    let id = conn.start_request(Bytes::new(), true).unwrap();
    assert_eq!(Err(LocalError::InvalidState), conn.send_data(id, b"x", false));
    assert_eq!(Err(LocalError::InvalidState), conn.send_headers(id, Bytes::new(), true));
    assert_eq!(Err(LocalError::UnknownStream), conn.send_data(9, b"x", false));
    assert_eq!(Err(LocalError::UnknownStream), conn.cancel(9));

    let id = conn.start_request(Bytes::new(), false).unwrap();
    assert_eq!(Ok(()), conn.send_data(id, b"x", true));
    // The end of the body has been handed in.
    assert_eq!(Err(LocalError::InvalidState), conn.send_data(id, b"y", true));
    assert_eq!(Err(LocalError::InvalidState), conn.send_headers(id, Bytes::new(), true));
    // Nothing but the two header blocks and the one byte goes to the wire.
    let frames = written(&mut conn);
    assert_eq!(3, frames.len());
    assert_eq!(data(id, END_STREAM, 0).frame_type(), frames[2].frame_type());
}

#[test]
fn control_frames_go_before_header_blocks_and_data() {
    let mut conn = started(Role::Client, &[]);
    let id = conn.start_request(Bytes::from(&[0x82u8][..]), false).unwrap();
    conn.send_data(id, b"body", true).unwrap();
    conn.recv_frame(HttpFrame::Ping(PingFrame::new(3)));
    let types: Vec<u8> = written(&mut conn).iter().map(|f| f.frame_type()).collect();
    assert_eq!(vec![6, 1, 0], types);
}

#[test]
fn body_is_cut_to_frames_and_windows() {
    let mut conn = started(Role::Client, &[]);
    let id = conn.start_request(Bytes::new(), false).unwrap();
    let body: Vec<u8> = (0..100_000u32).map(|i| (i % 251) as u8).collect();
    conn.send_data(id, &body, true).unwrap();
    let frames = written(&mut conn);
    // One header block, then 65 535 bytes in frames of at most 16 384.
    let mut sent = Vec::new();
    for f in &frames[1..] {
        match f {
            HttpFrame::Data(d) => {
                assert!(d.data.len() <= 16_384);
                assert_eq!(0, d.flags);
                sent.extend_from_slice(&d.data);
            }
            f => panic!("{:?}", f),
        }
    }
    let sizes: Vec<usize> = frames[1..].iter().map(|f| match f {
        HttpFrame::Data(d) => d.data.len(),
        _ => 0,
    }).collect();
    assert_eq!(vec![16_384, 16_384, 16_384, 16_383], sizes);
    assert_eq!(0, conn.dump_state().send_window);
    assert_eq!(34_465, conn.dump_state().streams[0].pending);

    // Credit on the connection alone is not enough: the stream has none.
    conn.recv_frame(window_update(0, 50_000));
    assert!(written(&mut conn).is_empty());
    conn.recv_frame(window_update(id, 40_000));
    for f in written(&mut conn) {
        match f {
            HttpFrame::Data(d) => sent.extend_from_slice(&d.data),
            f => panic!("{:?}", f),
        }
    }
    assert_eq!(body, sent);
    assert_eq!(15_535, conn.dump_state().send_window);
    assert_eq!(vec![(id, StreamState::HalfClosedLocal)], states(&conn));
}

#[test]
fn last_data_frame_carries_end_stream() {
    let mut conn = started(Role::Client, &[]);
    let id = conn.start_request(Bytes::new(), false).unwrap();
    conn.send_data(id, &[1u8; 20_000], true).unwrap();
    let frames = written(&mut conn);
    assert_eq!(3, frames.len());
    match (&frames[1], &frames[2]) {
        (HttpFrame::Data(a), HttpFrame::Data(b)) => {
            assert_eq!((16_384, 0), (a.data.len(), a.flags));
            assert_eq!((3_616, END_STREAM), (b.data.len(), b.flags));
        }
        f => panic!("{:?}", f),
    }
}

#[test]
fn streams_take_turns() {
    let mut conn = started(Role::Client, &[]);
    let a = conn.start_request(Bytes::new(), false).unwrap();
    let b = conn.start_request(Bytes::new(), false).unwrap();
    let c = conn.start_request(Bytes::new(), false).unwrap();
    conn.send_data(a, &[1u8; 40_000], false).unwrap();
    conn.send_data(c, &[3u8; 20_000], false).unwrap();
    conn.send_data(b, &[2u8; 10], false).unwrap();
    let order: Vec<(u32, usize)> = written(&mut conn)[3..]
        .iter()
        .map(|f| match f {
            HttpFrame::Data(d) => (d.stream_id, d.data.len()),
            f => panic!("{:?}", f),
        })
        .collect();
    assert_eq!(
        vec![(a, 16_384), (b, 10), (c, 16_384), (a, 16_384), (c, 3_616), (a, 7_232)],
        order
    );
}

#[test]
fn long_header_block_is_continued_and_joined_again() {
    let mut client = started(Role::Client, &[]);
    let mut server = started(Role::Server, &[]);
    let block: Vec<u8> = (0..40_000u32).map(|i| (i % 253) as u8).collect();
    let id = client.start_request(Bytes::from(block.clone()), true).unwrap();
    // A control frame that comes to wait while the block is under way
    // stays behind it.
    let first = client.poll_frame().unwrap();
    client.recv_frame(HttpFrame::Ping(PingFrame::new(1)));
    let mut frames = vec![first];
    frames.extend(written(&mut client));
    let shape: Vec<(u8, u8, usize)> = frames
        .iter()
        .map(|f| match f {
            HttpFrame::Headers(h) => (1, h.flags, h.header_fragment.len()),
            HttpFrame::Continuation(c) => (9, c.flags, c.header_fragment.len()),
            HttpFrame::Ping(p) => (6, p.flags, 8),
            f => panic!("{:?}", f),
        })
        .collect();
    assert_eq!(
        vec![(1, END_STREAM, 16_384), (9, 0, 16_384), (9, END_HEADERS, 7_232), (6, 1, 8)],
        shape
    );

    let mut wire = Vec::new();
    for f in &frames[..3] {
        send_frame(&mut wire, f);
    }
    let mut read = ByteReader::new(wire);
    let joined = recv_http_frame_join_cont(&mut read, 16_384).unwrap();
    assert_eq!(
        Some(Event::Headers { stream_id: id, block: Bytes::from(block), end_stream: true }),
        server.recv_frame(joined)
    );
}

#[test]
fn shutdown_names_the_last_stream_of_the_peer() {
    let mut conn = started(Role::Server, &[]);
    conn.recv_frame(headers(1, END_HEADERS));
    conn.recv_frame(headers(7, END_HEADERS | END_STREAM));
    conn.shutdown();
    conn.shutdown();
    assert_eq!(vec![goaway(7, ErrorCode::NoError)], written(&mut conn));
    assert_eq!(Some(7), conn.dump_state().goaway_sent);
    assert!(!conn.is_drained());
    assert_eq!(Err(LocalError::ConnectionClosed), conn.push_promise(1, Bytes::new()));

    // Streams that are open go on.
    assert_eq!(Ok(()), conn.send_headers(7, Bytes::new(), true));
    assert_eq!(Ok(()), conn.send_headers(1, Bytes::new(), false));
    assert!(conn.recv_frame(data(1, END_STREAM, 1)).is_some());
    assert_eq!(Ok(()), conn.send_data(1, b"bye", true));
    for f in written(&mut conn) {
        assert!(f.get_stream_id() <= 7);
    }
    assert!(conn.is_drained());

    // A stream above the one that GOAWAY named is refused.
    assert_eq!(
        Some(Event::HeadersDropped { stream_id: 9, block: Bytes::from(&[0x82u8][..]) }),
        conn.recv_frame(headers(9, END_HEADERS))
    );
    assert_eq!(vec![rst(9, ErrorCode::RefusedStream)], written(&mut conn));
    assert_eq!(7, conn.dump_state().last_peer_stream_id);
}

#[test]
fn abort_ends_the_connection_with_the_code() {
    let mut conn = started(Role::Server, &[]);
    conn.recv_frame(headers(1, END_HEADERS));
    conn.recv_frame(HttpFrame::Ping(PingFrame::new(1)));
    conn.abort(ErrorCode::CompressionError);
    assert_failed(&mut conn, 1, ErrorCode::CompressionError);
}

#[test]
fn client_takes_a_promised_stream() {
    let mut conn = Connection::with_push(Role::Client, true);
    conn.recv_frame(settings(&[]));
    let id = conn.start_request(Bytes::new(), true).unwrap();
    written(&mut conn);

    let mut p = PushPromiseFrame::new(id, 2, Bytes::from(&[0x82u8][..]));
    p.flags = END_HEADERS;
    assert_eq!(
        Some(Event::PushPromise {
            stream_id: id,
            promised_stream_id: 2,
            block: Bytes::from(&[0x82u8][..])
        }),
        conn.recv_frame(HttpFrame::PushPromise(p.clone()))
    );
    assert_eq!(
        vec![(1, StreamState::HalfClosedLocal), (2, StreamState::ReservedRemote)],
        states(&conn)
    );
    assert_eq!(2, conn.dump_state().last_peer_stream_id);

    assert!(conn.recv_frame(headers(2, END_HEADERS)).is_some());
    assert_eq!(
        vec![(1, StreamState::HalfClosedLocal), (2, StreamState::HalfClosedLocal)],
        states(&conn)
    );
    assert!(conn.recv_frame(data(2, END_STREAM, 5)).is_some());
    assert_eq!(vec![(1, StreamState::HalfClosedLocal)], states(&conn));

    // A promise for a stream that is not above the last is an error.
    assert_eq!(
        Some(Event::ConnectionError(ErrorCode::ProtocolError)),
        conn.recv_frame(HttpFrame::PushPromise(p))
    );
    assert_failed(&mut conn, 2, ErrorCode::ProtocolError);
}

#[test]
fn promise_after_goaway_is_refused() {
    let mut conn = Connection::with_push(Role::Client, true);
    conn.recv_frame(settings(&[]));
    let id = conn.start_request(Bytes::new(), true).unwrap();
    conn.shutdown();
    written(&mut conn);
    let mut p = PushPromiseFrame::new(id, 2, Bytes::new());
    p.flags = END_HEADERS;
    assert_eq!(
        Some(Event::HeadersDropped { stream_id: 2, block: Bytes::new() }),
        conn.recv_frame(HttpFrame::PushPromise(p))
    );
    assert_eq!(vec![rst(2, ErrorCode::RefusedStream)], written(&mut conn));
    assert_eq!(vec![(1, StreamState::HalfClosedLocal)], states(&conn));
}

#[test]
fn headers_on_a_stream_that_was_given_up_are_passed_over() {
    let mut conn = started(Role::Server, &[]);
    conn.recv_frame(headers(1, END_HEADERS));
    conn.recv_frame(headers(3, END_HEADERS | END_STREAM));
    assert_eq!(Ok(()), conn.cancel(1));
    assert_eq!(
        Some(Event::HeadersDropped { stream_id: 1, block: Bytes::from(&[0x82u8][..]) }),
        conn.recv_frame(headers(1, END_HEADERS | END_STREAM))
    );
    assert_eq!(None, conn.failure());
    // A stream that has ended in the ordinary way takes no more headers.
    conn.send_headers(3, Bytes::new(), true).unwrap();
    assert_eq!(
        Some(Event::ConnectionError(ErrorCode::ProtocolError)),
        conn.recv_frame(headers(3, END_HEADERS | END_STREAM))
    );
}
