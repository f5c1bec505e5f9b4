//! A client and a server engine, joined by bytes in memory.

use bytes::Bytes;
use httpbis::engine::connection::{Connection, Event};
use httpbis::engine::model::{Failure, Role};
use httpbis::engine::outbound::LocalError;
use httpbis::error::{Error, ErrorCode};
use httpbis::frame::flags::{END_HEADERS, END_STREAM};
use httpbis::frame::http_frame::HttpFrame;
use httpbis::frame::rst_stream::RstStreamFrame;
use httpbis::framer::{recv_http_frame_join_cont, send_frame};
use httpbis::handshake::{client_handshake, server_handshake};
use httpbis::reader::ByteReader;
use httpbis::stream_state::StreamState;

struct Peer {
    conn: Connection,
    read: ByteReader,
    encoder: hpack::Encoder<'static>,
    decoder: hpack::Decoder<'static>,
}

impl Peer {
    fn new(role: Role) -> Peer {
        Peer {
            conn: Connection::new(role),
            read: ByteReader::new(Vec::new()),
            encoder: hpack::Encoder::new(),
            decoder: hpack::Decoder::new(),
        }
    }

    fn encode(&mut self, headers: &[(&str, &str)]) -> Bytes {
        let block = self
            .encoder
            .encode(headers.iter().map(|(n, v)| (n.as_bytes(), v.as_bytes())));
        Bytes::from(block)
    }

    fn decode(&mut self, block: &Bytes) -> Vec<(String, String)> {
        self.decoder
            .decode(&block[..])
            .expect("decode")
            .into_iter()
            .map(|(n, v)| (String::from_utf8(n).unwrap(), String::from_utf8(v).unwrap()))
            .collect()
    }

    /// Everything that waits to be written, as frames.
    fn written(&mut self) -> Vec<HttpFrame> {
        let mut frames = Vec::new();
        while let Some(f) = self.conn.poll_frame() {
            frames.push(f);
        }
        frames
    }

    /// Takes bytes from the wire and tells what the application is told.
    fn receive(&mut self, bytes: &[u8]) -> Vec<Event> {
        self.read.feed(bytes);
        let mut events = Vec::new();
        loop {
            match self.conn.receive(&mut self.read) {
                Ok(Some(e)) => events.push(e),
                Ok(None) => {}
                Err(Error::UnexpectedEof) => break,
                Err(e) => panic!("framing error: {:?}", e),
            }
        }
        events
    }
}

fn get<'a>(headers: &'a [(String, String)], name: &str) -> &'a str {
    &headers.iter().find(|(n, _)| n == name).expect("header").1
}

fn to_wire(frames: &[HttpFrame]) -> Vec<u8> {
    let mut out = Vec::new();
    for f in frames {
        send_frame(&mut out, f);
    }
    out
}

/// Writes all that `from` has to write and hands it to `to`.
fn pump(from: &mut Peer, to: &mut Peer) -> (Vec<HttpFrame>, Vec<Event>) {
    let frames = from.written();
    let events = to.receive(&to_wire(&frames));
    (frames, events)
}

/// A client and a server after preface, SETTINGS and their
/// acknowledgements.
fn connected_pair() -> (Peer, Peer) {
    let mut client = Peer::new(Role::Client);
    let mut server = Peer::new(Role::Server);

    let mut hello = Vec::new();
    client_handshake(&mut hello);
    server.read.feed(&hello);
    let mut reply = Vec::new();
    server_handshake(&mut server.read, &mut reply).expect("preface");

    assert!(server.receive(&[]).is_empty());
    assert!(client.receive(&reply).is_empty());

    let (frames, events) = pump(&mut server, &mut client);
    assert_eq!(1, frames.len());
    assert_eq!(vec![Event::SettingsAcked], events);
    let (frames, events) = pump(&mut client, &mut server);
    assert_eq!(1, frames.len());
    assert_eq!(vec![Event::SettingsAcked], events);
    (client, server)
}

fn request_headers<'a>(method: &'a str, path: &'a str) -> Vec<(&'a str, &'a str)> {
    vec![
        (":method", method),
        (":path", path),
        (":authority", "localhost"),
        (":scheme", "http"),
    ]
}

#[test]
fn stream_count() {
    let (mut client, mut server) = connected_pair();

    let state = client.conn.dump_state();
    assert_eq!(0, state.streams.len());

    let block = client.encode(&request_headers("POST", "/foobar"));
    let id = client.conn.start_request(block, false).expect("start");
    assert_eq!(1, id);
    client.conn.send_data(id, b"xxyy", true).expect("body");

    let (frames, events) = pump(&mut client, &mut server);
    assert_eq!(2, frames.len());
    match &frames[0] {
        HttpFrame::Headers(h) => {
            assert_eq!(1, h.stream_id);
            assert_eq!(END_HEADERS, h.flags);
        }
        f => panic!("expected HEADERS, got {:?}", f),
    }
    match &frames[1] {
        HttpFrame::Data(d) => {
            assert_eq!(1, d.stream_id);
            assert_eq!(END_STREAM, d.flags);
            assert_eq!(b"xxyy", &d.data[..]);
        }
        f => panic!("expected DATA, got {:?}", f),
    }

    assert_eq!(2, events.len());
    match &events[0] {
        Event::Headers { stream_id, block, end_stream } => {
            assert_eq!(1, *stream_id);
            assert!(!*end_stream);
            let headers = server.decode(block);
            assert_eq!("POST", get(&headers, ":method"));
            assert_eq!("/foobar", get(&headers, ":path"));
        }
        e => panic!("expected headers, got {:?}", e),
    }
    assert_eq!(
        Event::Data { stream_id: 1, data: Bytes::from(&b"xxyy"[..]), end_stream: true },
        events[1]
    );

    let resp = server.encode(&[(":status", "200")]);
    server.conn.send_headers(1, resp, false).expect("response headers");
    server.conn.send_data(1, b"aabb", true).expect("response body");

    let (frames, events) = pump(&mut server, &mut client);
    assert_eq!(2, frames.len());
    assert_eq!(2, events.len());
    match &events[0] {
        Event::Headers { stream_id, block, end_stream } => {
            assert_eq!(1, *stream_id);
            assert!(!*end_stream);
            let headers = client.decode(block);
            assert_eq!("200", get(&headers, ":status"));
        }
        e => panic!("expected headers, got {:?}", e),
    }
    let body = match &events[1] {
        Event::Data { stream_id: 1, data, end_stream: true } => data.to_vec(),
        e => panic!("expected data, got {:?}", e),
    };
    assert_eq!((b"aabb"[..]).to_owned(), body);

    let state = client.conn.dump_state();
    assert_eq!(0, state.streams.len(), "{:?}", state);
    assert_eq!(0, server.conn.dump_state().streams.len());
}

#[test]
fn rst_is_error() {
    let (mut client, mut server) = connected_pair();

    let block = client.encode(&request_headers("GET", "/fgfg"));
    let id = client.conn.start_request(block, true).expect("start");
    assert_eq!(1, id);
    let (_, events) = pump(&mut client, &mut server);
    assert_eq!(1, events.len());

    let resp = server.encode(&[(":status", "200")]);
    server.conn.send_headers(1, resp, false).expect("response headers");
    let mut wire = to_wire(&server.written());
    send_frame(
        &mut wire,
        &HttpFrame::RstStream(RstStreamFrame::new(1, ErrorCode::InadequateSecurity)),
    );

    let events = client.receive(&wire);
    assert_eq!(2, events.len());
    match &events[0] {
        Event::Headers { stream_id: 1, end_stream: false, .. } => {}
        e => panic!("expected headers, got {:?}", e),
    }
    match &events[1] {
        Event::StreamReset { stream_id: 1, code: ErrorCode::InadequateSecurity } => {}
        e => panic!("wrong error: {:?}", e),
    }

    let state = client.conn.dump_state();
    assert_eq!(0, state.streams.len(), "{:?}", state);
}

#[test]
fn client_call_dropped() {
    let (mut client, mut server) = connected_pair();

    let block = client.encode(&request_headers("GET", "/fgfg"));
    let id = client.conn.start_request(block, true).expect("start");
    assert_eq!(1, id);
    let (frames, _) = pump(&mut client, &mut server);
    assert_eq!(1, frames.len());

    // The request is given up before the server has answered.
    client.conn.cancel(id).expect("cancel");
    let (frames, events) = pump(&mut client, &mut server);
    assert_eq!(
        vec![HttpFrame::RstStream(RstStreamFrame::new(1, ErrorCode::Cancel))],
        frames
    );
    assert_eq!(vec![Event::StreamReset { stream_id: 1, code: ErrorCode::Cancel }], events);
    assert_eq!(0, client.conn.dump_state().streams.len());

    // The server answers all the same: it had not seen the reset yet. The
    // answer is passed over, but for its header block, which has to pass
    // the decoder.
    let resp = server.encode(&[(":status", "200")]);
    let mut late = httpbis::frame::headers::HeadersFrame::new(1, resp);
    late.flags = END_HEADERS | END_STREAM;
    let events = client.receive(&to_wire(&[HttpFrame::Headers(late)]));
    match &events[..] {
        [Event::HeadersDropped { stream_id: 1, block }] => {
            assert_eq!("200", get(&client.decode(block), ":status"));
        }
        e => panic!("expected a dropped header block, got {:?}", e),
    }
    assert_eq!(None, client.conn.failure());

    let block = client.encode(&request_headers("GET", "/fgfg"));
    let id = client.conn.start_request(block, true).expect("start");
    assert_eq!(3, id);
    let (_, events) = pump(&mut client, &mut server);
    match &events[..] {
        [Event::Headers { stream_id: 3, end_stream: true, .. }] => {}
        e => panic!("expected headers, got {:?}", e),
    }

    let resp = server.encode(&[(":status", "200")]);
    server.conn.send_headers(3, resp, true).expect("response");
    let (_, events) = pump(&mut server, &mut client);
    match &events[..] {
        [Event::Headers { stream_id: 3, block, end_stream: true }] => {
            assert_eq!("200", get(&client.decode(block), ":status"));
        }
        e => panic!("expected headers, got {:?}", e),
    }

    let state = client.conn.dump_state();
    assert_eq!(0, state.streams.len(), "{:?}", state);
}

#[test]
fn client_call_dropped_before_headers_left() {
    let mut client = connected_pair().0;
    let block = client.encode(&request_headers("GET", "/fgfg"));
    let id = client.conn.start_request(block, true).expect("start");
    client.conn.cancel(id).expect("cancel");
    // The reset stays behind the header block that makes the stream known.
    let frames = client.written();
    assert_eq!(2, frames.len());
    match &frames[0] {
        HttpFrame::Headers(h) => assert_eq!(1, h.stream_id),
        f => panic!("expected HEADERS, got {:?}", f),
    }
    assert_eq!(HttpFrame::RstStream(RstStreamFrame::new(1, ErrorCode::Cancel)), frames[1]);
}

fn one_get(client: &mut Peer, server: &mut Peer, path: &str, expect_stream: u32) {
    let block = client.encode(&request_headers("GET", path));
    let id = client.conn.start_request(block, true).expect("start");
    assert_eq!(expect_stream, id);
    let (_, events) = pump(client, server);
    let path_seen = match &events[..] {
        [Event::Headers { block, .. }] => get(&server.decode(block), ":path").to_owned(),
        e => panic!("expected headers, got {:?}", e),
    };
    assert_eq!(path, path_seen);
    let resp = server.encode(&[(":status", "200")]);
    server.conn.send_headers(id, resp, true).expect("response");
    let (_, events) = pump(server, client);
    match &events[..] {
        [Event::Headers { block, end_stream: true, .. }] => {
            assert_eq!("200", get(&client.decode(block), ":status"));
        }
        e => panic!("expected headers, got {:?}", e),
    }
}

#[test]
fn reconnect_on_disconnect() {
    let (mut client, mut server) = connected_pair();
    one_get(&mut client, &mut server, "/111", 1);

    // The server closes the socket: the bytes end, and nothing more can
    // be received on the connection.
    assert_eq!(
        Err(Error::UnexpectedEof),
        recv_http_frame_join_cont(&mut client.read, 16384)
    );
    drop(client);
    drop(server);

    // A new connection starts with a new preface and new SETTINGS, and
    // counts its streams from 1 again.
    let (mut client, mut server) = connected_pair();
    one_get(&mut client, &mut server, "/222", 1);
}

#[test]
fn reconnect_on_goaway() {
    let (mut client, mut server) = connected_pair();
    one_get(&mut client, &mut server, "/111", 1);

    server.conn.shutdown();
    let (frames, events) = pump(&mut server, &mut client);
    assert_eq!(1, frames.len());
    match &frames[0] {
        HttpFrame::Goaway(g) => {
            assert_eq!(1, g.last_stream_id);
            assert_eq!(ErrorCode::NoError, g.error_code());
        }
        f => panic!("expected GOAWAY, got {:?}", f),
    }
    assert_eq!(
        vec![Event::Goaway { last_stream_id: 1, code: ErrorCode::NoError }],
        events
    );
    assert!(server.conn.is_drained());
    assert_eq!(Some(1), client.conn.dump_state().last_goaway);

    let block = client.encode(&request_headers("GET", "/111"));
    assert_eq!(Err(LocalError::RefusedStream), client.conn.start_request(block, true));
    assert_eq!(None, client.conn.failure());

    let (mut client, mut server) = connected_pair();
    one_get(&mut client, &mut server, "/111", 1);
    assert_eq!(3, client.conn.dump_state().next_stream_id);
}

#[test]
fn in_flight_stream_completes_after_goaway() {
    let (mut client, mut server) = connected_pair();
    let block = client.encode(&request_headers("POST", "/slow"));
    let id = client.conn.start_request(block, false).expect("start");
    pump(&mut client, &mut server);

    server.conn.shutdown();
    pump(&mut server, &mut client);
    assert!(!server.conn.is_drained());

    client.conn.send_data(id, b"late", true).expect("body");
    let (_, events) = pump(&mut client, &mut server);
    assert_eq!(
        vec![Event::Data { stream_id: 1, data: Bytes::from(&b"late"[..]), end_stream: true }],
        events
    );
    let resp = server.encode(&[(":status", "200")]);
    server.conn.send_headers(1, resp, true).expect("response");
    let (frames, events) = pump(&mut server, &mut client);
    assert_eq!(1, frames.len());
    assert_eq!(1, events.len());
    assert!(server.conn.is_drained());
    assert_eq!(0, client.conn.dump_state().streams.len());
}

#[test]
fn stream_opened_after_goaway_is_refused() {
    let (mut client, mut server) = connected_pair();
    server.conn.shutdown();
    // The client has not seen the GOAWAY yet and starts a request.
    let block = client.encode(&request_headers("GET", "/late"));
    client.conn.start_request(block, true).expect("start");
    let (_, events) = pump(&mut client, &mut server);
    match &events[..] {
        [Event::HeadersDropped { stream_id: 1, block }] => {
            assert_eq!("/late", get(&server.decode(block), ":path"));
        }
        e => panic!("expected a dropped header block, got {:?}", e),
    }
    let frames = server.written();
    assert_eq!(2, frames.len());
    match &frames[0] {
        HttpFrame::Goaway(g) => assert_eq!(0, g.last_stream_id),
        f => panic!("expected GOAWAY, got {:?}", f),
    }
    assert_eq!(
        HttpFrame::RstStream(RstStreamFrame::new(1, ErrorCode::RefusedStream)),
        frames[1]
    );
    assert_eq!(0, server.conn.dump_state().streams.len());
    assert_eq!(0, server.conn.dump_state().last_peer_stream_id);
}

#[test]
fn state_dump_shows_open_streams() {
    let (mut client, mut server) = connected_pair();
    let block = client.encode(&request_headers("POST", "/a"));
    client.conn.start_request(block, false).expect("start");
    let block = client.encode(&request_headers("GET", "/b"));
    client.conn.start_request(block, true).expect("start");
    pump(&mut client, &mut server);

    let state = client.conn.dump_state();
    let seen: Vec<(u32, StreamState)> = state.streams.iter().map(|s| (s.id, s.state)).collect();
    assert_eq!(vec![(1, StreamState::Open), (3, StreamState::HalfClosedLocal)], seen);
    assert_eq!(5, state.next_stream_id);
    assert_eq!(65_535, state.streams[0].send_window);
    assert_eq!(65_535, state.streams[0].recv_window);

    let state = server.conn.dump_state();
    let seen: Vec<(u32, StreamState)> = state.streams.iter().map(|s| (s.id, s.state)).collect();
    assert_eq!(vec![(1, StreamState::Open), (3, StreamState::HalfClosedRemote)], seen);
    assert_eq!(3, state.last_peer_stream_id);
    assert_eq!(None, state.failed);
    assert_eq!(None::<Failure>, server.conn.failure());
}

#[test]
fn header_block_round_trip() {
    let (mut client, mut server) = connected_pair();
    let long = "v".repeat(30_000);
    let headers = vec![
        (":method", "GET"),
        (":path", "/long"),
        (":authority", "localhost"),
        (":scheme", "http"),
        ("x-long", &long[..]),
    ];
    let block = client.encode(&headers);
    client.conn.start_request(block, true).expect("start");
    let (frames, events) = pump(&mut client, &mut server);
    // The block is longer than one frame may be and comes in pieces.
    assert!(frames.len() > 1);
    let decoded = match &events[..] {
        [Event::Headers { stream_id: 1, block, end_stream: true }] => server.decode(block),
        e => panic!("expected headers, got {:?}", e),
    };
    let expected: Vec<(String, String)> =
        headers.iter().map(|(n, v)| (n.to_string(), v.to_string())).collect();
    assert_eq!(expected, decoded);
}

#[test]
fn broken_header_block_ends_the_connection() {
    let (mut client, mut server) = connected_pair();
    let block = client.encode(&request_headers("GET", "/"));
    client.conn.start_request(block, true).expect("start");
    pump(&mut client, &mut server);

    // HEADERS that leaves its block open, then a frame of another type.
    let mut open = httpbis::frame::headers::HeadersFrame::new(3, Bytes::from(&b"a"[..]));
    open.flags = 0;
    let wire = to_wire(&[
        HttpFrame::Headers(open),
        HttpFrame::Ping(httpbis::frame::ping::PingFrame::new(1)),
    ]);
    server.read.feed(&wire);
    assert_eq!(
        Err(Error::Other(httpbis::error::ContinuationError::GotOther)),
        server.conn.receive(&mut server.read)
    );
    assert_eq!(wire.len(), server.read.remaining_len());
    assert_eq!(Some(Failure::Code(ErrorCode::ProtocolError)), server.conn.failure());
    let frames = server.written();
    assert_eq!(1, frames.len());
    match &frames[0] {
        HttpFrame::Goaway(g) => {
            assert_eq!(1, g.last_stream_id);
            assert_eq!(ErrorCode::ProtocolError, g.error_code());
        }
        f => panic!("expected GOAWAY, got {:?}", f),
    }
}

#[test]
fn frame_over_the_limit_ends_the_connection() {
    let mut server = connected_pair().1;
    server.read.feed(&[0x00, 0x40, 0x01, 0x00, 0x00, 0x00, 0x00, 0x00, 0x01]);
    assert_eq!(
        Err(Error::CodeError(ErrorCode::FrameSizeError)),
        server.conn.receive(&mut server.read)
    );
    assert_eq!(Some(Failure::Code(ErrorCode::FrameSizeError)), server.conn.failure());
    // The end of the bytes is no error of the connection.
    let mut waiting = connected_pair().1;
    waiting.read.feed(&[0x00, 0x00, 0x01]);
    assert_eq!(Err(Error::UnexpectedEof), waiting.conn.receive(&mut waiting.read));
    assert_eq!(None, waiting.conn.failure());
}
