//! Stream states, windows and settings.

use httpbis::error::ErrorCode;
use httpbis::frame::settings::HttpSetting;
use httpbis::settings::Settings;
use httpbis::stream_state::StreamError;
use httpbis::stream_state::StreamEvent::{
    RecvData, RecvHeaders, RecvPushPromise, RecvRstStream, SendData, SendHeaders,
    SendPushPromise, SendRstStream,
};
use httpbis::stream_state::StreamState::{
    Closed, HalfClosedLocal, HalfClosedRemote, Idle, Open, ReservedLocal, ReservedRemote,
};
use httpbis::stream_state::{StreamEvent, StreamState};
use httpbis::window::{Window, DEFAULT_WINDOW_SIZE};

const ALL_STATES: [StreamState; 7] =
    [Idle, ReservedLocal, ReservedRemote, Open, HalfClosedLocal, HalfClosedRemote, Closed];

fn all_events() -> Vec<StreamEvent> {
    vec![
        SendHeaders { end_stream: false },
        SendHeaders { end_stream: true },
        RecvHeaders { end_stream: false },
        RecvHeaders { end_stream: true },
        SendData { end_stream: false },
        SendData { end_stream: true },
        RecvData { end_stream: false },
        RecvData { end_stream: true },
        SendPushPromise,
        RecvPushPromise,
        SendRstStream,
        RecvRstStream,
    ]
}

#[test]
fn transitions_of_the_table() {
    assert_eq!(Idle.transition(SendHeaders { end_stream: false }), Ok(Open));
    assert_eq!(Idle.transition(SendHeaders { end_stream: true }), Ok(HalfClosedLocal));
    assert_eq!(Idle.transition(RecvHeaders { end_stream: false }), Ok(Open));
    assert_eq!(Idle.transition(RecvHeaders { end_stream: true }), Ok(HalfClosedRemote));
    assert_eq!(Idle.transition(SendPushPromise), Ok(ReservedLocal));
    assert_eq!(Idle.transition(RecvPushPromise), Ok(ReservedRemote));
    assert_eq!(ReservedLocal.transition(SendHeaders { end_stream: false }), Ok(HalfClosedRemote));
    assert_eq!(ReservedRemote.transition(RecvHeaders { end_stream: false }), Ok(HalfClosedLocal));
    assert_eq!(Open.transition(SendData { end_stream: true }), Ok(HalfClosedLocal));
    assert_eq!(Open.transition(SendHeaders { end_stream: true }), Ok(HalfClosedLocal));
    assert_eq!(Open.transition(RecvData { end_stream: true }), Ok(HalfClosedRemote));
    assert_eq!(Open.transition(RecvHeaders { end_stream: true }), Ok(HalfClosedRemote));
    assert_eq!(HalfClosedLocal.transition(RecvData { end_stream: true }), Ok(Closed));
    assert_eq!(HalfClosedLocal.transition(RecvRstStream), Ok(Closed));
    assert_eq!(HalfClosedRemote.transition(SendData { end_stream: true }), Ok(Closed));
    assert_eq!(HalfClosedRemote.transition(SendRstStream), Ok(Closed));
    for s in ALL_STATES {
        assert_eq!(s.transition(SendRstStream), Ok(Closed));
        assert_eq!(s.transition(RecvRstStream), Ok(Closed));
    }
}

#[test]
fn frames_without_end_stream_leave_the_state() {
    assert_eq!(Open.transition(SendData { end_stream: false }), Ok(Open));
    assert_eq!(Open.transition(RecvData { end_stream: false }), Ok(Open));
    assert_eq!(Open.transition(RecvHeaders { end_stream: false }), Ok(Open));
    assert_eq!(HalfClosedLocal.transition(RecvData { end_stream: false }), Ok(HalfClosedLocal));
    assert_eq!(HalfClosedLocal.transition(RecvHeaders { end_stream: false }), Ok(HalfClosedLocal));
    assert_eq!(HalfClosedRemote.transition(SendData { end_stream: false }), Ok(HalfClosedRemote));
    assert_eq!(
        HalfClosedRemote.transition(SendHeaders { end_stream: false }),
        Ok(HalfClosedRemote)
    );
}

#[test]
fn frames_that_a_state_does_not_admit() {
    let protocol = Err(StreamError::Connection(ErrorCode::ProtocolError));
    assert_eq!(Idle.transition(RecvData { end_stream: false }), protocol);
    assert_eq!(HalfClosedRemote.transition(RecvData { end_stream: false }), protocol);
    assert_eq!(HalfClosedRemote.transition(RecvHeaders { end_stream: true }), protocol);
    assert_eq!(ReservedLocal.transition(RecvHeaders { end_stream: false }), protocol);
    assert_eq!(Open.transition(RecvPushPromise), protocol);
    assert_eq!(Closed.transition(RecvHeaders { end_stream: false }), protocol);
    assert_eq!(
        Closed.transition(RecvData { end_stream: false }),
        Err(StreamError::Stream(ErrorCode::StreamClosed))
    );
    assert_eq!(
        Closed.transition(RecvData { end_stream: true }),
        Err(StreamError::Stream(ErrorCode::StreamClosed))
    );
    assert_eq!(HalfClosedLocal.transition(SendData { end_stream: false }), Err(StreamError::Local));
    assert_eq!(Closed.transition(SendData { end_stream: true }), Err(StreamError::Local));
    assert_eq!(Closed.transition(SendHeaders { end_stream: true }), Err(StreamError::Local));
    assert_eq!(Open.transition(SendPushPromise), Err(StreamError::Local));
    assert_eq!(ReservedRemote.transition(SendHeaders { end_stream: false }), Err(StreamError::Local));
}

#[test]
fn no_frame_leads_out_of_closed() {
    for ev in all_events() {
        match Closed.transition(ev) {
            Ok(s) => assert_eq!(s, Closed, "{:?}", ev),
            Err(_) => {}
        }
    }
}

#[test]
fn no_frame_leads_back_to_idle() {
    for s in ALL_STATES {
        for ev in all_events() {
            assert_ne!(s.transition(ev), Ok(Idle), "{:?} {:?}", s, ev);
        }
    }
}

#[test]
fn window_starts_with_what_it_is_given() {
    assert_eq!(Window::new(DEFAULT_WINDOW_SIZE).size, 65_535);
    assert_eq!(Window::new(0x7fff_ffff).size, 0x7fff_ffff);
    assert_eq!(Window::new(0x8000_0000).size, 0x7fff_ffff);
    assert_eq!(Window { size: -5 }.available(), 0);
    assert_eq!(Window { size: 5 }.available(), 5);
}

#[test]
fn consume_takes_only_what_is_there() {
    let mut w = Window::new(10);
    assert!(w.try_consume(4));
    assert_eq!(w.size, 6);
    assert!(!w.try_consume(7));
    assert_eq!(w.size, 6);
    assert!(w.try_consume(6));
    assert_eq!(w.size, 0);
    assert!(w.try_consume(0));
    let mut below = Window { size: -1 };
    assert!(!below.try_consume(0));
    assert_eq!(below.size, -1);
}

#[test]
fn credit_stops_at_the_largest_window() {
    let mut w = Window::new(0x7fff_fff0);
    assert_eq!(w.credit(0xf), Ok(()));
    assert_eq!(w.size, 0x7fff_ffff);
    assert_eq!(w.credit(1), Err(ErrorCode::FlowControlError));
    assert_eq!(w.size, 0x7fff_ffff);
    let mut below = Window { size: -10 };
    assert_eq!(below.credit(0x7fff_ffff), Ok(()));
    assert_eq!(below.size, 0x7fff_fff5);
}

#[test]
fn adjust_may_lead_below_zero() {
    let mut w = Window::new(100);
    assert_eq!(w.adjust(-65_535), Ok(()));
    assert_eq!(w.size, -65_435);
    assert_eq!(w.adjust(65_535 + 0x7fff_ffff - 100), Ok(()));
    assert_eq!(w.size, 0x7fff_ffff);
    assert_eq!(w.adjust(1), Err(ErrorCode::FlowControlError));
    assert_eq!(w.size, 0x7fff_ffff);
    let mut low = Window { size: i32::MIN };
    assert_eq!(low.adjust(-1), Err(ErrorCode::FlowControlError));
    assert_eq!(low.adjust(i64::MIN), Err(ErrorCode::FlowControlError));
    assert_eq!(low.adjust(i64::MAX), Err(ErrorCode::FlowControlError));
    assert_eq!(low.size, i32::MIN);
}

#[test]
fn refill_below_half() {
    let mut w = Window { size: 32_767 };
    assert_eq!(w.refill(65_535), None);
    assert_eq!(w.size, 32_767);
    let mut w = Window { size: 32_766 };
    assert_eq!(w.refill(65_535), Some(32_769));
    assert_eq!(w.size, 65_535);
    let mut w = Window { size: 0 };
    assert_eq!(w.refill(1), None);
    let mut w = Window { size: -1 };
    assert_eq!(w.refill(65_535), None);
    let mut w = Window { size: 0 };
    assert_eq!(w.refill(0x8000_0000), None);
}

#[test]
fn settings_defaults_and_changes() {
    let mut s = Settings::new();
    assert_eq!(
        s,
        Settings {
            header_table_size: 4096,
            enable_push: true,
            max_concurrent_streams: None,
            initial_window_size: 65_535,
            max_frame_size: 16_384,
            max_header_list_size: None,
        }
    );
    s.apply(HttpSetting::EnablePush(false));
    s.apply(HttpSetting::Unknown(0x10, 7));
    s.apply_all(&vec![
        HttpSetting::InitialWindowSize(10),
        HttpSetting::MaxFrameSize(20_000),
        HttpSetting::InitialWindowSize(20),
        HttpSetting::MaxConcurrentStreams(3),
        HttpSetting::HeaderTableSize(0),
        HttpSetting::MaxHeaderListSize(99),
    ]);
    assert_eq!(
        s,
        Settings {
            header_table_size: 0,
            enable_push: false,
            max_concurrent_streams: Some(3),
            initial_window_size: 20,
            max_frame_size: 20_000,
            max_header_list_size: Some(99),
        }
    );
}
