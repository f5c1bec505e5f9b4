//! The start of a connection: the client preface and the first SETTINGS.

use crate::error::{Error, InvalidFrame};
use crate::frame::http_frame::{HttpFrame, HttpFrameView};
use crate::frame::settings::{HttpSetting, SettingsFrame, SettingsFrameView};
use crate::framer::send_frame;
use crate::reader::ByteReader;
use vstd::prelude::*;
use vstd::slice::slice_subrange;

verus! {

/// Length of the client preface.
pub const PREFACE_LEN: usize = 24;

/// The client preface, `PRI * HTTP/2.0\r\n\r\nSM\r\n\r\n`.
pub open spec fn spec_preface() -> Seq<u8> {
    seq![
        0x50u8, 0x52, 0x49, 0x20, 0x2a, 0x20, 0x48, 0x54, 0x54, 0x50, 0x2f, 0x32, 0x2e, 0x30, 0x0d,
        0x0a, 0x0d, 0x0a, 0x53, 0x4d, 0x0d, 0x0a, 0x0d, 0x0a,
    ]
}

/// The client preface.
pub fn preface() -> (p: [u8; 24])
    ensures
        p@ == spec_preface(),
{
    let p: [u8; 24] = [
        0x50, 0x52, 0x49, 0x20, 0x2a, 0x20, 0x48, 0x54, 0x54, 0x50, 0x2f, 0x32, 0x2e, 0x30, 0x0d,
        0x0a, 0x0d, 0x0a, 0x53, 0x4d, 0x0d, 0x0a, 0x0d, 0x0a,
    ];
    assert(p@ =~= spec_preface());
    p
}

/// The SETTINGS frame that either side sends first: server push is
/// switched off, everything else is left as it is by default.
pub open spec fn initial_settings() -> SettingsFrameView {
    SettingsFrameView { flags: 0, settings: seq![HttpSetting::EnablePush(false)] }
}

/// The bytes of the first SETTINGS frame.
pub open spec fn initial_settings_bytes() -> Seq<u8> {
    HttpFrameView::Settings(initial_settings()).wire_bytes()
}

/// Appends the first SETTINGS frame to what is to be written.
pub fn send_settings(conn: &mut Vec<u8>)
    ensures
        final(conn)@ == old(conn)@ + initial_settings_bytes(),
{
    let mut frame = SettingsFrame::new();
    frame.add_setting(HttpSetting::EnablePush(false));
    assert(frame@.settings =~= initial_settings().settings);
    send_frame(conn, &HttpFrame::Settings(frame));
}

/// Starts a connection as the client: appends the preface and the first
/// SETTINGS frame to what is to be written.
pub fn client_handshake(conn: &mut Vec<u8>)
    ensures
        final(conn)@ == old(conn)@ + spec_preface() + initial_settings_bytes(),
{
    let p = preface();
    conn.extend_from_slice(p.as_slice());
    send_settings(conn);
}

/// Whether `got` is the client preface, and what is wrong where it is not:
/// bytes that start with 0x16 look like a TLS handshake.
pub open spec fn spec_check_preface(got: Seq<u8>) -> Result<(), Error> {
    if got == spec_preface() {
        Ok(())
    } else if got.len() > 0 && got[0] == 0x16 {
        Err(Error::InvalidFrame(InvalidFrame::WrongPrefaceLikelyTls))
    } else {
        Err(Error::InvalidFrame(InvalidFrame::WrongPreface))
    }
}

/// Checks the bytes that a client sent first against the preface.
pub fn check_preface(preface_buf: &[u8]) -> (r: Result<(), Error>)
    ensures
        r == spec_check_preface(preface_buf@),
{
    let p = preface();
    let mut same: bool = preface_buf.len() == PREFACE_LEN;
    let mut i: usize = 0;
    while same && i < PREFACE_LEN
        invariant
            i <= PREFACE_LEN,
            p@ == spec_preface(),
            same ==> preface_buf@.len() == PREFACE_LEN,
            same ==> forall|j: int| 0 <= j < i ==> preface_buf@[j] == p@[j],
            !same ==> preface_buf@ != spec_preface(),
        decreases PREFACE_LEN - i,
    {
        if preface_buf[i] != p[i] {
            same = false;
        }
        i = i + 1;
    }
    if same {
        assert(preface_buf@ =~= spec_preface());
        Ok(())
    } else if preface_buf.len() > 0 && preface_buf[0] == 0x16 {
        Err(Error::InvalidFrame(InvalidFrame::WrongPrefaceLikelyTls))
    } else {
        Err(Error::InvalidFrame(InvalidFrame::WrongPreface))
    }
}

/// What a server makes of the first bytes `input` of a connection:
/// `UnexpectedEof` where fewer than 24 are there, else what
/// [`spec_check_preface`] says of the first 24.
pub open spec fn spec_server_handshake(input: Seq<u8>) -> Result<(), Error> {
    if input.len() < PREFACE_LEN {
        Err(Error::UnexpectedEof)
    } else {
        spec_check_preface(input.subrange(0, PREFACE_LEN as int))
    }
}

/// Starts a connection as the server: takes up the client preface and
/// appends the first SETTINGS frame to what is to be written. Where the
/// preface is not there, nothing is taken up and nothing is appended.
pub fn server_handshake(read: &mut ByteReader, write: &mut Vec<u8>) -> (r: Result<(), Error>)
    ensures
        r == spec_server_handshake(old(read).remaining()),
        r is Ok ==> final(read).remaining() == old(read).remaining().skip(PREFACE_LEN as int)
            && final(write)@ == old(write)@ + initial_settings_bytes(),
        r is Err ==> final(read).remaining() == old(read).remaining() && final(write)@ == old(
            write,
        )@,
{
    if read.remaining_len() < PREFACE_LEN {
        return Err(Error::UnexpectedEof);
    }
    let checked = check_preface(slice_subrange(read.rest(), 0, PREFACE_LEN));
    match checked {
        Ok(()) => {
            read.advance(PREFACE_LEN);
            send_settings(write);
            Ok(())
        },
        Err(e) => Err(e),
    }
}

} // verus!
