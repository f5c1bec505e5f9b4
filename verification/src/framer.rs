//! Receiving and sending frames over bytes.
//!
//! The receiving functions read from a [`ByteReader`]. Each of them either
//! takes up the bytes of what it returns and nothing more, or fails and
//! takes up nothing: a caller that was told `UnexpectedEof` may feed the
//! reader and ask again. The sending functions append to a vector what is
//! to be written to the peer.

use crate::buf::bytes_from_vec;
use crate::error::{Error, ErrorCode, InvalidFrame, ParseFrameError};
use crate::frame::header::{
    result_view, spec_unpack_header, unpack_header, unpack_header_from_slice, RawFrame,
};
use crate::frame::http_frame::{spec_http_frame_from_raw, HttpFrame, HttpFrameView};
use crate::frame::settings::{SettingsFrame, SettingsFrameView};
use crate::join::{
    join_cont_step, option_view, spec_join_step, ContinuableFrame, ContinuableFrameView, JoinStep,
    JoinStepView,
};
use crate::reader::ByteReader;
use vstd::prelude::*;
use vstd::slice::{slice_subrange, slice_to_vec};

verus! {

/// The length of the payload that follows a frame header, where the frame
/// is one that may be received: `FrameSizeError` where the header states a
/// longer payload than `max_frame_size`.
pub open spec fn spec_payload_len(raw_header: Seq<u8>, max_frame_size: u32) -> Result<u32, Error> {
    let length = spec_unpack_header(raw_header).length;
    if length > max_frame_size {
        Err(Error::CodeError(ErrorCode::FrameSizeError))
    } else {
        Ok(length)
    }
}

/// The bytes of the frame that stands first in `input`. `UnexpectedEof`
/// where the input ends inside the frame, `FrameSizeError` where the frame
/// states a longer payload than `max_frame_size`.
pub open spec fn spec_recv_raw_frame(input: Seq<u8>, max_frame_size: u32) -> Result<
    Seq<u8>,
    Error,
> {
    if input.len() < 9 {
        Err(Error::UnexpectedEof)
    } else {
        match spec_payload_len(input, max_frame_size) {
            Err(e) => Err(e),
            Ok(length) => if input.len() < 9 + length {
                Err(Error::UnexpectedEof)
            } else {
                Ok(input.subrange(0, 9 + length))
            },
        }
    }
}

/// The frame that stands first in `input`, decoded, together with the
/// number of bytes that it takes.
pub open spec fn spec_recv_http_frame(input: Seq<u8>, max_frame_size: u32) -> Result<
    (HttpFrameView, nat),
    Error,
> {
    match spec_recv_raw_frame(input, max_frame_size) {
        Err(e) => Err(e),
        Ok(raw) => match spec_http_frame_from_raw(raw) {
            Err(e) => Err(Error::ParseFrameError(e)),
            Ok(frame) => Ok((frame, raw.len())),
        },
    }
}

/// The SETTINGS frame that stands first in `input`, together with the
/// number of bytes that it takes. A frame of another type is refused with
/// its type code.
pub open spec fn spec_recv_settings_frame(input: Seq<u8>, max_frame_size: u32) -> Result<
    (SettingsFrameView, nat),
    Error,
> {
    match spec_recv_http_frame(input, max_frame_size) {
        Err(e) => Err(e),
        Ok((frame, n)) => match frame {
            HttpFrameView::Settings(f) => Ok((f, n)),
            _ => Err(Error::InvalidFrame(InvalidFrame::ExpectedSettings(frame.frame_type()))),
        },
    }
}

/// A frame and the bytes it takes, without the count.
pub open spec fn frame_of<F>(r: Result<(F, nat), Error>) -> Result<F, Error> {
    match r {
        Ok((f, _)) => Ok(f),
        Err(e) => Err(e),
    }
}

/// What is left of `input` behind the frame that was received; all of it
/// where none was.
pub open spec fn rest_after<F>(input: Seq<u8>, r: Result<(F, nat), Error>) -> Seq<u8> {
    match r {
        Ok((_, n)) => input.skip(n as int),
        Err(_) => input,
    }
}

/// Reads a frame header and tells how many bytes of payload follow it.
/// The caller that reads from a socket reads the header, asks here, and
/// then reads that many bytes.
pub fn frame_payload_len(raw_header: &[u8; 9], max_frame_size: u32) -> (r: Result<u32, Error>)
    ensures
        r == spec_payload_len(raw_header@, max_frame_size),
{
    let header = unpack_header(raw_header);
    if header.length > max_frame_size {
        return Err(Error::CodeError(ErrorCode::FrameSizeError));
    }
    Ok(header.length)
}

/// The frame that stands at `at` in `s`, not decoded.
fn raw_frame_at(s: &[u8], at: usize, max_frame_size: u32) -> (r: Result<RawFrame, Error>)
    requires
        at <= s@.len(),
    ensures
        result_view(r) == spec_recv_raw_frame(s@.skip(at as int), max_frame_size),
        r matches Ok(raw) ==> at + raw@.len() <= s@.len(),
{
    let len: usize = s.len();
    let input = slice_subrange(s, at, len);
    assert(input@ =~= s@.skip(at as int));
    if input.len() < 9 {
        return Err(Error::UnexpectedEof);
    }
    let header = unpack_header_from_slice(input);
    if header.length > max_frame_size {
        return Err(Error::CodeError(ErrorCode::FrameSizeError));
    }
    if input.len() - 9 < header.length as usize {
        return Err(Error::UnexpectedEof);
    }
    let total: usize = 9 + header.length as usize;
    let frame = slice_to_vec(slice_subrange(input, 0, total));
    Ok(RawFrame { raw_content: bytes_from_vec(frame) })
}

/// The frame that stands at `at` in `s`, decoded.
fn http_frame_at(s: &[u8], at: usize, max_frame_size: u32) -> (r: Result<(HttpFrame, usize), Error>)
    requires
        at <= s@.len(),
    ensures
        match r {
            Ok((frame, n)) => spec_recv_http_frame(s@.skip(at as int), max_frame_size) == Ok::<
                (HttpFrameView, nat),
                Error,
            >((frame@, n as nat)) && at + n <= s@.len() && n >= 9 && fragment_len(frame@) + 9
                <= n,
            Err(e) => spec_recv_http_frame(s@.skip(at as int), max_frame_size) == Err::<
                (HttpFrameView, nat),
                Error,
            >(e),
        },
{
    let raw = match raw_frame_at(s, at, max_frame_size) {
        Ok(raw) => raw,
        Err(e) => {
            return Err(e);
        },
    };
    let n: usize = raw.raw_content.len();
    proof {
        lemma_fragment_len(raw@);
    }
    match HttpFrame::from_raw(&raw) {
        Ok(frame) => Ok((frame, n)),
        Err(e) => Err(Error::ParseFrameError(e)),
    }
}

/// Receives one frame, not decoded.
pub fn recv_raw_frame(read: &mut ByteReader, max_frame_size: u32) -> (r: Result<RawFrame, Error>)
    ensures
        result_view(r) == spec_recv_raw_frame(old(read).remaining(), max_frame_size),
        final(read).remaining() == (match r {
            Ok(raw) => old(read).remaining().skip(raw@.len() as int),
            Err(_) => old(read).remaining(),
        }),
{
    let r = raw_frame_at(read.rest(), 0, max_frame_size);
    assert(read.remaining().skip(0) =~= read.remaining());
    match r {
        Ok(raw) => {
            let n: usize = raw.raw_content.len();
            read.advance(n);
            Ok(raw)
        },
        Err(e) => Err(e),
    }
}

/// Receives one frame, not decoded, from bytes that are all there.
pub fn recv_raw_frame_sync(read: &mut ByteReader, max_frame_size: u32) -> (r: Result<
    RawFrame,
    Error,
>)
    ensures
        result_view(r) == spec_recv_raw_frame(old(read).remaining(), max_frame_size),
        final(read).remaining() == (match r {
            Ok(raw) => old(read).remaining().skip(raw@.len() as int),
            Err(_) => old(read).remaining(),
        }),
{
    recv_raw_frame(read, max_frame_size)
}

/// Receives one frame and decodes it.
pub fn recv_http_frame(read: &mut ByteReader, max_frame_size: u32) -> (r: Result<HttpFrame, Error>)
    ensures
        result_view(r) == frame_of(spec_recv_http_frame(old(read).remaining(), max_frame_size)),
        final(read).remaining() == rest_after(
            old(read).remaining(),
            spec_recv_http_frame(old(read).remaining(), max_frame_size),
        ),
{
    let r = http_frame_at(read.rest(), 0, max_frame_size);
    assert(read.remaining().skip(0) =~= read.remaining());
    match r {
        Ok((frame, n)) => {
            read.advance(n);
            Ok(frame)
        },
        Err(e) => Err(e),
    }
}

/// Receives one frame, which has to be SETTINGS.
pub fn recv_settings_frame(read: &mut ByteReader, max_frame_size: u32) -> (r: Result<
    SettingsFrame,
    Error,
>)
    ensures
        result_view(r) == frame_of(spec_recv_settings_frame(old(read).remaining(), max_frame_size)),
        final(read).remaining() == rest_after(
            old(read).remaining(),
            spec_recv_settings_frame(old(read).remaining(), max_frame_size),
        ),
{
    let r = http_frame_at(read.rest(), 0, max_frame_size);
    assert(read.remaining().skip(0) =~= read.remaining());
    match r {
        Ok((frame, n)) => match frame {
            HttpFrame::Settings(f) => {
                read.advance(n);
                Ok(f)
            },
            f => Err(Error::InvalidFrame(InvalidFrame::ExpectedSettings(f.frame_type()))),
        },
        Err(e) => Err(e),
    }
}

/// The SETTINGS acknowledgement that stands first in `input`. Settings
/// that acknowledge nothing are refused.
pub open spec fn spec_recv_settings_frame_ack(input: Seq<u8>, max_frame_size: u32) -> Result<
    (SettingsFrameView, nat),
    Error,
> {
    match spec_recv_settings_frame(input, max_frame_size) {
        Err(e) => Err(e),
        Ok((f, n)) => if f.is_ack() {
            Ok((f, n))
        } else {
            Err(Error::InvalidFrame(InvalidFrame::ExpectedSettingsAck))
        },
    }
}

/// The settings that stand first in `input`. An acknowledgement is
/// refused.
pub open spec fn spec_recv_settings_frame_set(input: Seq<u8>, max_frame_size: u32) -> Result<
    (SettingsFrameView, nat),
    Error,
> {
    match spec_recv_settings_frame(input, max_frame_size) {
        Err(e) => Err(e),
        Ok((f, n)) => if !f.is_ack() {
            Ok((f, n))
        } else {
            Err(Error::InvalidFrame(InvalidFrame::ExpectedSettingsWithoutAck))
        },
    }
}

/// Receives one frame, which has to be a SETTINGS acknowledgement.
pub fn recv_settings_frame_ack(read: &mut ByteReader, max_frame_size: u32) -> (r: Result<
    SettingsFrame,
    Error,
>)
    ensures
        result_view(r) == frame_of(
            spec_recv_settings_frame_ack(old(read).remaining(), max_frame_size),
        ),
        final(read).remaining() == rest_after(
            old(read).remaining(),
            spec_recv_settings_frame_ack(old(read).remaining(), max_frame_size),
        ),
{
    let r = http_frame_at(read.rest(), 0, max_frame_size);
    assert(read.remaining().skip(0) =~= read.remaining());
    match r {
        Ok((frame, n)) => match frame {
            HttpFrame::Settings(f) => {
                if f.is_ack() {
                    read.advance(n);
                    Ok(f)
                } else {
                    Err(Error::InvalidFrame(InvalidFrame::ExpectedSettingsAck))
                }
            },
            f => Err(Error::InvalidFrame(InvalidFrame::ExpectedSettings(f.frame_type()))),
        },
        Err(e) => Err(e),
    }
}

/// Receives one frame, which has to be SETTINGS and no acknowledgement.
pub fn recv_settings_frame_set(read: &mut ByteReader, max_frame_size: u32) -> (r: Result<
    SettingsFrame,
    Error,
>)
    ensures
        result_view(r) == frame_of(
            spec_recv_settings_frame_set(old(read).remaining(), max_frame_size),
        ),
        final(read).remaining() == rest_after(
            old(read).remaining(),
            spec_recv_settings_frame_set(old(read).remaining(), max_frame_size),
        ),
{
    let r = http_frame_at(read.rest(), 0, max_frame_size);
    assert(read.remaining().skip(0) =~= read.remaining());
    match r {
        Ok((frame, n)) => match frame {
            HttpFrame::Settings(f) => {
                if !f.is_ack() {
                    read.advance(n);
                    Ok(f)
                } else {
                    Err(Error::InvalidFrame(InvalidFrame::ExpectedSettingsWithoutAck))
                }
            },
            f => Err(Error::InvalidFrame(InvalidFrame::ExpectedSettings(f.frame_type()))),
        },
        Err(e) => Err(e),
    }
}

/// The next frame of `input` that is no part of a header block, or the
/// next header block as one frame, together with the number of bytes taken.
/// `pending` is the header block that is open where `input` starts, if one
/// is.
///
/// Frames are received one by one. Each is taken into account as
/// [`spec_join_step`] says, until one is handed on or an error stops the
/// reading.
pub open spec fn spec_recv_http_frame_join_cont(
    input: Seq<u8>,
    max_frame_size: u32,
    pending: Option<ContinuableFrameView>,
) -> Result<(HttpFrameView, nat), Error>
    decreases input.len(),
{
    match spec_recv_http_frame(input, max_frame_size) {
        Err(e) => Err(e),
        Ok((frame, n)) => match spec_join_step(pending, frame) {
            Err(e) => Err(e),
            Ok(JoinStepView::Break(f)) => Ok((f, n)),
            Ok(JoinStepView::Continue(p)) => match spec_recv_http_frame_join_cont(
                input.skip(n as int),
                max_frame_size,
                Some(p),
            ) {
                Err(e) => Err(e),
                Ok((f, m)) => Ok((f, n + m)),
            },
        },
    }
}

/// A received frame with `at` bytes more counted as taken.
pub open spec fn taken_more(r: Result<(HttpFrameView, nat), Error>, at: nat) -> Result<
    (HttpFrameView, nat),
    Error,
> {
    match r {
        Ok((f, n)) => Ok((f, n + at)),
        Err(e) => Err(e),
    }
}

/// Length of the piece of a header block that a frame holds.
pub open spec fn fragment_len(f: HttpFrameView) -> nat {
    match f {
        HttpFrameView::Headers(h) => h.header_fragment.len(),
        HttpFrameView::PushPromise(p) => p.header_fragment.len(),
        HttpFrameView::Continuation(c) => c.header_fragment.len(),
        _ => 0,
    }
}

/// The piece of a header block that a frame holds is shorter than the
/// frame.
pub proof fn lemma_fragment_len(raw: Seq<u8>)
    ensures
        spec_http_frame_from_raw(raw) matches Ok(f) ==> fragment_len(f) + 9 <= raw.len(),
{
    reveal(spec_http_frame_from_raw);
}

/// The next frame or whole header block that stands in `s`.
fn join_cont_in(s: &[u8], max_frame_size: u32) -> (r: Result<(HttpFrame, usize), Error>)
    ensures
        match r {
            Ok((frame, n)) => spec_recv_http_frame_join_cont(s@, max_frame_size, None) == Ok::<
                (HttpFrameView, nat),
                Error,
            >((frame@, n as nat)) && n <= s@.len(),
            Err(e) => spec_recv_http_frame_join_cont(s@, max_frame_size, None) == Err::<
                (HttpFrameView, nat),
                Error,
            >(e),
        },
{
    let mut at: usize = 0;
    let mut pending: Option<ContinuableFrame> = None;
    let len: usize = s.len();
    assert(s@.skip(0) =~= s@);
    loop
        invariant
            at <= s@.len(),
            spec_recv_http_frame_join_cont(s@, max_frame_size, None) == taken_more(
                spec_recv_http_frame_join_cont(
                    s@.skip(at as int),
                    max_frame_size,
                    option_view(pending),
                ),
                at as nat,
            ),
            pending matches Some(p) ==> p@.header_fragment().len() <= at,
            s@.len() <= usize::MAX,
        decreases s@.len() - at,
    {
        let ghost input = s@.skip(at as int);
        let (frame, n) = match http_frame_at(s, at, max_frame_size) {
            Ok(got) => got,
            Err(e) => {
                return Err(e);
            },
        };
        proof {
            assert(input.skip(n as int) =~= s@.skip(at + n));
        }
        match join_cont_step(pending, frame) {
            Err(e) => {
                return Err(e);
            },
            Ok(JoinStep::Break(f)) => {
                return Ok((f, at + n));
            },
            Ok(JoinStep::Continue(p)) => {
                pending = Some(p);
                at = at + n;
            },
        }
    }
}

/// Receives one frame, joining CONTINUATION frames to the HEADERS or
/// PUSH_PROMISE frame that they continue.
pub fn recv_http_frame_join_cont(read: &mut ByteReader, max_frame_size: u32) -> (r: Result<
    HttpFrame,
    Error,
>)
    ensures
        result_view(r) == frame_of(
            spec_recv_http_frame_join_cont(old(read).remaining(), max_frame_size, None),
        ),
        final(read).remaining() == rest_after(
            old(read).remaining(),
            spec_recv_http_frame_join_cont(old(read).remaining(), max_frame_size, None),
        ),
{
    match join_cont_in(read.rest(), max_frame_size) {
        Ok((frame, n)) => {
            read.advance(n);
            Ok(frame)
        },
        Err(e) => Err(e),
    }
}

/// Appends the bytes of a frame that is not decoded to what is to be
/// written.
pub fn send_raw_frame(write: &mut Vec<u8>, frame: &RawFrame)
    ensures
        final(write)@ == old(write)@ + frame@,
{
    write.extend_from_slice(frame.as_slice());
}

/// Appends the bytes of a frame to what is to be written.
pub fn send_frame(write: &mut Vec<u8>, frame: &HttpFrame)
    requires
        frame@.fits(),
    ensures
        final(write)@ == old(write)@ + frame@.wire_bytes(),
{
    let buf = frame.serialize_into_vec();
    write.extend_from_slice(buf.as_slice());
}

} // verus!
