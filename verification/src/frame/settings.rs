//! SETTINGS frames.

use crate::error::ParseFrameError;
use crate::frame::flags::{has_flag, is_set, ACK};
use crate::frame::header::{
    frame_bytes, lemma_frame_bytes, push_header, result_view, spec_checked_header, FrameHeader,
    RawFrame, MAX_PAYLOAD_LEN,
};
use crate::wire::{
    be16, be32, bytes16, bytes32, lemma_be16_in, lemma_be32_in, push_u16, push_u32, read_u16,
    read_u32,
};
use vstd::prelude::*;

verus! {

/// Type code of SETTINGS.
pub const SETTINGS_FRAME_TYPE: u8 = 0x4;

/// The largest flow-control window, 2^31 - 1.
pub const MAX_WINDOW_SIZE: u32 = 0x7fff_ffff;

/// The smallest value of SETTINGS_MAX_FRAME_SIZE, 2^14.
pub const MIN_MAX_FRAME_SIZE: u32 = 0x4000;

/// The largest value of SETTINGS_MAX_FRAME_SIZE, 2^24 - 1.
pub const MAX_MAX_FRAME_SIZE: u32 = 0xff_ffff;

/// One setting: an identifier and a value.
#[derive(Clone, Copy, Debug, PartialEq, Eq, Structural)]
pub enum HttpSetting {
    HeaderTableSize(u32),
    EnablePush(bool),
    MaxConcurrentStreams(u32),
    InitialWindowSize(u32),
    MaxFrameSize(u32),
    MaxHeaderListSize(u32),
    /// A setting that this library gives no meaning to. It is kept as it
    /// came.
    Unknown(u16, u32),
}

impl HttpSetting {
    /// The identifier of the setting on the wire.
    pub open spec fn id(self) -> u16 {
        match self {
            HttpSetting::HeaderTableSize(_) => 1,
            HttpSetting::EnablePush(_) => 2,
            HttpSetting::MaxConcurrentStreams(_) => 3,
            HttpSetting::InitialWindowSize(_) => 4,
            HttpSetting::MaxFrameSize(_) => 5,
            HttpSetting::MaxHeaderListSize(_) => 6,
            HttpSetting::Unknown(id, _) => id,
        }
    }

    /// The value of the setting on the wire.
    pub open spec fn value(self) -> u32 {
        match self {
            HttpSetting::HeaderTableSize(v) => v,
            HttpSetting::EnablePush(on) => if on {
                1
            } else {
                0
            },
            HttpSetting::MaxConcurrentStreams(v) => v,
            HttpSetting::InitialWindowSize(v) => v,
            HttpSetting::MaxFrameSize(v) => v,
            HttpSetting::MaxHeaderListSize(v) => v,
            HttpSetting::Unknown(_, v) => v,
        }
    }

    /// The value is one that the setting may have, and a setting without a
    /// meaning has an identifier without a meaning.
    pub open spec fn wf(self) -> bool {
        match self {
            HttpSetting::InitialWindowSize(v) => v <= MAX_WINDOW_SIZE,
            HttpSetting::MaxFrameSize(v) => MIN_MAX_FRAME_SIZE <= v <= MAX_MAX_FRAME_SIZE,
            HttpSetting::Unknown(id, _) => id == 0 || id > 6,
            _ => true,
        }
    }

    /// The six bytes of the setting.
    pub open spec fn wire_bytes(self) -> Seq<u8> {
        bytes16(self.id() as int) + bytes32(self.value() as int)
    }

    /// The setting that an identifier and a value make, or why they make
    /// none.
    pub open spec fn spec_from_id(id: u16, value: u32) -> Result<HttpSetting, ParseFrameError> {
        if id == 1 {
            Ok(HttpSetting::HeaderTableSize(value))
        } else if id == 2 {
            if value == 0 {
                Ok(HttpSetting::EnablePush(false))
            } else if value == 1 {
                Ok(HttpSetting::EnablePush(true))
            } else {
                Err(ParseFrameError::IncorrectSettingsPushValue)
            }
        } else if id == 3 {
            Ok(HttpSetting::MaxConcurrentStreams(value))
        } else if id == 4 {
            if value <= MAX_WINDOW_SIZE {
                Ok(HttpSetting::InitialWindowSize(value))
            } else {
                Err(ParseFrameError::IncorrectSettingsWindowSize)
            }
        } else if id == 5 {
            if MIN_MAX_FRAME_SIZE <= value <= MAX_MAX_FRAME_SIZE {
                Ok(HttpSetting::MaxFrameSize(value))
            } else {
                Err(ParseFrameError::IncorrectSettingsMaxFrameSize)
            }
        } else if id == 6 {
            Ok(HttpSetting::MaxHeaderListSize(value))
        } else {
            Ok(HttpSetting::Unknown(id, value))
        }
    }

    /// The setting that the six bytes at `i` spell.
    pub open spec fn spec_parse(s: Seq<u8>, i: int) -> Result<HttpSetting, ParseFrameError> {
        HttpSetting::spec_from_id(be16(s, i) as u16, be32(s, i + 2) as u32)
    }

    /// A setting is made again from its identifier and its value.
    pub proof fn lemma_from_id(self)
        requires
            self.wf(),
        ensures
            HttpSetting::spec_from_id(self.id(), self.value()) == Ok::<
                HttpSetting,
                ParseFrameError,
            >(self),
    {
    }

    /// The identifier of the setting on the wire.
    pub fn get_id(&self) -> (r: u16)
        ensures
            r == self.id(),
    {
        match self {
            HttpSetting::HeaderTableSize(_) => 1,
            HttpSetting::EnablePush(_) => 2,
            HttpSetting::MaxConcurrentStreams(_) => 3,
            HttpSetting::InitialWindowSize(_) => 4,
            HttpSetting::MaxFrameSize(_) => 5,
            HttpSetting::MaxHeaderListSize(_) => 6,
            HttpSetting::Unknown(id, _) => *id,
        }
    }

    /// The value of the setting on the wire.
    pub fn get_val(&self) -> (r: u32)
        ensures
            r == self.value(),
    {
        match self {
            HttpSetting::HeaderTableSize(v) => *v,
            HttpSetting::EnablePush(on) => if *on {
                1
            } else {
                0
            },
            HttpSetting::MaxConcurrentStreams(v) => *v,
            HttpSetting::InitialWindowSize(v) => *v,
            HttpSetting::MaxFrameSize(v) => *v,
            HttpSetting::MaxHeaderListSize(v) => *v,
            HttpSetting::Unknown(_, v) => *v,
        }
    }

    /// Makes a setting from an identifier and a value.
    pub fn from_id(id: u16, value: u32) -> (r: Result<HttpSetting, ParseFrameError>)
        ensures
            r == HttpSetting::spec_from_id(id, value),
    {
        match id {
            1 => Ok(HttpSetting::HeaderTableSize(value)),
            2 => {
                if value == 0 {
                    Ok(HttpSetting::EnablePush(false))
                } else if value == 1 {
                    Ok(HttpSetting::EnablePush(true))
                } else {
                    Err(ParseFrameError::IncorrectSettingsPushValue)
                }
            },
            3 => Ok(HttpSetting::MaxConcurrentStreams(value)),
            4 => {
                if value <= MAX_WINDOW_SIZE {
                    Ok(HttpSetting::InitialWindowSize(value))
                } else {
                    Err(ParseFrameError::IncorrectSettingsWindowSize)
                }
            },
            5 => {
                if MIN_MAX_FRAME_SIZE <= value && value <= MAX_MAX_FRAME_SIZE {
                    Ok(HttpSetting::MaxFrameSize(value))
                } else {
                    Err(ParseFrameError::IncorrectSettingsMaxFrameSize)
                }
            },
            6 => Ok(HttpSetting::MaxHeaderListSize(value)),
            _ => Ok(HttpSetting::Unknown(id, value)),
        }
    }
}

/// The bytes of a list of settings, one after the other.
pub open spec fn settings_bytes(s: Seq<HttpSetting>) -> Seq<u8>
    decreases s.len(),
{
    if s.len() == 0 {
        Seq::empty()
    } else {
        settings_bytes(s.drop_last()) + s.last().wire_bytes()
    }
}

/// The first `n` settings that a payload spells, or the first reason why
/// one of them is none.
pub open spec fn spec_parse_settings(p: Seq<u8>, n: nat) -> Result<
    Seq<HttpSetting>,
    ParseFrameError,
>
    decreases n,
{
    if n == 0 {
        Ok(Seq::empty())
    } else {
        match spec_parse_settings(p, (n - 1) as nat) {
            Err(e) => Err(e),
            Ok(v) => match HttpSetting::spec_parse(p, 6 * (n - 1)) {
                Err(e) => Err(e),
                Ok(s) => Ok(v.push(s)),
            },
        }
    }
}

/// Every setting of the list may stand on the wire.
pub open spec fn all_settings_wf(s: Seq<HttpSetting>) -> bool {
    forall|i: int| 0 <= i < s.len() ==> (#[trigger] s[i]).wf()
}

/// A list of settings takes six bytes for each.
pub proof fn lemma_settings_bytes_len(s: Seq<HttpSetting>)
    ensures
        settings_bytes(s).len() == 6 * s.len(),
    decreases s.len(),
{
    if s.len() > 0 {
        lemma_settings_bytes_len(s.drop_last());
    }
}

/// A reason found among the first settings stays the reason when more are
/// read.
pub proof fn lemma_parse_settings_err(p: Seq<u8>, k: nat, n: nat)
    requires
        k <= n,
        spec_parse_settings(p, k) is Err,
    ensures
        spec_parse_settings(p, n) == spec_parse_settings(p, k),
    decreases n,
{
    if k < n {
        lemma_parse_settings_err(p, k, (n - 1) as nat);
    }
}

/// The first `n` settings are spelled by the first `6 n` bytes alone.
pub proof fn lemma_parse_settings_prefix(a: Seq<u8>, b: Seq<u8>, n: nat)
    requires
        6 * n <= a.len(),
    ensures
        spec_parse_settings(a + b, n) == spec_parse_settings(a, n),
    decreases n,
{
    if n > 0 {
        lemma_parse_settings_prefix(a, b, (n - 1) as nat);
        let i: int = 6 * (n - 1);
        let s = a + b;
        assert(s[i] == a[i] && s[i + 1] == a[i + 1] && s[i + 2] == a[i + 2] && s[i + 3] == a[i
            + 3] && s[i + 4] == a[i + 4] && s[i + 5] == a[i + 5]);
    }
}

/// A list of settings is read back from its bytes.
pub proof fn lemma_settings_roundtrip(s: Seq<HttpSetting>)
    requires
        all_settings_wf(s),
    ensures
        spec_parse_settings(settings_bytes(s), s.len()) == Ok::<Seq<HttpSetting>, ParseFrameError>(
            s,
        ),
    decreases s.len(),
{
    if s.len() > 0 {
        let init = s.drop_last();
        let last = s.last();
        let n: nat = s.len();
        assert(all_settings_wf(init)) by {
            assert forall|i: int| 0 <= i < init.len() implies (#[trigger] init[i]).wf() by {
                assert(init[i] == s[i]);
            }
        }
        lemma_settings_roundtrip(init);
        lemma_settings_bytes_len(init);
        lemma_parse_settings_prefix(settings_bytes(init), last.wire_bytes(), (n - 1) as nat);
        let pre = settings_bytes(init);
        let all = settings_bytes(s);
        lemma_be16_in(pre, last.id() as int, bytes32(last.value() as int));
        lemma_be32_in(pre + bytes16(last.id() as int), last.value() as int, Seq::empty());
        assert(all =~= pre + bytes16(last.id() as int) + bytes32(last.value() as int));
        assert(all =~= pre + bytes16(last.id() as int) + bytes32(last.value() as int)
            + Seq::<u8>::empty());
        assert((pre + bytes16(last.id() as int)).len() == 6 * (n - 1) + 2);
        assert(s[n - 1].wf());
        last.lemma_from_id();
        assert(init.push(last) =~= s);
        assert(all == pre + last.wire_bytes());
        assert(spec_parse_settings(all, (n - 1) as nat) == Ok::<Seq<HttpSetting>, ParseFrameError>(
            init,
        ));
        assert(be16(all, 6 * (n - 1)) == last.id());
        assert(be32(all, 6 * (n - 1) + 2) == last.value());
        assert(HttpSetting::spec_parse(all, 6 * (n - 1)) == Ok::<HttpSetting, ParseFrameError>(
            last,
        ));
    } else {
        assert(s =~= Seq::empty());
    }
}

/// The settings that are read from a payload are as many as were asked
/// for, and each has a value that it may have.
pub proof fn lemma_parsed_settings_wf(p: Seq<u8>, n: nat)
    ensures
        spec_parse_settings(p, n) matches Ok(v) ==> v.len() == n && all_settings_wf(v),
    decreases n,
{
    if n > 0 {
        lemma_parsed_settings_wf(p, (n - 1) as nat);
    }
}

/// A SETTINGS frame: settings of the sender, or the acknowledgement of
/// settings received.
#[derive(Clone, Debug, PartialEq, Eq)]
pub struct SettingsFrame {
    pub flags: u8,
    pub settings: Vec<HttpSetting>,
}

/// What a SETTINGS frame holds.
pub struct SettingsFrameView {
    pub flags: u8,
    pub settings: Seq<HttpSetting>,
}

impl View for SettingsFrame {
    type V = SettingsFrameView;

    open spec fn view(&self) -> SettingsFrameView {
        SettingsFrameView { flags: self.flags, settings: self.settings@ }
    }
}

impl SettingsFrameView {
    /// The frame acknowledges settings.
    pub open spec fn is_ack(self) -> bool {
        has_flag(self.flags, ACK)
    }

    /// The payload on the wire.
    pub open spec fn payload(self) -> Seq<u8> {
        settings_bytes(self.settings)
    }

    /// The header on the wire.
    pub open spec fn header(self) -> FrameHeader {
        FrameHeader {
            length: self.payload().len() as u32,
            frame_type: SETTINGS_FRAME_TYPE,
            flags: self.flags,
            stream_id: 0,
        }
    }

    /// The frame as bytes.
    pub open spec fn wire_bytes(self) -> Seq<u8> {
        frame_bytes(self.header(), self.payload())
    }

    /// The frame can stand on the wire and be read back as it is: its
    /// settings fit a frame and have values that they may have, and an
    /// acknowledgement has none.
    pub open spec fn wf(self) -> bool {
        &&& 6 * self.settings.len() <= MAX_PAYLOAD_LEN
        &&& all_settings_wf(self.settings)
        &&& self.is_ack() ==> self.settings.len() == 0
    }
}

/// The SETTINGS frame that a header and a payload make.
pub open spec fn spec_parse_settings_frame(h: FrameHeader, payload: Seq<u8>) -> Result<
    SettingsFrameView,
    ParseFrameError,
> {
    if h.stream_id != 0 {
        Err(ParseFrameError::StreamIdMustBeZero)
    } else if has_flag(h.flags, ACK) && payload.len() != 0 {
        Err(ParseFrameError::IncorrectPayloadLen)
    } else if payload.len() % 6 != 0 {
        Err(ParseFrameError::IncorrectPayloadLen)
    } else {
        match spec_parse_settings(payload, payload.len() / 6) {
            Err(e) => Err(e),
            Ok(settings) => Ok(SettingsFrameView { flags: h.flags, settings }),
        }
    }
}

/// The SETTINGS frame that the bytes of a whole frame spell.
pub open spec fn spec_settings_from_raw(s: Seq<u8>) -> Result<SettingsFrameView, ParseFrameError> {
    match spec_checked_header(s) {
        Err(e) => Err(e),
        Ok(h) => if h.frame_type != SETTINGS_FRAME_TYPE {
            Err(ParseFrameError::UnexpectedFrameType)
        } else {
            spec_parse_settings_frame(h, s.skip(9))
        },
    }
}

/// A SETTINGS frame is read back from its bytes.
pub proof fn lemma_settings_frame_roundtrip(f: SettingsFrameView)
    requires
        f.wf(),
    ensures
        spec_settings_from_raw(f.wire_bytes()) == Ok::<SettingsFrameView, ParseFrameError>(f),
{
    lemma_settings_bytes_len(f.settings);
    lemma_frame_bytes(f.header(), f.payload());
    lemma_settings_roundtrip(f.settings);
    let n: nat = f.settings.len();
    let p = f.payload();
    assert(p.len() == 6 * n);
    assert((6 * n) % 6 == 0 && (6 * n) / 6 == n) by (nonlinear_arith);
}

impl SettingsFrame {
    /// A frame that holds no settings yet.
    pub fn new() -> (f: SettingsFrame)
        ensures
            f@ == (SettingsFrameView { flags: 0, settings: Seq::empty() }),
            !f@.is_ack(),
    {
        assert(0u8 & 1u8 == 0) by (bit_vector);
        SettingsFrame { flags: 0, settings: Vec::new() }
    }

    /// The acknowledgement of settings received.
    pub fn new_ack() -> (f: SettingsFrame)
        ensures
            f@ == (SettingsFrameView { flags: ACK, settings: Seq::empty() }),
            f@.is_ack(),
            f@.wf(),
    {
        assert(1u8 & 1u8 != 0) by (bit_vector);
        SettingsFrame { flags: ACK, settings: Vec::new() }
    }

    /// Adds a setting behind those that the frame holds.
    pub fn add_setting(&mut self, setting: HttpSetting)
        ensures
            final(self)@ == (SettingsFrameView {
                flags: old(self).flags,
                settings: old(self).settings@.push(setting),
            }),
    {
        self.settings.push(setting);
    }

    /// Tells whether the frame acknowledges settings.
    pub fn is_ack(&self) -> (r: bool)
        ensures
            r == self@.is_ack(),
    {
        is_set(self.flags, ACK)
    }

    /// Decodes a SETTINGS frame.
    pub fn from_raw(raw: &RawFrame) -> (r: Result<SettingsFrame, ParseFrameError>)
        ensures
            result_view(r) == spec_settings_from_raw(raw@),
    {
        let h = match raw.checked_header() {
            Ok(h) => h,
            Err(e) => {
                return Err(e);
            },
        };
        if h.frame_type != SETTINGS_FRAME_TYPE {
            return Err(ParseFrameError::UnexpectedFrameType);
        }
        if h.stream_id != 0 {
            return Err(ParseFrameError::StreamIdMustBeZero);
        }
        let s = raw.as_slice();
        let payload_len: usize = s.len() - 9;
        if is_set(h.flags, ACK) && payload_len != 0 {
            return Err(ParseFrameError::IncorrectPayloadLen);
        }
        if payload_len % 6 != 0 {
            return Err(ParseFrameError::IncorrectPayloadLen);
        }
        let n: usize = payload_len / 6;
        let ghost payload = raw@.skip(9);
        let mut settings: Vec<HttpSetting> = Vec::new();
        let mut i: usize = 0;
        while i < n
            invariant
                i <= n,
                s@ == raw@,
                payload == raw@.skip(9),
                payload.len() == 6 * n,
                raw@.len() == 9 + 6 * n,
                raw@.len() <= 9 + MAX_PAYLOAD_LEN,
                payload.len() / 6 == n,
                payload.len() % 6 == 0,
                h.stream_id == 0,
                h.frame_type == SETTINGS_FRAME_TYPE,
                spec_checked_header(raw@) == Ok::<FrameHeader, ParseFrameError>(h),
                !(has_flag(h.flags, ACK) && payload.len() != 0),
                spec_parse_settings(payload, i as nat) == Ok::<Seq<HttpSetting>, ParseFrameError>(
                    settings@,
                ),
            decreases n - i,
        {
            let at: usize = 9 + 6 * i;
            let id: u16 = read_u16(s, at);
            let value: u32 = read_u32(s, at + 2);
            assert(be16(payload, 6 * i) == be16(raw@, at as int));
            assert(be32(payload, 6 * i + 2) == be32(raw@, at + 2));
            match HttpSetting::from_id(id, value) {
                Ok(setting) => {
                    settings.push(setting);
                },
                Err(e) => {
                    proof {
                        assert(spec_parse_settings(payload, (i + 1) as nat) == Err::<
                            Seq<HttpSetting>,
                            ParseFrameError,
                        >(e));
                        lemma_parse_settings_err(payload, (i + 1) as nat, n as nat);
                        assert(spec_parse_settings_frame(h, payload) == Err::<
                            SettingsFrameView,
                            ParseFrameError,
                        >(e));
                    }
                    return Err(e);
                },
            }
            i = i + 1;
        }
        Ok(SettingsFrame { flags: h.flags, settings })
    }

    /// Encodes the frame.
    pub fn serialize_into_vec(&self) -> (out: Vec<u8>)
        requires
            6 * self@.settings.len() <= MAX_PAYLOAD_LEN,
        ensures
            out@ == self@.wire_bytes(),
    {
        proof {
            lemma_settings_bytes_len(self@.settings);
        }
        let n: usize = self.settings.len();
        let h = FrameHeader {
            length: (6 * n) as u32,
            frame_type: SETTINGS_FRAME_TYPE,
            flags: self.flags,
            stream_id: 0,
        };
        let mut out: Vec<u8> = Vec::new();
        push_header(&mut out, &h);
        let ghost head = out@;
        let mut i: usize = 0;
        while i < n
            invariant
                i <= n,
                n == self.settings@.len(),
                out@ == head + settings_bytes(self.settings@.take(i as int)),
            decreases n - i,
        {
            let ghost before = out@;
            let setting = &self.settings[i];
            push_u16(&mut out, setting.get_id());
            push_u32(&mut out, setting.get_val());
            proof {
                let t = self.settings@.take(i + 1);
                assert(t.drop_last() =~= self.settings@.take(i as int));
                assert(t.last() == self.settings@[i as int]);
                assert(out@ =~= head + settings_bytes(t));
            }
            i = i + 1;
        }
        assert(self.settings@.take(n as int) =~= self.settings@);
        out
    }
}

} // verus!
