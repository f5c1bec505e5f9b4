//! The settings of one side of a connection.

use crate::frame::settings::{
    all_settings_wf, HttpSetting, MAX_MAX_FRAME_SIZE, MAX_WINDOW_SIZE, MIN_MAX_FRAME_SIZE,
};
use vstd::prelude::*;

verus! {

/// The settings that one side has announced, with the values that hold
/// where it has announced none.
#[derive(Clone, Copy, Debug, PartialEq, Eq)]
pub struct Settings {
    pub header_table_size: u32,
    pub enable_push: bool,
    /// No limit where none was announced.
    pub max_concurrent_streams: Option<u32>,
    pub initial_window_size: u32,
    pub max_frame_size: u32,
    /// No limit where none was announced.
    pub max_header_list_size: Option<u32>,
}

impl Settings {
    /// The settings that hold before any SETTINGS frame.
    pub open spec fn spec_default() -> Settings {
        Settings {
            header_table_size: 4096,
            enable_push: true,
            max_concurrent_streams: None,
            initial_window_size: 65_535,
            max_frame_size: 16_384,
            max_header_list_size: None,
        }
    }

    /// The window and the frame size are ones that SETTINGS may announce.
    pub open spec fn wf(self) -> bool {
        &&& self.initial_window_size <= MAX_WINDOW_SIZE
        &&& MIN_MAX_FRAME_SIZE <= self.max_frame_size <= MAX_MAX_FRAME_SIZE
    }

    /// The settings after one setting was announced. One without a meaning
    /// changes nothing.
    pub open spec fn spec_apply(self, setting: HttpSetting) -> Settings {
        match setting {
            HttpSetting::HeaderTableSize(v) => Settings { header_table_size: v, ..self },
            HttpSetting::EnablePush(on) => Settings { enable_push: on, ..self },
            HttpSetting::MaxConcurrentStreams(v) => Settings {
                max_concurrent_streams: Some(v),
                ..self
            },
            HttpSetting::InitialWindowSize(v) => Settings { initial_window_size: v, ..self },
            HttpSetting::MaxFrameSize(v) => Settings { max_frame_size: v, ..self },
            HttpSetting::MaxHeaderListSize(v) => Settings { max_header_list_size: Some(v), ..self },
            HttpSetting::Unknown(_, _) => self,
        }
    }

    /// The settings after a list of settings was announced, first to last.
    pub open spec fn spec_apply_all(self, settings: Seq<HttpSetting>) -> Settings
        decreases settings.len(),
    {
        if settings.len() == 0 {
            self
        } else {
            self.spec_apply_all(settings.drop_last()).spec_apply(settings.last())
        }
    }

    /// The settings that hold before any SETTINGS frame.
    pub fn new() -> (s: Settings)
        ensures
            s == Settings::spec_default(),
            s.wf(),
    {
        Settings {
            header_table_size: 4096,
            enable_push: true,
            max_concurrent_streams: None,
            initial_window_size: 65_535,
            max_frame_size: 16_384,
            max_header_list_size: None,
        }
    }

    /// Takes one announced setting into account.
    pub fn apply(&mut self, setting: HttpSetting)
        ensures
            *final(self) == old(self).spec_apply(setting),
            old(self).wf() && setting.wf() ==> final(self).wf(),
    {
        match setting {
            HttpSetting::HeaderTableSize(v) => {
                self.header_table_size = v;
            },
            HttpSetting::EnablePush(on) => {
                self.enable_push = on;
            },
            HttpSetting::MaxConcurrentStreams(v) => {
                self.max_concurrent_streams = Some(v);
            },
            HttpSetting::InitialWindowSize(v) => {
                self.initial_window_size = v;
            },
            HttpSetting::MaxFrameSize(v) => {
                self.max_frame_size = v;
            },
            HttpSetting::MaxHeaderListSize(v) => {
                self.max_header_list_size = Some(v);
            },
            HttpSetting::Unknown(_, _) => {},
        }
    }

    /// Takes a list of announced settings into account, first to last.
    pub fn apply_all(&mut self, settings: &Vec<HttpSetting>)
        ensures
            *final(self) == old(self).spec_apply_all(settings@),
            old(self).wf() && all_settings_wf(settings@) ==> final(self).wf(),
    {
        let n: usize = settings.len();
        let mut i: usize = 0;
        assert(settings@.take(0) =~= Seq::empty());
        while i < n
            invariant
                i <= n,
                n == settings@.len(),
                *self == old(self).spec_apply_all(settings@.take(i as int)),
                old(self).wf() && all_settings_wf(settings@) ==> self.wf(),
            decreases n - i,
        {
            proof {
                let t = settings@.take(i + 1);
                assert(t.drop_last() =~= settings@.take(i as int));
                assert(t.last() == settings@[i as int]);
            }
            self.apply(settings[i]);
            i = i + 1;
        }
        assert(settings@.take(n as int) =~= settings@);
    }

    /// Applying valid settings to valid settings gives valid settings.
    pub proof fn lemma_apply_all_wf(self, settings: Seq<HttpSetting>)
        requires
            self.wf(),
            all_settings_wf(settings),
        ensures
            self.spec_apply_all(settings).wf(),
        decreases settings.len(),
    {
        if settings.len() > 0 {
            let init = settings.drop_last();
            assert forall|i: int| 0 <= i < init.len() implies (#[trigger] init[i]).wf() by {
                assert(init[i] == settings[i]);
            }
            self.lemma_apply_all_wf(init);
            assert(settings[settings.len() - 1].wf());
        }
    }
}

} // verus!
