//! Flow-control windows.
//!
//! A window counts the payload bytes of DATA frames that one side may still
//! send. Sending takes from it, WINDOW_UPDATE adds to it, and a change of
//! SETTINGS_INITIAL_WINDOW_SIZE moves the send window of every stream by
//! the difference, which may leave it below zero until credit comes back.
//! No window ever exceeds 2^31 - 1.

use crate::error::ErrorCode;
use crate::frame::settings::MAX_WINDOW_SIZE;
use vstd::prelude::*;

verus! {

/// The window that a stream and a connection start with, unless SETTINGS
/// say otherwise.
pub const DEFAULT_WINDOW_SIZE: u32 = 65_535;

/// A flow-control window.
#[derive(Clone, Copy, Debug, PartialEq, Eq, Structural)]
pub struct Window {
    /// Bytes that may still be sent; below zero where more was sent than a
    /// later, smaller initial window allows.
    pub size: i32,
}

impl Window {
    /// The window after `n` bytes were taken, where it holds that many.
    pub open spec fn spec_consume(self, n: u32) -> Option<Window> {
        if n <= self.size {
            Some(Window { size: (self.size - n) as i32 })
        } else {
            None
        }
    }

    /// The window after `increment` was added, where that does not lead
    /// above 2^31 - 1.
    pub open spec fn spec_credit(self, increment: u32) -> Option<Window> {
        if self.size + increment <= MAX_WINDOW_SIZE {
            Some(Window { size: (self.size + increment) as i32 })
        } else {
            None
        }
    }

    /// The window after it was moved by `delta`, where that leads neither
    /// above 2^31 - 1 nor below -2^31.
    pub open spec fn spec_adjust(self, delta: i64) -> Option<Window> {
        if -0x8000_0000 <= self.size + delta <= MAX_WINDOW_SIZE {
            Some(Window { size: (self.size + delta) as i32 })
        } else {
            None
        }
    }

    /// The increment that brings a receive window back to `target`, where
    /// it has dropped below half of `target`. A window below zero and a
    /// target above 2^31 - 1 get none.
    pub open spec fn spec_refill(self, target: u32) -> Option<u32> {
        if 0 <= self.size < target / 2 && target <= MAX_WINDOW_SIZE {
            Some((target - self.size) as u32)
        } else {
            None
        }
    }

    /// A window of `size` bytes; one above 2^31 - 1 is cut to that.
    pub fn new(size: u32) -> (w: Window)
        ensures
            w.size == (if size <= MAX_WINDOW_SIZE {
                size
            } else {
                MAX_WINDOW_SIZE
            }),
    {
        if size <= MAX_WINDOW_SIZE {
            Window { size: size as i32 }
        } else {
            Window { size: MAX_WINDOW_SIZE as i32 }
        }
    }

    /// The number of bytes that may be sent now: the size, or zero where
    /// the size is below zero.
    pub fn available(&self) -> (n: u32)
        ensures
            n == (if self.size > 0 {
                self.size
            } else {
                0
            }),
    {
        if self.size > 0 {
            self.size as u32
        } else {
            0
        }
    }

    /// Takes `n` bytes from the window. Where the window holds fewer, it
    /// is left as it is and the answer is `false`.
    pub fn try_consume(&mut self, n: u32) -> (ok: bool)
        ensures
            ok == old(self).spec_consume(n).is_some(),
            *final(self) == (match old(self).spec_consume(n) {
                Some(w) => w,
                None => *old(self),
            }),
            ok && old(self).size >= 0 ==> final(self).size >= 0,
    {
        if self.size >= 0 && n <= self.size as u32 {
            self.size = self.size - n as i32;
            true
        } else {
            false
        }
    }

    /// Adds `increment` to the window. Where that would lead above
    /// 2^31 - 1, the window is left as it is and the answer is
    /// `FlowControlError`.
    pub fn credit(&mut self, increment: u32) -> (r: Result<(), ErrorCode>)
        ensures
            r == (match old(self).spec_credit(increment) {
                Some(_) => Ok::<(), ErrorCode>(()),
                None => Err::<(), ErrorCode>(ErrorCode::FlowControlError),
            }),
            *final(self) == (match old(self).spec_credit(increment) {
                Some(w) => w,
                None => *old(self),
            }),
    {
        let sum: i64 = self.size as i64 + increment as i64;
        if sum <= MAX_WINDOW_SIZE as i64 {
            self.size = sum as i32;
            Ok(())
        } else {
            Err(ErrorCode::FlowControlError)
        }
    }

    /// Moves the window by `delta`. Where that would lead outside the
    /// range of a window, it is left as it is and the answer is
    /// `FlowControlError`.
    pub fn adjust(&mut self, delta: i64) -> (r: Result<(), ErrorCode>)
        ensures
            r == (match old(self).spec_adjust(delta) {
                Some(_) => Ok::<(), ErrorCode>(()),
                None => Err::<(), ErrorCode>(ErrorCode::FlowControlError),
            }),
            *final(self) == (match old(self).spec_adjust(delta) {
                Some(w) => w,
                None => *old(self),
            }),
    {
        if delta < -0x1_0000_0000 || delta > 0x1_0000_0000 {
            return Err(ErrorCode::FlowControlError);
        }
        let sum: i64 = self.size as i64 + delta;
        if -0x8000_0000 <= sum && sum <= MAX_WINDOW_SIZE as i64 {
            self.size = sum as i32;
            Ok(())
        } else {
            Err(ErrorCode::FlowControlError)
        }
    }

    /// Brings a receive window back to `target` where it has dropped below
    /// half of it, and tells the increment that the peer is to be told.
    pub fn refill(&mut self, target: u32) -> (r: Option<u32>)
        ensures
            r == old(self).spec_refill(target),
            final(self).size == (if r.is_some() {
                target as i32
            } else {
                old(self).size
            }),
            r matches Some(inc) ==> 0 < inc <= MAX_WINDOW_SIZE,
    {
        if 0 <= self.size && target <= MAX_WINDOW_SIZE && (self.size as u32) < target / 2 {
            let inc: u32 = target - self.size as u32;
            self.size = target as i32;
            Some(inc)
        } else {
            None
        }
    }
}

} // verus!
