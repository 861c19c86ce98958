//! Vim-style editing modes for the terminal UI: Normal, Insert and
//! Visual, with a small state record of the pending command and count.

use vstd::prelude::*;

verus! {

#[derive(Debug, Clone, Copy, PartialEq, Eq, Structural)]
pub enum VimMode {
    Normal,
    Insert,
    Visual,
}

impl VimMode {
    pub fn as_str(&self) -> (r: &'static str)
        ensures
            *self == VimMode::Normal ==> r@ == "-- NORMAL --"@,
            *self == VimMode::Insert ==> r@ == "-- INSERT --"@,
            *self == VimMode::Visual ==> r@ == "-- VISUAL --"@,
    {
        match self {
            VimMode::Normal => "-- NORMAL --",
            VimMode::Insert => "-- INSERT --",
            VimMode::Visual => "-- VISUAL --",
        }
    }
}

#[derive(Debug, Clone, Copy)]
pub struct VimState {
    pub mode: VimMode,
    pub pending_command: Option<char>,
    pub count: Option<usize>,
}

impl Default for VimState {
    /// A fresh editor starts in Normal mode with nothing pending.
    fn default() -> (r: Self)
        ensures
            r.mode == VimMode::Normal,
            r.pending_command is None,
            r.count is None,
    {
        VimState { mode: VimMode::Normal, pending_command: None, count: None }
    }
}

impl VimState {
    pub fn reset(&mut self)
        ensures
            final(self).mode == old(self).mode,
            final(self).pending_command is None,
            final(self).count is None,
    {
        self.pending_command = None;
        self.count = None;
    }

    pub fn enter_insert_mode(&mut self)
        ensures
            final(self).mode == VimMode::Insert,
            final(self).pending_command is None,
            final(self).count is None,
    {
        self.mode = VimMode::Insert;
        self.reset();
    }

    pub fn enter_normal_mode(&mut self)
        ensures
            final(self).mode == VimMode::Normal,
            final(self).pending_command is None,
            final(self).count is None,
    {
        self.mode = VimMode::Normal;
        self.reset();
    }

    pub fn enter_visual_mode(&mut self)
        ensures
            final(self).mode == VimMode::Visual,
            final(self).pending_command is None,
            final(self).count is None,
    {
        self.mode = VimMode::Visual;
        self.reset();
    }
}

} // verus!
