//! Interface-thread bookkeeping: the minimise/restore grace window used with
//! the tray, and the quiet period before a configuration save.
use vstd::prelude::*;

verus! {

/// Frames during which minimise detection is suppressed after a restore,
/// since the window system acknowledges the restore asynchronously.
pub const RESTORE_GRACE_FRAMES: u8 = 2;

/// Milliseconds without further edits before a pending save is written.
pub const SAVE_QUIET_MS: u64 = 500;

/// What the interface should do on this frame.
#[derive(Clone, Copy, Debug, PartialEq, Eq, Structural)]
pub enum FrameAction {
    /// Still inside the grace window after a restore: do no window handling
    /// this frame.
    Skip,
    /// The window was just minimised: send it to the tray.
    MinimizeToTray,
    /// The window is confirmed minimised: hide its taskbar button (once).
    HideTaskbarButton,
    /// Nothing to do for the tray.
    Nothing,
}

/// Window state tracked from frame to frame.
#[derive(Clone, Copy, Debug, PartialEq, Eq, Structural)]
pub struct WindowTracker {
    pub has_tray: bool,
    pub was_minimized: bool,
    pub restoring_frames: u8,
    pub taskbar_hidden: bool,
}

impl WindowTracker {
    pub fn new(has_tray: bool) -> (r: WindowTracker)
        ensures
            r == (WindowTracker {
                has_tray,
                was_minimized: false,
                restoring_frames: 0,
                taskbar_hidden: false,
            }),
    {
        WindowTracker { has_tray, was_minimized: false, restoring_frames: 0, taskbar_hidden: false }
    }

    /// Records that a restore was just requested: the window counts as shown
    /// and the next frames are inside the grace window.
    pub fn restore(&mut self)
        ensures
            *final(self) == (WindowTracker {
                was_minimized: false,
                restoring_frames: RESTORE_GRACE_FRAMES,
                ..*old(self)
            }),
    {
        self.was_minimized = false;
        self.restoring_frames = RESTORE_GRACE_FRAMES;
    }

    /// Records a request to minimise to the tray; returns whether there is a
    /// tray to minimise to (without one, nothing changes).
    pub fn minimize(&mut self) -> (r: bool)
        ensures
            r == old(self).has_tray,
            r ==> *final(self) == (WindowTracker { was_minimized: true, ..*old(self) }),
            !r ==> *final(self) == *old(self),
    {
        if !self.has_tray {
            return false;
        }
        self.was_minimized = true;
        true
    }

    /// The decision for one frame, given whether the window is minimised now.
    pub fn frame(&mut self, is_minimized: bool) -> (r: FrameAction)
        ensures
            !old(self).has_tray ==> r == FrameAction::Nothing && *final(self) == *old(self),
            old(self).has_tray && old(self).restoring_frames > 0 ==> {
                &&& r == FrameAction::Skip
                &&& *final(self) == (WindowTracker {
                    restoring_frames: (old(self).restoring_frames - 1) as u8,
                    ..*old(self)
                })
            },
            old(self).has_tray && old(self).restoring_frames == 0 ==> {
                &&& final(self).was_minimized == is_minimized
                &&& final(self).has_tray && final(self).restoring_frames == 0
                &&& (is_minimized && !old(self).was_minimized) ==> r == FrameAction::MinimizeToTray
                    && final(self).taskbar_hidden == old(self).taskbar_hidden
                &&& (is_minimized && old(self).was_minimized && !old(self).taskbar_hidden) ==> r
                    == FrameAction::HideTaskbarButton && final(self).taskbar_hidden
                &&& (is_minimized && old(self).was_minimized && old(self).taskbar_hidden) ==> r
                    == FrameAction::Nothing && final(self).taskbar_hidden
                &&& !is_minimized ==> r == FrameAction::Nothing && !final(self).taskbar_hidden
            },
    {
        if !self.has_tray {
            return FrameAction::Nothing;
        }
        if self.restoring_frames > 0 {
            self.restoring_frames = self.restoring_frames - 1;
            return FrameAction::Skip;
        }
        let action = if is_minimized && !self.was_minimized {
            FrameAction::MinimizeToTray
        } else if is_minimized && self.was_minimized && !self.taskbar_hidden {
            self.taskbar_hidden = true;
            FrameAction::HideTaskbarButton
        } else {
            if !is_minimized {
                self.taskbar_hidden = false;
            }
            FrameAction::Nothing
        };
        self.was_minimized = is_minimized;
        action
    }
}

/// Coalesces bursts of edits into one save after a quiet period.
#[derive(Clone, Copy, Debug, PartialEq, Eq, Structural)]
pub struct SaveDebounce {
    /// When the latest unsaved edit happened, in milliseconds on a monotonic clock.
    pub pending_since: Option<u64>,
}

impl SaveDebounce {
    pub fn new() -> (r: SaveDebounce)
        ensures
            r.pending_since is None,
    {
        SaveDebounce { pending_since: None }
    }

    /// Records an edit at `now_ms`, restarting the quiet period.
    pub fn mark(&mut self, now_ms: u64)
        ensures
            final(self).pending_since == Some(now_ms),
    {
        self.pending_since = Some(now_ms);
    }

    /// Whether a save is due at `now_ms`: an edit is pending and the quiet
    /// period has passed since it. A due save is taken (no longer pending).
    pub fn take_due(&mut self, now_ms: u64) -> (r: bool)
        ensures
            r <==> (old(self).pending_since matches Some(t) && now_ms >= t && now_ms - t
                >= SAVE_QUIET_MS),
            r ==> final(self).pending_since is None,
            !r ==> *final(self) == *old(self),
    {
        match self.pending_since {
            Some(t) => {
                if now_ms >= t && now_ms - t >= SAVE_QUIET_MS {
                    self.pending_since = None;
                    true
                } else {
                    false
                }
            },
            None => false,
        }
    }
}

} // verus!
