//! Latched request flags that a tray thread sets and the interface thread takes.
use vstd::prelude::*;
use std::sync::atomic::{AtomicBool, Ordering};

verus! {

/// Two independent latches, "show the window" and "exit". Setting a latch
/// that is already set changes nothing, so repeated requests coalesce into one.
///
/// The flags are shared between threads, so what a `take_*` call returns
/// depends on the other threads' calls; no contract states it.
pub struct TraySignals {
    show_requested: AtomicBool,
    exit_requested: AtomicBool,
}

impl TraySignals {
    /// Both latches clear.
    pub fn new() -> (r: TraySignals) {
        TraySignals { show_requested: AtomicBool::new(false), exit_requested: AtomicBool::new(false) }
    }

    /// Latches a request to show the window.
    pub fn request_show(&self) {
        self.show_requested.store(true, Ordering::Release);
    }

    /// Latches a request to exit.
    pub fn request_exit(&self) {
        self.exit_requested.store(true, Ordering::Release);
    }

    /// Clears the show latch and returns whether it was set.
    pub fn take_show_request(&self) -> (r: bool) {
        self.show_requested.swap(false, Ordering::AcqRel)
    }

    /// Clears the exit latch and returns whether it was set.
    pub fn take_exit_request(&self) -> (r: bool) {
        self.exit_requested.swap(false, Ordering::AcqRel)
    }
}

} // verus!
