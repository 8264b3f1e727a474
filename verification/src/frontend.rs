//! Small types the user interface exchanges with the app, and the device-poll cadence
//! that the window's focus selects.
use vstd::prelude::*;

verus! {

/// The version and source revision shown in the About screen.
#[derive(Debug, Clone, PartialEq, Eq)]
pub struct AppInfo {
    pub version: String,
    pub git_sha: String,
}

/// Which tool a path setting is for.
#[derive(Debug, Clone, Copy, PartialEq, Eq)]
pub enum ToolchainTool {
    Claude,
    Pio,
}

/// Whether the app window has focus; devices are polled faster while it does.
#[derive(Debug, Clone, Copy, PartialEq, Eq)]
pub struct DeviceFocusState {
    pub focused: bool,
}

pub const FOCUSED_POLL_INTERVAL_MS: u64 = 2000;

pub const BACKGROUND_POLL_INTERVAL_MS: u64 = 10000;

impl Default for DeviceFocusState {
    /// The window starts focused.
    fn default() -> (r: DeviceFocusState)
        ensures
            r.focused,
    {
        DeviceFocusState { focused: true }
    }
}

impl DeviceFocusState {
    /// Every 2 s while focused, every 10 s in the background.
    pub fn poll_interval_ms(&self) -> (r: u64)
        ensures
            r == (if self.focused { FOCUSED_POLL_INTERVAL_MS } else { BACKGROUND_POLL_INTERVAL_MS }),
    {
        if self.focused {
            FOCUSED_POLL_INTERVAL_MS
        } else {
            BACKGROUND_POLL_INTERVAL_MS
        }
    }
}

} // verus!
