//! The agent-facing tools: their parameters, their defaults and the usage
//! guide the server announces.
use vstd::prelude::*;

use crate::command::AutomationCommand;

verus! {

/// How long a batch waits before its closing screenshot, unless told.
pub const DEFAULT_SCREENSHOT_DELAY_MS: u64 = 500;

/// The usage guide announced to agents.
pub const SERVER_INSTRUCTIONS: &'static str = "\
AutoWC runs applications inside a nested compositor session for GUI automation.

Typical flow:
1. `launch` starts a process inside the server's running AutoWC compositor.
2. `list` reports the currently open windows and their stable AutoWC window IDs.
3. `run` sends an ordered batch of input commands, optionally targeting a specific window.
4. `screenshot` observes the current framebuffer, optionally targeting a specific window.
5. `close` requests that a target window's client toplevel close.

The MCP server owns one AutoWC compositor session. It starts AutoWC automatically with dynamic resizing and stay-alive enabled. The `launch` tool only starts an application process inside that compositor.

When more than one window is open, call `list` and then pass the desired window ID to `run`, `screenshot`, or `close`. If `window` is omitted, AutoWC uses the first existing window (lowest ID).

Mouse coordinates are virtual-display pixels with the origin at the top-left of the target AutoWC window. Keyboard commands use W3C KeyboardEvent.code physical key names, such as KeyA, Digit1, Enter, Escape, Backspace, Tab, Space, ControlLeft, ShiftLeft, AltLeft, MetaLeft, ArrowDown, and F5. Prefer the `keys` command for keyboard input when possible as it has the most flexibility. Use `key` or `chord` only when you need lower-level primitives.

If AutoWC exits, later tool calls return ok=false with the captured stderr log.";

/// Parameters of the `launch` tool: the program and its arguments.
#[derive(Debug, Clone)]
pub struct LaunchParams {
    pub command: Vec<String>,
}

/// Parameters of the `run` tool.
#[derive(Debug, Clone)]
pub struct RunParams {
    pub commands: Vec<AutomationCommand>,
    pub window: Option<u64>,
    pub return_screenshot: Option<bool>,
    pub screenshot_delay_ms: Option<u64>,
}

/// Parameters of the `screenshot` tool.
#[derive(Debug, Clone)]
pub struct ScreenshotParams {
    pub path: Option<String>,
    pub window: Option<u64>,
}

/// Parameters of the `list` tool: none.
#[derive(Debug, Clone)]
pub struct ListParams {}

/// Parameters of the `close` tool.
#[derive(Debug, Clone)]
pub struct CloseParams {
    pub window: Option<u64>,
}

impl RunParams {
    /// Whether the batch ends with a screenshot: yes unless told otherwise.
    pub fn wants_screenshot(&self) -> (r: bool)
        ensures
            r == (match self.return_screenshot {
                Some(b) => b,
                None => true,
            }),
    {
        match self.return_screenshot {
            Some(b) => b,
            None => true,
        }
    }

    /// The wait before the closing screenshot, in milliseconds.
    pub fn screenshot_delay(&self) -> (r: u64)
        ensures
            r == (match self.screenshot_delay_ms {
                Some(ms) => ms,
                None => DEFAULT_SCREENSHOT_DELAY_MS,
            }),
    {
        match self.screenshot_delay_ms {
            Some(ms) => ms,
            None => DEFAULT_SCREENSHOT_DELAY_MS,
        }
    }
}

} // verus!
