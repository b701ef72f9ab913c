//! Labels and colors that the terminal shows.
use vstd::prelude::*;

verus! {

/// Stands in front of a request that is being typed.
pub const AI_PROMPT: &'static str = "🤖 AI Prompt › ";

/// Shown while the provider is being asked.
pub const THINKING: &'static str = "✨ Crafting command…";

/// The frames of the spinner, separated by spaces.
pub const SPINNER_FRAMES: &'static str = "⠋ ⠙ ⠹ ⠸ ⠼ ⠴ ⠦ ⠧ ⠇ ⠏";

pub const ERROR: &'static str = "✗";

pub const WARNING: &'static str = "⚠";

pub const SUCCESS: &'static str = "✓";

pub const AI: &'static str = "🤖";

pub const CONTEXT: &'static str = "🧠";

pub const DATABASE: &'static str = "🗄";

pub const EMPTY: &'static str = "○";

pub const REQUEST: &'static str = "💬";

pub const COMMAND: &'static str = "❯";

pub const LIGHT_GREEN: &'static str = "\x1b[92m";

pub const LIGHT_YELLOW: &'static str = "\x1b[93m";

pub const LIGHT_RED: &'static str = "\x1b[91m";

pub const RESET_COLOR: &'static str = "\x1b[0m";

} // verus!
