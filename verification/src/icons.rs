//! The glyphs that stand for the states of a repository.

use vstd::prelude::*;

verus! {

/// Nerd-font git branch glyph, prefix of the Waybar summary.
pub const ICON_BAR: &'static str = "\u{e0a0}";

/// Synced and clean.
pub const I_CLEAN: &'static str = "\u{2713}";

/// Commits to push.
pub const I_AHEAD: &'static str = "\u{2191}";

/// Commits to pull.
pub const I_BEHIND: &'static str = "\u{2193}";

/// Commits to push and commits to pull.
pub const I_DIVERGED: &'static str = "\u{21c5}";

/// Local modifications.
pub const I_DIRTY: &'static str = "\u{25cf}";

/// No local modifications, in the rofi list.
pub const I_CLEAN_DOT: &'static str = "\u{25cb}";

/// Merge conflicts in the tree.
pub const I_CONFLICT: &'static str = "\u{26a0}";

/// A branch without upstream, never pushed.
pub const I_UNPUBLISHED: &'static str = "\u{21e1}";

/// Remote unreachable or another error.
pub const I_ERROR: &'static str = "?";

} // verus!
