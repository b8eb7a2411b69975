//! The escape sequences that colour the fields of the status line.

use vstd::prelude::*;

verus! {

/// Colour of the branch name.
pub const COLOR_BRANCH: &'static str = "\x1b[38;5;111m";

/// Colour of the count of added lines.
pub const COLOR_ADDED: &'static str = "\x1b[38;5;151m";

/// Colour of the count of removed lines.
pub const COLOR_REMOVED: &'static str = "\x1b[38;5;211m";

/// Colour of the model's name.
pub const COLOR_MODEL: &'static str = "\x1b[38;5;183m";

/// Colour of the token gauge.
pub const COLOR_TOKENS: &'static str = "\x1b[38;5;216m";

/// Ends a coloured field.
pub const COLOR_RESET: &'static str = "\x1b[0m";

} // verus!
