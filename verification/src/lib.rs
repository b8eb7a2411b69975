//! The status line of a coding-assistant session: the current branch, the
//! lines added and removed since the session began, the model's name and a
//! gauge of the context window.
//!
//! The library computes and decides; it neither reads files nor runs tools.
//! Its caller hands it what the version-control tool printed, the entries of
//! the session transcript and, file by file, what it found on disk.

pub mod branch;
pub mod colors;
pub mod decimal;
pub mod gauge;
pub mod input;
pub mod lines;
pub mod netdiff;
pub mod status;
pub mod text;
pub mod transcript;
