//! A minimal ahead-of-time translator for a small line-oriented source
//! language: each input line is trimmed and rewritten by an ordered set
//! of per-line rules, and the rewritten lines are appended to a fixed
//! scaffold of placeholder declarations to form one complete generated
//! program.  The command-line decisions — input validation and outcome
//! reporting — live in `cli`; reading the input, writing the artifact
//! and invoking the external compiler are left to the caller.

pub mod cli;
pub mod laws;
pub mod rewrite;
pub mod scaffold;
pub mod translate;
