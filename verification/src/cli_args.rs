//! Plain values shared with the command-line surface.
//!
//! The command-line arguments themselves are parsed outside the
//! library (they carry a parser derive and file-system paths); what
//! they hand over are plain values such as [`Level`].

use vstd::prelude::*;

verus! {

/// How intense a generation run should be.
#[derive(Clone, Copy, Debug, PartialEq, Eq, Structural)]
pub enum Level {
    /// Few samples per source.
    Low,
    /// A moderate number of samples per source.
    Medium,
    /// Many samples per source.
    High,
}

} // verus!
