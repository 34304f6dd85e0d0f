//! Error type shared by the verified library.

use vstd::prelude::*;

verus! {

/// Every failure the library reports. Filesystem and parser failures are
/// reported by the surrounding application; the variants here carry the
/// plain values the library itself decides on.
#[derive(Debug)]
pub enum RexError {
    SlugCollision { path: String },
    ProjectNotFound { id: String },
    NoActiveProject { path: String },
    InvalidProjectId { reason: String },
    EmptyPipeline,
    PromptCancelled,
    BundleFileNotFound { path: String },
    ScheduleNotFound { path: String },
    ScheduleAddrNotFound { addr: String },
    BlockedByCycle { addr: String },
    DuplicateSlug { addr: String },
    AmbiguousAddr { addr: String, candidates: String },
    ReplaceWouldRegressState { offenders: String },
    InvalidSlug { reason: String },
}

} // verus!
