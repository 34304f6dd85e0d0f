//! The three-way merge that decides, file by file, how `rex init` installs
//! the bundle over what is already on disk, and the plan of a whole run.

pub mod apply;
pub mod merge;

pub use apply::{plan_bundle, BundleFile, BundlePlan, Manifest};
pub use merge::{merge_action, rex_new_sibling, sha256_hex, BundleMode, InitSummary, MergeAction};
