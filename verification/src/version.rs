//! Crate and build metadata shown by the command line.
use vstd::prelude::*;

verus! {

/// Semantic version of the crate (`major.minor.patch`).
pub const VERSION: &'static str = "0.1.0";

/// Short git commit of the build, or `unknown` when unavailable.
pub const GIT_SHA: &'static str = "unknown";

/// Value shown for `--version`.
pub const LONG_VERSION: &'static str = "0.1.0 (unknown)";

} // verus!
