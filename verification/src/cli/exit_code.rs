//! Exit codes shared by the CLI subcommands.

use vstd::prelude::*;

verus! {

pub const OK: i32 = 0;

/// Generic failure.
pub const GENERAL: i32 = 1;

/// "Expected" failure classes: core unreachable, fact not found.
pub const EXPECTED: i32 = 2;

} // verus!
