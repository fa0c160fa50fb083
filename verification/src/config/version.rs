use vstd::prelude::*;

verus! {

/// Major version number.
pub const MAJOR: u32 = 0;

/// Minor version number.
pub const MINOR: u32 = 1;

/// Patch version number.
pub const PATCH: u32 = 0;

/// Version suffix (such as "-alpha").
pub const SUFFIX: &'static str = "";

/// Full version string: major, minor and patch joined by dots, then the suffix.
pub const VERSION: &'static str = "0.1.0";

} // verus!
