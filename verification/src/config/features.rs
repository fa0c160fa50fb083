use vstd::prelude::*;

verus! {

/// Whether desktop integration features are enabled (not in this build).
pub const DESKTOP_INTEGRATION_ENABLED: bool = false;

/// Whether thumbnailer features are enabled (not in this build).
pub const THUMBNAILER_ENABLED: bool = false;

} // verus!
