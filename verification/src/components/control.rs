//! The package choices of the form.

use vstd::prelude::*;

verus! {

/// Which optional package bundles to install besides the base bundle.
#[derive(Debug, Copy, Clone, PartialEq, Eq)]
pub struct PackageProfile {
    pub desktop: bool,
    pub multimedia: bool,
    pub utils: bool,
    pub nightly: bool,
    pub amd_gpu: bool,
    pub intel_gpu: bool,
}

/// The package bundles the installer knows by name.
#[derive(Debug, Copy, Clone, PartialEq, Eq)]
pub enum PackageBundle {
    BASE,
    DESKTOP,
    UTILS,
    NIGHTLY,
    MULTIMEDIA,
}

} // verus!
