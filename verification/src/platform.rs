//! The host platform, as the tooling decisions see it.

use vstd::prelude::*;

verus! {

/// The operating system a build targets.
#[derive(Clone, Copy, PartialEq, Eq, Structural)]
pub enum Os {
    Mac,
    Linux,
    Windows,
}

/// The processor architecture a build targets.
#[derive(Clone, Copy, PartialEq, Eq, Structural)]
pub enum Arch {
    Aarch64,
    X8664,
    X86,
}

} // verus!
