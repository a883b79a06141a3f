//! Names and versions for the debug adapter the extension installs.

use vstd::prelude::*;
use crate::platform::{Arch, Os};
use crate::text::str_of;

verus! {

/// The pinned debug-adapter release tag.
pub fn netcoredbg_version() -> (r: String)
    ensures
        r@ == "v3.1.2-1054"@,
{
    str_of("v3.1.2-1054")
}

/// The debug adapter's binary name on the given system.
pub fn get_debugger_binary_name(os: Os) -> (r: String)
    ensures
        r@ == (if os is Windows {
            "netcoredbg.exe"@
        } else {
            "netcoredbg"@
        }),
{
    if os == Os::Windows {
        str_of("netcoredbg.exe")
    } else {
        str_of("netcoredbg")
    }
}

/// The platform part of the debug adapter's release asset name.
pub open spec fn spec_platform_suffix(os: Os, arch: Arch) -> Seq<char> {
    match (os, arch) {
        (Os::Mac, Arch::Aarch64) => "osx-arm64"@,
        (Os::Mac, _) => "osx-x64"@,
        (Os::Linux, Arch::Aarch64) => "linux-arm64"@,
        (Os::Linux, Arch::X8664) => "linux-x64"@,
        (Os::Linux, _) => "linux-arm"@,
        (Os::Windows, _) => "win-x64"@,
    }
}

/// The platform part of the debug adapter's release asset name.
pub fn get_platform_suffix(os: Os, arch: Arch) -> (r: String)
    ensures
        r@ == spec_platform_suffix(os, arch),
{
    match (os, arch) {
        (Os::Mac, Arch::Aarch64) => str_of("osx-arm64"),
        (Os::Mac, _) => str_of("osx-x64"),
        (Os::Linux, Arch::Aarch64) => str_of("linux-arm64"),
        (Os::Linux, Arch::X8664) => str_of("linux-x64"),
        (Os::Linux, _) => str_of("linux-arm"),
        (Os::Windows, _) => str_of("win-x64"),
    }
}

} // verus!
