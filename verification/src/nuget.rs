//! Names and versions for the language-server package and its wrapper
//! binary.

use vstd::prelude::*;
use crate::platform::{Arch, Os};
use crate::text::str_of;

verus! {

/// A located language-server package.
pub struct ServerPackage {
    pub dll_path: String,
    pub version: String,
}

/// A located wrapper binary.
pub struct WrapperBinary {
    pub path: String,
    pub version: String,
}

/// The pinned language-server package version used when none is configured.
pub fn default_server_version() -> (r: String)
    ensures
        r@ == "5.0.0-1.25277.114"@,
{
    str_of("5.0.0-1.25277.114")
}

/// The pinned wrapper version.
pub fn wrapper_version() -> (r: String)
    ensures
        r@ == "0.1.0"@,
{
    str_of("0.1.0")
}

/// The platform part of the package and asset names.
pub open spec fn spec_package_suffix(os: Os, arch: Arch) -> Seq<char> {
    match (os, arch) {
        (Os::Mac, Arch::Aarch64) => "osx-arm64"@,
        (Os::Mac, _) => "osx-x64"@,
        (Os::Linux, Arch::Aarch64) => "linux-arm64"@,
        (Os::Linux, _) => "linux-x64"@,
        (Os::Windows, _) => "win-x64"@,
    }
}

fn package_suffix(os: Os, arch: Arch) -> (r: String)
    ensures
        r@ == spec_package_suffix(os, arch),
{
    match (os, arch) {
        (Os::Mac, Arch::Aarch64) => str_of("osx-arm64"),
        (Os::Mac, _) => str_of("osx-x64"),
        (Os::Linux, Arch::Aarch64) => str_of("linux-arm64"),
        (Os::Linux, _) => str_of("linux-x64"),
        (Os::Windows, _) => str_of("win-x64"),
    }
}

/// The language-server package's registry name on the given platform.
pub fn get_package_name(os: Os, arch: Arch) -> (r: String)
    ensures
        r@ == "microsoft.codeanalysis.languageserver."@ + spec_package_suffix(os, arch),
{
    let mut r = str_of("microsoft.codeanalysis.languageserver.");
    let suffix = package_suffix(os, arch);
    r.append(suffix.as_str());
    r
}

/// The wrapper's release asset name on the given platform; the Windows asset
/// carries the executable extension.
pub fn get_wrapper_asset_name(os: Os, arch: Arch) -> (r: String)
    ensures
        r@ == "roslyn-wrapper-"@ + (if os is Windows {
            "win-x64.exe"@
        } else {
            spec_package_suffix(os, arch)
        }),
{
    let mut r = str_of("roslyn-wrapper-");
    if os == Os::Windows {
        r.append("win-x64.exe");
    } else {
        let suffix = package_suffix(os, arch);
        r.append(suffix.as_str());
    }
    r
}

} // verus!
