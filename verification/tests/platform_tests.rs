use roslyn_proxy::debugger::{get_debugger_binary_name, get_platform_suffix, netcoredbg_version};
use roslyn_proxy::nuget::{default_server_version, get_package_name, get_wrapper_asset_name,
    ServerPackage};
use roslyn_proxy::platform::{Arch, Os};

#[test]
fn test_debugger_version() {
    let version = netcoredbg_version();
    assert!(!version.is_empty());
    assert!(version.contains('.'));
}

#[test]
fn test_platform_suffix() {
    let suffix = get_platform_suffix(Os::Linux, Arch::X8664);
    assert!(!suffix.is_empty());
    assert_ne!(suffix, "unknown");
}

#[test]
fn test_binary_name() {
    let name = get_debugger_binary_name(Os::Linux);
    assert!(name == "netcoredbg" || name == "netcoredbg.exe");
}

#[test]
fn test_default_version() {
    assert!(default_server_version().contains('.'));
}

#[test]
fn test_package_name_format() {
    let package = ServerPackage {
        dll_path: "/path/to/server.dll".to_string(),
        version: "4.10.0".to_string(),
    };
    assert!(package.dll_path.ends_with(".dll"));
    assert!(!package.version.is_empty());
}

#[test]
fn test_package_names_by_platform() {
    assert_eq!(
        get_package_name(Os::Mac, Arch::Aarch64),
        "microsoft.codeanalysis.languageserver.osx-arm64"
    );
    assert_eq!(get_wrapper_asset_name(Os::Windows, Arch::X8664), "roslyn-wrapper-win-x64.exe");
    assert_eq!(get_wrapper_asset_name(Os::Linux, Arch::X8664), "roslyn-wrapper-linux-x64");
}

#[test]
fn test_debugger_binary_name_windows() {
    assert_eq!(get_debugger_binary_name(Os::Windows), "netcoredbg.exe");
}
