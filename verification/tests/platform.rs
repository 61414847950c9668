use agdaup::platform::PlatformDescriptor;
use agdaup::release::Asset;

fn host(arch: &str, os: &str) -> PlatformDescriptor {
    PlatformDescriptor { arch: String::from(arch), os: String::from(os) }
}

fn info_of(name: &str) -> agdaup::release::AssetInfo {
    let asset = Asset {
        id: 1,
        url: String::new(),
        size: 0,
        name: String::from(name),
        browser_download_url: String::new(),
    };
    asset.get_asset_info().unwrap()
}

#[test]
fn matches_x64_macos() {
    let info = info_of("agda-2.6.4-x64-macos-ghc9.4.7.zip");
    assert!(info.applies_to_this_machine(&host("x86_64", "macos")));
}

#[test]
fn matches_arm64_windows() {
    let info = info_of("agda-2.6.4-arm64-windows-ghc9.4.7.zip");
    assert!(info.applies_to_this_machine(&host("aarch64", "windows")));
}

#[test]
fn os_qualifiers_after_first_token_are_ignored() {
    let info = info_of("agda-2.6.4-x64-macos-11-ghc9.4.7.zip");
    assert!(info.applies_to_this_machine(&host("x86_64", "macos")));
}

#[test]
fn wrong_arch_token_does_not_match() {
    let info = info_of("agda-2.6.4-arm64-macos-ghc9.4.7.zip");
    assert!(!info.applies_to_this_machine(&host("x86_64", "macos")));
}

#[test]
fn wrong_os_token_does_not_match() {
    let info = info_of("agda-2.6.4-x64-linux-ghc9.4.7.zip");
    assert!(!info.applies_to_this_machine(&host("x86_64", "macos")));
}

#[test]
fn unsupported_host_arch_matches_nothing() {
    let info = info_of("agda-2.6.4-x64-macos-ghc9.4.7.zip");
    assert!(!info.applies_to_this_machine(&host("riscv64", "macos")));
}

#[test]
fn unsupported_host_os_matches_nothing() {
    let info = info_of("agda-2.6.4-x64-linux-ghc9.4.7.zip");
    assert!(!info.applies_to_this_machine(&host("x86_64", "linux")));
}
