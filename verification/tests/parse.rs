use agdaup::release::{Asset, ParseError};

fn asset_named(name: &str) -> Asset {
    Asset {
        id: 1,
        url: String::from("https://example.invalid/api/asset/1"),
        size: 1024,
        name: String::from(name),
        browser_download_url: String::from("https://example.invalid/dl/1"),
    }
}

#[test]
fn parse_simple_name() {
    let info = asset_named("agda-2.6.4-x64-macos-ghc9.4.7.zip").get_asset_info().unwrap();
    assert_eq!(info.version, "2.6.4");
    assert_eq!(info.arch, "x64");
    assert_eq!(info.os, "macos");
    assert_eq!(info.ghc, "9.4.7.zip");
}

#[test]
fn parse_multi_token_os() {
    let info = asset_named("agda-2.6.3-arm64-macos-11-ghc9.4.7.zip").get_asset_info().unwrap();
    assert_eq!(info.version, "2.6.3");
    assert_eq!(info.arch, "arm64");
    assert_eq!(info.os, "macos-11");
    assert_eq!(info.ghc, "9.4.7.zip");
}

#[test]
fn parse_without_extension() {
    let info = asset_named("agda-2.6.4-x64-windows-ghc9").get_asset_info().unwrap();
    assert_eq!(info.version, "2.6.4");
    assert_eq!(info.arch, "x64");
    assert_eq!(info.os, "windows");
    assert_eq!(info.ghc, "9");
}

#[test]
fn parse_empty_os_run() {
    let info = asset_named("agda-2.6.4-x64-ghc9.4.7").get_asset_info().unwrap();
    assert_eq!(info.version, "2.6.4");
    assert_eq!(info.arch, "x64");
    assert_eq!(info.os, "");
    assert_eq!(info.ghc, "9.4.7");
}

#[test]
fn wrong_product_is_reported() {
    let r = asset_named("checksums.txt").get_asset_info();
    assert_eq!(r.unwrap_err(), ParseError::WrongProduct);
}

#[test]
fn wrong_product_even_when_shaped_like_an_asset() {
    let r = asset_named("idris-2.6.4-x64-macos-ghc9.4.7.zip").get_asset_info();
    assert_eq!(r.unwrap_err(), ParseError::WrongProduct);
}

#[test]
fn missing_tokens_are_malformed() {
    let r = asset_named("agda-2.6.4").get_asset_info();
    assert_eq!(r.unwrap_err(), ParseError::Malformed);
}

#[test]
fn missing_dependency_token_is_malformed() {
    let r = asset_named("agda-2.6.4-x64-macos").get_asset_info();
    assert_eq!(r.unwrap_err(), ParseError::Malformed);
}

#[test]
fn bare_product_name_is_malformed() {
    let r = asset_named("agda").get_asset_info();
    assert_eq!(r.unwrap_err(), ParseError::Malformed);
}
