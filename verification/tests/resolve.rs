use agdaup::platform::PlatformDescriptor;
use agdaup::release::{Asset, Release};
use agdaup::resolve::{resolve_latest, select_asset, ResolveError};

fn asset(id: u64, name: &str) -> Asset {
    Asset {
        id,
        url: format!("https://example.invalid/api/asset/{}", id),
        size: 4096,
        name: String::from(name),
        browser_download_url: format!("https://example.invalid/dl/{}", id),
    }
}

fn release(id: u64, tag: &str, assets: Vec<Asset>) -> Release {
    Release { id, tag_name: String::from(tag), assets }
}

fn host(arch: &str, os: &str) -> PlatformDescriptor {
    PlatformDescriptor { arch: String::from(arch), os: String::from(os) }
}

#[test]
fn resolve_finds_the_latest_tag() {
    let releases = vec![
        release(1, "v2.6.3", vec![]),
        release(2, "latest", vec![asset(7, "agda-2.6.4-x64-macos-ghc9.4.7.zip")]),
        release(3, "nightly", vec![]),
    ];
    let latest = resolve_latest(releases).unwrap();
    assert_eq!(latest.id, 2);
    assert_eq!(latest.assets.len(), 1);
}

#[test]
fn resolve_takes_the_first_of_several_latest_tags() {
    let releases = vec![release(4, "latest", vec![]), release(5, "latest", vec![])];
    assert_eq!(resolve_latest(releases).unwrap().id, 4);
}

#[test]
fn resolve_without_latest_tag_fails() {
    let releases = vec![release(1, "v2.6.3", vec![]), release(2, "v2.6.4", vec![])];
    assert_eq!(resolve_latest(releases).unwrap_err(), ResolveError::NotFound);
}

#[test]
fn resolve_on_empty_feed_fails() {
    assert_eq!(resolve_latest(vec![]).unwrap_err(), ResolveError::NotFound);
}

#[test]
fn select_picks_lexicographically_greatest_match() {
    let rel = release(
        1,
        "latest",
        vec![
            asset(10, "agda-2.6.3-x64-macos-ghc9.4.7.zip"),
            asset(11, "agda-2.6.4-x64-macos-ghc9.4.7.zip"),
        ],
    );
    let chosen = select_asset(&rel, &host("x86_64", "macos")).unwrap();
    assert_eq!(chosen.id, 11);
    assert_eq!(chosen.name, "agda-2.6.4-x64-macos-ghc9.4.7.zip");
}

#[test]
fn select_ignores_assets_for_other_platforms_and_junk() {
    let rel = release(
        1,
        "latest",
        vec![
            asset(20, "agda-2.6.9-x64-windows-ghc9.4.7.zip"),
            asset(21, "checksums.txt"),
            asset(22, "agda-2.6.3-x64-macos-ghc9.4.7.zip"),
        ],
    );
    let chosen = select_asset(&rel, &host("x86_64", "macos")).unwrap();
    assert_eq!(chosen.id, 22);
}

#[test]
fn select_on_wrong_host_fails() {
    let rel = release(
        1,
        "latest",
        vec![
            asset(30, "agda-2.6.4-x64-linux-ghc9.4.7.zip"),
            asset(31, "agda-2.6.4-arm64-linux-ghc9.4.7.zip"),
        ],
    );
    let r = select_asset(&rel, &host("x86_64", "windows"));
    assert_eq!(r.unwrap_err(), ResolveError::NoMatchingAsset);
}

#[test]
fn select_with_no_assets_fails() {
    let rel = release(1, "latest", vec![]);
    let r = select_asset(&rel, &host("x86_64", "macos"));
    assert_eq!(r.unwrap_err(), ResolveError::NoMatchingAsset);
}
