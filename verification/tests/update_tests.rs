use flymd_core::update::{
    gh_proxy_url, is_better, match_linux_assets, match_windows_asset, norm_ver, os_arch_tag,
    GhAsset,
};

fn asset(name: &str) -> GhAsset {
    GhAsset {
        name: name.as_bytes().to_vec(),
        browser_download_url: format!("https://example.com/{}", name).into_bytes(),
        size: Some(1),
        content_type: None,
    }
}

#[test]
fn norm_ver_basic_forms() {
    assert_eq!(norm_ver("v1.2.3"), (1, 2, 3, 1));
    assert_eq!(norm_ver("1.2.3"), (1, 2, 3, 1));
    assert_eq!(norm_ver("1.2"), (1, 2, 0, 1));
    assert_eq!(norm_ver("1"), (1, 0, 0, 1));
    assert_eq!(norm_ver(""), (0, 0, 0, 1));
}

#[test]
fn norm_ver_suffix_weights() {
    assert_eq!(norm_ver("1.2.3-fix1"), (1, 2, 3, 2));
    assert_eq!(norm_ver("1.2.3-FIX2"), (1, 2, 3, 2));
    assert_eq!(norm_ver("1.2.3-beta"), (1, 2, 3, 0));
    assert_eq!(norm_ver("1.2.3-rc.1"), (1, 2, 3, 0));
}

#[test]
fn norm_ver_trims_and_ignores_extras() {
    assert_eq!(norm_ver("  v2.0.1  "), (2, 0, 1, 1));
    assert_eq!(norm_ver("1.2.3.4"), (1, 2, 3, 1));
    assert_eq!(norm_ver("x.y.z"), (0, 0, 0, 1));
    assert_eq!(norm_ver("99999999999999999999.1"), (0, 1, 0, 1));
}

#[test]
fn is_better_orders_lexicographically() {
    assert!(is_better(&(2, 0, 0, 1), &(1, 9, 9, 2)));
    assert!(is_better(&(1, 3, 0, 1), &(1, 2, 9, 2)));
    assert!(is_better(&(1, 2, 4, 0), &(1, 2, 3, 2)));
    assert!(is_better(&(1, 2, 3, 2), &(1, 2, 3, 1)));
    assert!(!is_better(&(1, 2, 3, 1), &(1, 2, 3, 1)));
    assert!(!is_better(&(1, 2, 3, 0), &(1, 2, 3, 1)));
}

#[test]
fn gh_proxy_url_prefixes_once() {
    assert_eq!(
        gh_proxy_url("https://github.com/a/b"),
        "https://gh-proxy.com/https://github.com/a/b"
    );
    assert_eq!(
        gh_proxy_url("https://gh-proxy.com/https://github.com/a/b"),
        "https://gh-proxy.com/https://github.com/a/b"
    );
}

#[test]
fn os_arch_tags_classify() {
    let (os, arch) = os_arch_tag(b"linux", b"x86_64");
    assert_eq!(os, b"linux".to_vec());
    assert_eq!(arch, b"x86_64".to_vec());
    let (os, arch) = os_arch_tag(b"freebsd", b"riscv64");
    assert_eq!(os, b"other".to_vec());
    assert_eq!(arch, b"other".to_vec());
    let (os, arch) = os_arch_tag(b"windows", b"aarch64");
    assert_eq!(os, b"windows".to_vec());
    assert_eq!(arch, b"aarch64".to_vec());
}

#[test]
fn linux_assets_skip_arm_and_take_first() {
    let assets = vec![
        asset("app-arm64.AppImage"),
        asset("app-aarch64.deb"),
        asset("App-x86_64.AppImage"),
        asset("app-amd64.deb"),
        asset("other-x86_64.AppImage"),
    ];
    let (ai, deb) = match_linux_assets(&assets);
    assert_eq!(ai, Some(2));
    assert_eq!(deb, Some(3));
}

#[test]
fn linux_assets_none_when_nothing_matches() {
    let assets = vec![asset("app-armv7.AppImage"), asset("notes.txt")];
    assert_eq!(match_linux_assets(&assets), (None, None));
}

#[test]
fn windows_asset_picks_first_x64_installer() {
    let assets = vec![
        asset("app-arm64.exe"),
        asset("app-x64.msi"),
        asset("app-amd64.exe"),
    ];
    assert_eq!(match_windows_asset(&assets), Some(1));
    assert_eq!(match_windows_asset(&[asset("readme.md")]), None);
}
