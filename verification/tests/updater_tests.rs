use shapeshifter::updater::{
    current_version, is_newer, parse_version_of, release_update, tui_asset_name, GhAsset,
    GhRelease,
};

fn release(tag: &str, assets: &[(&str, &str)]) -> GhRelease {
    GhRelease {
        tag_name: tag.to_string(),
        name: Some(format!("Release {tag}")),
        assets: assets
            .iter()
            .map(|(n, u)| GhAsset { name: n.to_string(), browser_download_url: u.to_string() })
            .collect(),
    }
}

#[test]
fn compares_versions_numerically() {
    assert!(is_newer("0.2.0", "0.1.9"));
    assert!(is_newer("0.10.0", "0.9.0"));
    assert!(is_newer("1", "0.9.9"));
    assert!(!is_newer("0.1.0", "0.1.0"));
    assert!(!is_newer("0.1.0", "0.2.0"));
    assert!(!is_newer("0.1.0-abc", "0.1.0"));
    assert!(is_newer("0.1.1-rc1", "0.1.0"));
    assert!(is_newer("nightly", "0.1.0"));
    assert!(!is_newer("nightly", "nightly"));
    assert!(is_newer("1.2.3.4", "0.1.0"));
}

#[test]
fn parses_versions() {
    assert_eq!(parse_version_of("1.2.3"), Some((1, 2, 3)));
    assert_eq!(parse_version_of("4.5"), Some((4, 5, 0)));
    assert_eq!(parse_version_of("7-beta"), Some((7, 0, 0)));
    assert_eq!(parse_version_of("1.x"), None);
    assert_eq!(parse_version_of("1.2.3.4"), None);
    assert_eq!(parse_version_of(""), None);
}

#[test]
fn asset_names_and_version() {
    assert_eq!(tui_asset_name(true), "shapeshifter-windows-x86_64-tui.exe");
    assert_eq!(tui_asset_name(false), "shapeshifter-linux-x86_64-tui");
    assert_eq!(current_version(), "0.1.0");
}

#[test]
fn offers_newer_releases_only() {
    let r = release(
        "v0.2.0",
        &[
            ("shapeshifter-windows-x86_64-tui.exe", "https://dl/win"),
            ("shapeshifter-linux-x86_64-tui", "https://dl/linux"),
            ("shapeshifter-linux-x86_64-tui", "https://dl/second"),
        ],
    );
    let info = release_update(r, "0.1.0", false).unwrap();
    assert_eq!(info.tag, "v0.2.0");
    assert_eq!(info.name, "Release v0.2.0");
    assert_eq!(info.download_url.as_deref(), Some("https://dl/linux"));

    let no_asset = release_update(release("v0.3.0", &[]), "0.1.0", true).unwrap();
    assert_eq!(no_asset.download_url, None);

    assert!(release_update(release("v0.1.0", &[]), "0.1.0", false).is_none());
    assert!(release_update(release("vv0.0.9", &[]), "0.1.0", false).is_none());

    let unnamed = GhRelease { tag_name: "v9".to_string(), name: None, assets: vec![] };
    assert_eq!(release_update(unnamed, "0.1.0", false).unwrap().name, "");
}
