use mcdebug_launcher::prismate::{parse_asset_name, prismate_key_for_loader, select_release, PrismateAsset, PrismateRelease};

#[test]
fn prismate_test_parse_real_asset_names() {
    let p = parse_asset_name("AprismPrismate-v26.1-Fa-26.2.jar").unwrap();
    assert_eq!(p.tag, "v26.1");
    assert_eq!(p.loader_key, "Fa");
    assert_eq!(p.mc_version, "26.2");

    let p = parse_asset_name("AprismPrismate-v26.1-N-26.2.jar").unwrap();
    assert_eq!(p.loader_key, "N");

    assert!(parse_asset_name("AprismPrismate-v26.1-Fa-26.2.jar.sig").is_none());
    assert!(parse_asset_name("checksums.txt").is_none());
}

#[test]
fn prismate_test_loader_key_mapping() {
    assert_eq!(prismate_key_for_loader("fabric"), Some("Fa"));
    assert_eq!(prismate_key_for_loader("neoforge"), Some("N"));
    assert_eq!(prismate_key_for_loader("quilt"), None);
}

#[test]
fn test_select_release_stable_first() {
    let asset = PrismateAsset {
        name: "AprismPrismate-v26.1-Fa-26.2.jar".into(),
        url: "u".into(),
        digest: None,
        size: 1,
    };
    let stable = PrismateRelease {
        tag: "v26.1".into(),
        prerelease: false,
        html_url: String::new(),
        assets: vec![asset.clone()],
    };
    let pre = PrismateRelease {
        tag: "v26.2-Alpha.1".into(),
        prerelease: true,
        html_url: String::new(),
        assets: vec![asset],
    };
    let (r, _) = select_release(&[pre.clone(), stable.clone()], "Fa", "26.2", false).unwrap();
    assert_eq!(r.tag, "v26.1");
    assert!(select_release(&[pre.clone()], "Fa", "26.2", false).is_none());
    let (r, _) = select_release(&[pre], "Fa", "26.2", true).unwrap();
    assert_eq!(r.tag, "v26.2-Alpha.1");
}

#[test]
fn prismate_rejects_unknown_loader_key() {
    assert!(parse_asset_name("AprismPrismate-v26.1-Q-26.2.jar").is_none());
}
