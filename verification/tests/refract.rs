use mcdebug_launcher::refract::{list_applicable, parse_asset_name, refract_key_for_loader, select_release, RefractAsset, RefractRelease};

#[test]
fn refract_test_parse_real_asset_names() {
    let p = parse_asset_name("Fabric-Support-A.26.0.27.0.-Fa.0.16.0.17.-JE-26.2.aep").unwrap();
    assert_eq!(p.loader_key, "Fa");
    assert_eq!(p.aprism_range, ".26.0.27.0.");
    assert_eq!(p.loader_range, ".0.16.0.17.");
    assert_eq!(p.edit, "JE");
    assert_eq!(p.mc_version, "26.2");

    let p = parse_asset_name("Forge-Support-A.26.0.27.0.-Fo.54.0.55.0.-JE-26.2.aep").unwrap();
    assert_eq!(p.loader_key, "Fo");

    let p = parse_asset_name("Quilt-Support-A.26.0.27.0.-Q.0.29.0.30.-JE-26.2.aep").unwrap();
    assert_eq!(p.loader_key, "Q");

    assert!(parse_asset_name("checksums.txt").is_none());
    assert!(parse_asset_name("AprismPrismate-v26.1-Fa-26.2.jar").is_none());
}

#[test]
fn refract_test_loader_key_mapping() {
    assert_eq!(refract_key_for_loader("fabric"), Some("Fa"));
    assert_eq!(refract_key_for_loader("NEOFORGE"), Some("N"));
    assert_eq!(refract_key_for_loader("vanilla"), None);
}

#[test]
fn test_select_release_prefers_stable() {
    let stable = RefractRelease {
        tag: "fabric/v26.1".into(),
        prerelease: false,
        html_url: String::new(),
        assets: vec![RefractAsset {
            name: "Fabric-Support-A.26.0.27.0.-Fa.0.16.0.17.-JE-26.2.aep".into(),
            url: "u".into(),
            digest: None,
            size: 1,
        }],
    };
    let pre = RefractRelease {
        tag: "fabric/v26.2-Alpha.1".into(),
        prerelease: true,
        html_url: String::new(),
        assets: stable.assets.clone(),
    };
    let (r, _) = select_release(&[pre.clone(), stable.clone()], "Fa", "26.2", false).unwrap();
    assert_eq!(r.tag, "fabric/v26.1");
    assert!(select_release(&[pre.clone()], "Fa", "26.2", false).is_none());
    let (r, _) = select_release(&[pre], "Fa", "26.2", true).unwrap();
    assert_eq!(r.tag, "fabric/v26.2-Alpha.1");
}

#[test]
fn refract_versionless_artifact_selected_but_not_listed() {
    let rel = RefractRelease {
        tag: "fabric/v26.1".into(),
        prerelease: false,
        html_url: String::new(),
        assets: vec![RefractAsset {
            name: "Fabric-Support-A.26.0.27.0.-Fa.0.16.0.17.-JE-.aep".into(),
            url: "u".into(),
            digest: None,
            size: 1,
        }],
    };
    assert!(select_release(&[rel.clone()], "Fa", "26.2", false).is_some());
    assert!(list_applicable(&[rel], "Fa", "26.2", false).is_empty());
}
