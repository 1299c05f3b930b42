use mcdebug_launcher::despotes::{
    asset_covers_mc, despotes_loader_for, list_applicable, parse_asset_name, select_release, DespotesAsset,
    DespotesLoader, DespotesRelease,
};

#[test]
fn despotes_test_parse_asset_name() {
    let p = parse_asset_name("Despotes-v26.0-Alpha.2-fabric-1.21.1.jar").unwrap();
    assert_eq!(p.tag, "v26.0-Alpha.2");
    assert_eq!(p.loader, "fabric");
    assert_eq!(p.mc_version, "1.21.1");

    let p = parse_asset_name("Despotes-v26.0-fabric-26.2.jar").unwrap();
    assert_eq!(p.tag, "v26.0");
    assert_eq!(p.mc_version, "26.2");

    assert!(parse_asset_name("fabric-api.jar").is_none());
    assert!(parse_asset_name("Despotes-v26.0-fabric.txt").is_none());
}

#[test]
fn test_asset_covers_mc() {
    assert!(asset_covers_mc("1.21.1", "1.21.1", "fabric"));
    assert!(asset_covers_mc("1.21.4", "1.21.1", "fabric"));
    assert!(asset_covers_mc("1.20.4", "1.21.1", "fabric"));
    assert!(!asset_covers_mc("1.22.1", "1.21.1", "fabric"));
    assert!(asset_covers_mc("1.20.3", "1.20.1", "fabric"));
    assert!(!asset_covers_mc("1.21.1", "1.20.1", "fabric"));
    assert!(asset_covers_mc("26.2", "26.2", "fabric"));
    assert!(!asset_covers_mc("26.1", "26.2", "fabric"));
    assert!(!asset_covers_mc("1.21.4", "26.2", "fabric"));
}

fn sample_releases() -> Vec<DespotesRelease> {
    vec![
        DespotesRelease {
            tag: "v26.1".to_string(),
            prerelease: false,
            html_url: "u1".into(),
            published_at: "2026-09-01".into(),
            assets: vec![DespotesAsset {
                name: "Despotes-v26.1-fabric-26.2.jar".into(),
                url: "u".into(),
                digest: None,
                size: 1,
            }],
        },
        DespotesRelease {
            tag: "v26.0-Alpha.2".to_string(),
            prerelease: true,
            html_url: "u2".into(),
            published_at: "2026-08-08".into(),
            assets: vec![
                DespotesAsset {
                    name: "Despotes-v26.0-Alpha.2-fabric-1.21.1.jar".into(),
                    url: "u".into(),
                    digest: None,
                    size: 1,
                },
                DespotesAsset {
                    name: "Despotes-v26.0-Alpha.2-fabric-26.2.jar".into(),
                    url: "u".into(),
                    digest: None,
                    size: 1,
                },
            ],
        },
    ]
}

#[test]
fn test_select_prefers_stable() {
    let releases = sample_releases();
    let (release, asset) = select_release(&releases, "fabric", "26.2", true).expect("select");
    assert!(!release.prerelease);
    assert!(asset.name.contains("v26.1"));
}

#[test]
fn test_select_falls_back_to_prerelease_when_allowed() {
    let releases = sample_releases();
    let (release, _) = select_release(&releases, "fabric", "1.21.1", true).expect("select");
    assert!(release.prerelease);
    assert_eq!(release.tag, "v26.0-Alpha.2");
}

#[test]
fn test_select_excludes_prerelease_when_not_allowed() {
    let releases = sample_releases();
    assert!(select_release(&releases, "fabric", "1.21.1", false).is_none());
}

#[test]
fn test_list_applicable_order() {
    let releases = sample_releases();
    let list = list_applicable(&releases, "fabric", "26.2", true);
    assert_eq!(list.len(), 2);
    assert!(!list[0].0.prerelease);
    assert!(list[1].0.prerelease);
}

#[test]
fn loader_mapping_is_case_insensitive() {
    assert_eq!(despotes_loader_for(Some("Fabric")), Some(DespotesLoader::Fabric));
    assert_eq!(despotes_loader_for(Some("NEOFORGE")), Some(DespotesLoader::NeoForge));
    assert_eq!(despotes_loader_for(Some("quilt")), None);
    assert_eq!(despotes_loader_for(None), None);
    assert_eq!(DespotesLoader::Aprism.slug(), "aprism");
}

#[test]
fn list_without_prerelease_keeps_stable_only() {
    let releases = sample_releases();
    let list = list_applicable(&releases, "fabric", "26.2", false);
    assert_eq!(list.len(), 1);
    assert_eq!(list[0].1.name, "Despotes-v26.1-fabric-26.2.jar");
}
