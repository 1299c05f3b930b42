use mcdebug_launcher::aprism::{javaagent_arg, parse_asset_name, select_release, AprismAsset, AprismRelease};

#[test]
fn aprism_test_parse_asset_name() {
    let (tag, edit, mc) = parse_asset_name("Aprism-v26.0-Alpha.8-JE-26.2.jar").unwrap();
    assert_eq!(tag, "v26.0-Alpha.8");
    assert_eq!(edit, "JE");
    assert_eq!(mc, "26.2");
    assert!(parse_asset_name("Despotes-v26.0-Alpha.2-fabric-1.21.1.jar").is_none());
}

#[test]
fn test_javaagent_arg() {
    let arg = javaagent_arg("/x/aprism.jar", "v26.0-Alpha.8", "26.2", "/game");
    assert!(arg.starts_with(
        "-javaagent:/x/aprism.jar=aprismVersion=v26.0-Alpha.8;mcEdit=JE;mcVersion=26.2;gameRoot=/game"
    ));
}

#[test]
fn aprism_select_skips_other_editions_and_versions() {
    let mk = |name: &str| AprismAsset { name: name.into(), url: "u".into(), digest: None, size: 1 };
    let rel = AprismRelease {
        tag: "v26.0-Alpha.8".into(),
        prerelease: true,
        assets: vec![mk("Aprism-v26.0-Alpha.8-BE-26.2.jar"), mk("Aprism-v26.0-Alpha.8-JE-26.2.jar")],
    };
    assert!(select_release(&[rel.clone()], "26.2", false).is_none());
    let (_, a) = select_release(&[rel.clone()], "26.2", true).unwrap();
    assert_eq!(a.name, "Aprism-v26.0-Alpha.8-JE-26.2.jar");
    assert!(select_release(&[rel], "26.1", true).is_none());
}
