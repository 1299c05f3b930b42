use mcdebug_launcher::aprism_jdk::{parse_asset_name, resolve, select_release, AprismJdkAsset, AprismJdkRelease};

#[test]
fn test_parse_asset_name_stable() {
    let p = parse_asset_name("AprismJDK-26.2-windows-x64-jdk.zip").unwrap();
    assert_eq!(p.version, "26.2");
    assert_eq!(p.os, "windows");
    assert_eq!(p.arch, "x64");
    assert_eq!(p.ext, "zip");
}

#[test]
fn test_parse_asset_name_prerelease_and_targz() {
    let p = parse_asset_name("AprismJDK-v26.3-Alpha.1-linux-x64-jdk.tar.gz").unwrap();
    assert_eq!(p.version, "26.3-Alpha.1");
    assert_eq!(p.os, "linux");
    assert_eq!(p.ext, "tar.gz");
}

#[test]
fn test_parse_asset_name_rejects_non_runtime() {
    assert!(parse_asset_name("AprismJDK-v26.1-Alpha.4.jar").is_none());
    assert!(parse_asset_name("aprismate-26.2.jar").is_none());
    assert!(parse_asset_name("SHA256SUMS.txt").is_none());
    assert!(parse_asset_name("AprismJDK-26.2-solaris-sparc-jdk.zip").is_none());
}

#[test]
fn test_select_release_prefers_stable_and_platform() {
    let (os, arch) = ("linux", "x64");
    let native_ext = "tar.gz";
    let fallback_ext = "zip";

    let mk = |tag: &str, pre: bool, names: &[&str]| AprismJdkRelease {
        tag: tag.to_string(),
        prerelease: pre,
        html_url: String::new(),
        assets: names
            .iter()
            .map(|n| AprismJdkAsset { name: n.to_string(), url: format!("https://example/{n}"), size: 0 })
            .collect(),
    };

    let releases = vec![
        mk("v26.1-Alpha.5", true, &["AprismJDK-v26.1-Alpha.5.jar"]),
        mk(
            "v26.2",
            false,
            &[
                "aprismate-26.2.jar",
                "SHA256SUMS.txt",
                &format!("AprismJDK-26.2-{os}-{arch}-jdk.{fallback_ext}"),
                &format!("AprismJDK-26.2-{os}-{arch}-jdk.{native_ext}"),
            ],
        ),
    ];

    let (rel, (_, parsed)) = select_release(&releases, None, false, os, arch, native_ext).unwrap();
    assert_eq!(rel.tag, "v26.2");
    assert_eq!(parsed.version, "26.2");
    assert_eq!(parsed.os, os);
    assert_eq!(parsed.arch, arch);
    assert_eq!(parsed.ext, native_ext);

    let (rel2, _) = select_release(&releases, Some("26.2"), false, os, arch, native_ext).unwrap();
    assert_eq!(rel2.tag, "v26.2");
    assert!(select_release(&releases, Some("99.9"), false, os, arch, native_ext).is_none());

    let pre_only = vec![mk("v27.0-beta", true, &[format!("AprismJDK-27.0-{os}-{arch}-jdk.{native_ext}").as_str()])];
    assert!(select_release(&pre_only, None, false, os, arch, native_ext).is_none());
    assert!(select_release(&pre_only, None, true, os, arch, native_ext).is_some());
}

#[test]
fn resolve_matches_hints_among_installed() {
    let installed = vec![
        ("v26.2".to_string(), "/j/v26.2/bin/java".to_string()),
        ("v26.1".to_string(), "/j/v26.1/bin/java".to_string()),
    ];
    assert_eq!(resolve(&installed, None).unwrap().0, "v26.2");
    assert_eq!(resolve(&installed, Some("aprism")).unwrap().0, "v26.2");
    assert_eq!(resolve(&installed, Some("aprism@26.1")).unwrap().0, "v26.1");
    assert_eq!(
        resolve(&installed, Some("27")).unwrap_err(),
        "No AprismJDK matching '27'. Installed: v26.2, v26.1."
    );
    assert_eq!(resolve(&[], None).unwrap_err(), "No AprismJDK installed. Run 'mdl jdk install' first.");
}

#[test]
fn test_current_platform_is_known() {
    let (os, _arch) = mcdebug_launcher::aprism_jdk::current_platform("linux", "x86_64").unwrap();
    assert!(matches!(os, "windows" | "linux" | "macos"));
    assert_eq!(mcdebug_launcher::aprism_jdk::current_platform("macos", "aarch64"), Some(("macos", "aarch64")));
    assert_eq!(mcdebug_launcher::aprism_jdk::current_platform("windows", "x86_64"), Some(("windows", "x64")));
    assert_eq!(mcdebug_launcher::aprism_jdk::current_platform("freebsd", "x86_64"), None);
}

#[test]
fn stable_release_wins_over_an_earlier_prerelease() {
    let (os, arch, ext) = ("linux", "x64", "tar.gz");
    let mk = |tag: &str, pre: bool, name: String| AprismJdkRelease {
        tag: tag.to_string(),
        prerelease: pre,
        html_url: String::new(),
        assets: vec![AprismJdkAsset { name: name.clone(), url: format!("https://example/{name}"), size: 0 }],
    };
    let releases = vec![
        mk("v27.0-beta", true, format!("AprismJDK-27.0-{os}-{arch}-jdk.{ext}")),
        mk("v26.2", false, format!("AprismJDK-26.2-{os}-{arch}-jdk.{ext}")),
    ];
    let (rel, _) = select_release(&releases, None, true, os, arch, ext).unwrap();
    assert_eq!(rel.tag, "v26.2");
    let (rel, _) = select_release(&releases, Some("27.0"), true, os, arch, ext).unwrap();
    assert_eq!(rel.tag, "v27.0-beta");
}
