use mcdebug_launcher::neoforge::{compare_versions, get_installer_url, neoforge_prefix};
use std::cmp::Ordering;

#[test]
fn test_version_comparison() {
    assert_eq!(compare_versions("21.10.64", "21.10.0-beta"), Ordering::Greater);
    assert_eq!(compare_versions("21.10.64", "21.10.10"), Ordering::Greater);
    assert_eq!(compare_versions("21.11.0", "21.10.99"), Ordering::Greater);
    assert_eq!(compare_versions("21.10.0", "21.10.0"), Ordering::Equal);
    assert_eq!(compare_versions("21.10.0-beta", "21.10.0-alpha"), Ordering::Greater);
}

#[test]
fn test_version_sorting() {
    let mut versions = vec![
        "21.10.0-beta".to_string(),
        "21.10.64".to_string(),
        "21.10.10".to_string(),
        "21.10.0-alpha".to_string(),
        "21.11.0".to_string(),
    ];
    versions.sort_by(|a, b| compare_versions(b, a));
    assert_eq!(versions[0], "21.11.0");
    assert_eq!(versions[1], "21.10.64");
    assert_eq!(versions[2], "21.10.10");
    assert_eq!(versions[3], "21.10.0-beta");
    assert_eq!(versions[4], "21.10.0-alpha");
}

#[test]
fn prefixes_and_installer_url() {
    assert_eq!(neoforge_prefix("1.21.1").unwrap(), "21.1.");
    assert_eq!(neoforge_prefix("1.21").unwrap(), "21.0.");
    assert_eq!(neoforge_prefix("1.21.0").unwrap(), "21.0.");
    assert_eq!(neoforge_prefix("x").unwrap_err(), "Invalid Minecraft version format: x");
    assert_eq!(
        get_installer_url("21.1.1"),
        "https://maven.neoforged.net/releases/net/neoforged/neoforge/21.1.1/neoforge-21.1.1-installer.jar"
    );
    assert_eq!(compare_versions("21.1", "21.1.0"), Ordering::Less);
}

#[test]
fn version_order_chains() {
    let a = "21.1.0-beta";
    let b = "21.1.0";
    let c = "21.1.5";
    assert_eq!(compare_versions(a, b), Ordering::Less);
    assert_eq!(compare_versions(b, c), Ordering::Less);
    assert_eq!(compare_versions(a, c), Ordering::Less);
    assert_eq!(compare_versions(c, a), Ordering::Greater);
    assert_eq!(compare_versions("21.1.0-alpha", "21.1.0-beta"), Ordering::Less);
}
