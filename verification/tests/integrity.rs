use mcdebug_launcher::integrity::{
    asset_object_path, checks_library, file_matches_sha1, marker_text, verification_marker, LibraryEntry,
};
use mcdebug_launcher::launch_args::Rule;
use mcdebug_launcher::launcher::{launch_lock_step, lock_holder, LockStep};

fn s(v: &str) -> String {
    v.to_string()
}

#[test]
fn test_file_matches_sha1_missing() {
    assert!(!file_matches_sha1(None, "abc"));
}

#[test]
fn test_file_matches_sha1_ok() {
    assert!(file_matches_sha1(Some(b"hello world"), "2aae6c35c94fcfb415dbe95f408b9ce91ee846ed"));
    assert!(!file_matches_sha1(Some(b"hello world"), "deadbeef"));
}

#[test]
fn libraries_checked_by_rules_and_artifact() {
    let lib = |rules: Option<Vec<Rule>>, artifact: Option<(&str, &str)>| LibraryEntry {
        name: s("org.lwjgl:lwjgl:3.3.3"),
        rules,
        artifact: artifact.map(|(u, h)| (s(u), s(h))),
    };
    assert!(checks_library(&lib(None, Some(("https://x/l.jar", "abc"))), "linux"));
    assert!(!checks_library(&lib(None, Some(("", "abc"))), "linux"));
    assert!(!checks_library(&lib(None, None), "linux"));
    let osx_only = vec![Rule { action: s("disallow"), os_name: Some(s("linux")) }];
    assert!(!checks_library(&lib(Some(osx_only.clone()), Some(("u", "h"))), "linux"));
    assert!(checks_library(&lib(Some(osx_only), Some(("u", "h"))), "macos"));
}

#[test]
fn asset_locations_and_marker() {
    assert_eq!(
        asset_object_path("/a/objects", "bdf48ef6b5d0d23bbb02e17d04865216179f510a"),
        Some(s("/a/objects/bd/bdf48ef6b5d0d23bbb02e17d04865216179f510a"))
    );
    assert_eq!(asset_object_path("/a/objects", "b"), None);
    assert_eq!(asset_object_path("/a/objects", ""), None);
    // The directory is named by the first two bytes of the hash.
    assert_eq!(asset_object_path("/a/objects", "\u{e9}ab"), Some(s("/a/objects/\u{e9}/\u{e9}ab")));
    assert_eq!(verification_marker("/a", "17"), "/a/.verified-17");
    assert_eq!(marker_text(1234, 1700000000), "verified 1234 objects at 1700000000\n");
}

#[test]
fn launch_queue_steps() {
    assert_eq!(lock_holder(Some(" 4242\n")), Some(4242));
    assert_eq!(lock_holder(Some("garbage")), None);
    assert_eq!(lock_holder(None), None);
    assert_eq!(launch_lock_step(Some(4242), true, false), LockStep::Wait);
    assert_eq!(launch_lock_step(Some(4242), true, true), LockStep::Parallel);
    assert_eq!(launch_lock_step(Some(4242), false, false), LockStep::Take);
    assert_eq!(launch_lock_step(None, false, false), LockStep::Take);
}
