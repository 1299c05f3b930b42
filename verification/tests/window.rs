use mcdebug_launcher::window::{drop_ambiguous_claims, identity_matches, instance_from_title};

#[test]
fn test_instance_from_title() {
    assert_eq!(instance_from_title("MDL: bc-test [Fabric API, ModX]").as_deref(), Some("bc-test"));
    assert_eq!(instance_from_title("MDL: vanilla-test").as_deref(), Some("vanilla-test"));
    assert_eq!(instance_from_title("Minecraft 1.21"), None);
    assert_eq!(instance_from_title("MDL: "), None);
    assert_eq!(instance_from_title(""), None);
}

#[test]
fn test_drop_ambiguous_claims() {
    let claims = vec![
        ("a".to_string(), 100),
        ("b".to_string(), 200),
        ("c".to_string(), 300),
        ("d".to_string(), 300),
    ];
    let kept = drop_ambiguous_claims(claims);
    assert_eq!(kept, vec![("a".to_string(), 100), ("b".to_string(), 200)]);
}

#[test]
fn test_identity_matches() {
    let game_dir = r"C:\Users\x\AppData\Roaming\mdl\instances\openlumin-neoforge-26.2";
    let cmd = format!(r#"C:\Java\jdk-25\bin\java.exe -Xmx4G --gameDir {} --assetsDir x"#, game_dir);
    assert!(identity_matches("java.exe", &cmd, "openlumin-neoforge-26.2"));
    assert!(identity_matches("javaw", &cmd, "openlumin-neoforge-26.2"));
    assert!(identity_matches("JAVA.EXE", &cmd.to_uppercase().replace('\\', "/"), "OPENLUMIN-NEOFORGE-26.2"));
    assert!(!identity_matches("java.exe", &cmd, "despotes-test"));
    let cmd_ab = cmd.replace("openlumin-neoforge-26.2", "instance-ab");
    assert!(!identity_matches("java.exe", &cmd_ab, "instance-a"));
    assert!(identity_matches("java.exe", &cmd_ab, "instance-ab"));
    assert!(!identity_matches("werfault.exe", &cmd, "openlumin-neoforge-26.2"));
    assert!(!identity_matches("java.exe", "java -Xmx1G -jar app.jar", "a"));
}

#[test]
fn marker_at_end_of_command_line_matches() {
    assert!(identity_matches("java", "java --gameDir /home/u/mdl/instances/alpha", "alpha"));
    assert!(!identity_matches("java", "java --gameDir /home/u/mdl/instances/alphabet", "alpha"));
}
