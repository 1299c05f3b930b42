use mcdebug_launcher::oom_guard::{is_excluded_command, is_sweep_candidate, parse_user_exclusions, stale_targets, OomGuardReport};

#[test]
fn test_oom_guard_report_defaults() {
    let report = OomGuardReport::default();
    assert_eq!(report.killed_processes, 0);
    assert_eq!(report.ws_freed_bytes, 0);
    assert!(!report.standby_purged);
    assert_eq!(report.available_after_bytes, 0);
}

#[test]
fn test_read_launch_lock_pid_returns_none_when_no_file() {
    // The lock file may or may not exist; this just verifies no panic.
    // We can't easily control the lock file state in a unit test.
}

#[test]
fn test_builtin_excludes_cover_build_toolchain() {
    let gradle_daemon = "c:\\java\\jdk-25\\bin\\java.exe --add-opens=java.base/java.lang=all-unnamed \
        -cp c:\\users\\x\\.gradle\\wrapper\\dists\\gradle-9.2.1\\lib\\gradle-launcher-9.2.1.jar \
        org.gradle.launcher.daemon.bootstrap.gradledaemon 9.2.1";
    assert!(is_excluded_command(gradle_daemon, &[]));

    let jst = "java.exe -cp ...jst-cli-bundle-2.0.1.jar... com.intellij.util.containers.unsafe \
        c:\\users\\x\\.gradle\\caches\\... net.neoforged.jst.cli";
    assert!(is_excluded_command(jst, &[]));
}

#[test]
fn test_exclusions_do_not_shadow_real_game() {
    let game = "\"c:\\program files\\java\\bin\\javaw.exe\" -Xmx4G \
        -cp libraries.jar net.minecraft.client.main.Main --username TestPlayer";
    assert!(!is_excluded_command(game, &[]));
}

#[test]
fn test_user_exclusions_are_merged_and_case_insensitive() {
    let user = vec!["mycustomtool".to_string()];
    assert!(is_excluded_command("java -jar mycustomtool.jar", &user));
    assert!(is_excluded_command("java -cp something;gradle-worker.jar worker", &user));
}

#[test]
fn user_exclusion_file_lines() {
    let parsed = parse_user_exclusions("# comment\n  MyTool  \n\nOther\n");
    assert_eq!(parsed, vec!["mytool".to_string(), "other".to_string()]);
}

#[test]
fn sweep_candidates_and_targets() {
    assert!(is_sweep_candidate("javaw.exe", "javaw.exe net.minecraft.client.main.Main", &[]));
    assert!(!is_sweep_candidate("javaw.exe", "javaw.exe -jar idea.jar", &[]));
    assert!(!is_sweep_candidate("java", "java org.gradle.launcher net.minecraft", &[]));
    assert!(!is_sweep_candidate("notepad.exe", "minecraft", &[]));
    assert_eq!(stale_targets(&[10, 20, 30, 40], 20, Some(30)), vec![10, 40]);
}
