use mcdebug_launcher::instance::{
    agent_jvm_args, backup_entry, backup_name_for, backup_path, check_mod_file, classify_mod,
    disabled_file_name, mod_entry, parse_pid_file, pre_restore_name, register_agent, restore_target,
    running_stats, set_agent_enabled, unregister_agent, world_of_backup, BackupManager, ConfigManager,
    InstanceManager, InstanceStatus, JavaAgentEntry, ModManager, AGENTS_DIR,
};
use mcdebug_launcher::listing::{installed_runtimes, sort_by_key};
use mcdebug_launcher::options::{get_option, option_pairs, options_from_pairs, set_option};

fn s(v: &str) -> String {
    v.to_string()
}

#[test]
fn agent_registry_lifecycle() {
    let mut agents: Vec<JavaAgentEntry> = Vec::new();
    assert_eq!(register_agent(&mut agents, "spy.jar", "spy", Some("port=25585")), Ok(s("spy")));
    assert_eq!(agents[0].path, format!("{AGENTS_DIR}/spy.jar"));
    assert!(agents[0].enabled);
    assert_eq!(
        register_agent(&mut agents, "spy2.jar", "spy", None),
        Err(s("JavaAgent 'spy' is already registered in this instance"))
    );
    assert_eq!(register_agent(&mut agents, "trace.jar", "trace", None), Ok(s("trace")));
    assert_eq!(agents.len(), 2);

    assert_eq!(set_agent_enabled(&mut agents, "spy", false), Ok(()));
    assert!(!agents[0].enabled && agents[1].enabled);
    assert_eq!(set_agent_enabled(&mut agents, "nope", true), Err(s("JavaAgent 'nope' not found")));

    let removed = unregister_agent(&mut agents, "trace").unwrap();
    assert_eq!(removed.path, "javaagents/trace.jar");
    assert_eq!(agents.len(), 1);
    assert_eq!(unregister_agent(&mut agents, "trace").err(), Some(s("JavaAgent 'trace' not found")));
}

#[test]
fn register_then_unregister_restores_registry() {
    let mut agents: Vec<JavaAgentEntry> = Vec::new();
    register_agent(&mut agents, "a.jar", "a", None).unwrap();
    let before: Vec<String> = agents.iter().map(|a| a.name.clone()).collect();
    register_agent(&mut agents, "b.jar", "b", Some("x=1")).unwrap();
    let e = unregister_agent(&mut agents, "b").unwrap();
    assert_eq!(e.params.as_deref(), Some("x=1"));
    let after: Vec<String> = agents.iter().map(|a| a.name.clone()).collect();
    assert_eq!(before, after);
}

#[test]
fn jvm_arguments_of_enabled_present_agents() {
    let mut agents: Vec<JavaAgentEntry> = Vec::new();
    register_agent(&mut agents, "a.jar", "a", Some("port=1")).unwrap();
    register_agent(&mut agents, "b.jar", "b", None).unwrap();
    register_agent(&mut agents, "c.jar", "c", None).unwrap();
    set_agent_enabled(&mut agents, "c", false).unwrap();
    assert_eq!(
        agent_jvm_args("/inst/demo", &agents, &vec![true, true, true]),
        vec![s("-javaagent:/inst/demo/javaagents/a.jar=port=1"), s("-javaagent:/inst/demo/javaagents/b.jar")]
    );
    // A missing JAR is skipped.
    assert_eq!(
        agent_jvm_args("/inst/demo", &agents, &vec![false, true]),
        vec![s("-javaagent:/inst/demo/javaagents/b.jar")]
    );
}

#[test]
fn mods_folder_entries() {
    assert_eq!(classify_mod("Sodium.JAR"), "jar");
    assert_eq!(classify_mod("native.aje"), "aje");
    assert_eq!(classify_mod("readme.txt"), "other");
    let m = mod_entry("sodium.jar.disabled", 1024);
    assert_eq!(m.filename, "sodium.jar");
    assert!(!m.enabled);
    assert_eq!(m.kind, "jar");
    assert_eq!(m.size_bytes, 1024);
    let m = mod_entry("x.jar.disabled.disabled", 1);
    assert_eq!(m.filename, "x.jar");
    let m = mod_entry("lithium.jar", 7);
    assert!(m.enabled);
    assert_eq!(m.filename, "lithium.jar");
    assert_eq!(check_mod_file("a.aje"), Ok(()));
    assert_eq!(
        check_mod_file("a.zip"),
        Err(s("Mod file must be a .jar (loader mod) or .aje (Aprism native mod) file"))
    );
}

#[test]
fn disabled_mod_keeps_its_name() {
    let f = "iris.jar";
    let d = disabled_file_name(f);
    assert_eq!(d, "iris.jar.disabled");
    let m = mod_entry(&d, 0);
    assert_eq!(m.filename, f);
    assert!(!m.enabled);
}

#[test]
fn mods_listed_by_file_name() {
    let mods = vec![mod_entry("zz.jar", 1), mod_entry("aa.jar.disabled", 2), mod_entry("mm.aje", 3)];
    let sorted = sort_by_key(mods, false);
    let names: Vec<&str> = sorted.iter().map(|m| m.filename.as_str()).collect();
    assert_eq!(names, vec!["aa.jar", "mm.aje", "zz.jar"]);
}

#[test]
fn backup_names_and_worlds() {
    let n = backup_name_for("Survival", "20250101_120000", None);
    assert_eq!(n, "Survival_20250101_120000");
    assert_eq!(world_of_backup(&n), "Survival");
    assert_eq!(backup_name_for("Survival", "x", Some(s("manual"))), "manual");
    assert_eq!(backup_path("/inst/demo/backups", "manual"), "/inst/demo/backups/manual.zip");
    assert_eq!(restore_target("Survival_20250101_120000", None), "Survival");
    assert_eq!(restore_target("Survival_20250101_120000", Some(s("Copy"))), "Copy");
    assert_eq!(pre_restore_name("Survival", "20250102_080000"), "Survival_pre_restore_20250102_080000");
    // A world name with `_` is cut at its first `_`.
    assert_eq!(world_of_backup("my_world_20250101_120000"), "my");
}

#[test]
fn backups_listed_newest_first() {
    let a = backup_entry(s("w_1"), "demo", s("2025-01-01T00:00:00+00:00"), 10, s("/b/w_1.zip"));
    let b = backup_entry(s("w_2"), "demo", s("2025-03-01T00:00:00+00:00"), 20, s("/b/w_2.zip"));
    assert_eq!(a.world, "w");
    let sorted = sort_by_key(vec![a, b], true);
    assert_eq!(sorted[0].name, "w_2");
}

#[test]
fn instance_paths_and_transfers() {
    let m = InstanceManager::with_dir(s("/inst"));
    assert_eq!(m.instance_path("demo"), "/inst/demo");
    assert_eq!(m.transfer_paths("a", "b", true, false), Ok((s("/inst/a"), s("/inst/b"))));
    assert_eq!(m.transfer_paths("a", "b", false, false), Err(s("Instance 'a' not found")));
    assert_eq!(m.transfer_paths("a", "b", true, true), Err(s("Instance 'b' already exists")));
    assert_eq!(InstanceManager::new(s("/x")).instances_dir, "/x");
    assert_eq!(ModManager::new(s("/x")).manager.instances_dir, "/x");
    assert_eq!(BackupManager::new(s("/x")).manager.instances_dir, "/x");
    assert_eq!(ConfigManager::new(s("/x")).manager.instances_dir, "/x");
    assert_eq!(InstanceStatus::new(s("/x")).manager.instances_dir, "/x");
}

#[test]
fn pid_files_and_process_stats() {
    assert_eq!(parse_pid_file(" 4242\n"), Ok(4242));
    assert_eq!(parse_pid_file("abc"), Err(s("Invalid PID format")));
    assert_eq!(running_stats(1000, 400, 512 * 1024 * 1024), (600, 512));
    assert_eq!(running_stats(100, 400, 0), (0, 0));
}

#[test]
fn installed_runtimes_newest_first() {
    let entries = vec![
        (s("25.1"), s("/j/25.1/bin/java")),
        (s("_archives"), s("/j/_archives/bin/java")),
        (s("26.2"), s("/j/26.2/bin/java")),
    ];
    let r = installed_runtimes(entries);
    assert_eq!(r, vec![(s("26.2"), s("/j/26.2/bin/java")), (s("25.1"), s("/j/25.1/bin/java"))]);
}

#[test]
fn option_written_reads_back() {
    let content = "fov:0.0\r\nguiScale:2\n";
    let written = set_option(content, "renderDistance", "12");
    assert_eq!(get_option(&written, "renderDistance"), Some(s("12")));
    assert_eq!(get_option(&written, "guiScale"), Some(s("2")));
    let rewritten = set_option(&written, "guiScale", "3");
    assert_eq!(get_option(&rewritten, "guiScale"), Some(s("3")));
    assert_eq!(get_option(&rewritten, "renderDistance"), Some(s("12")));
}

#[test]
fn sorting_keeps_equal_keys_in_their_order() {
    let rows = vec![
        ("b".to_string(), "first b".to_string()),
        ("a".to_string(), "first a".to_string()),
        ("b".to_string(), "second b".to_string()),
        ("a".to_string(), "second a".to_string()),
    ];
    let up = sort_by_key(rows.clone(), false);
    let seconds: Vec<&str> = up.iter().map(|r| r.1.as_str()).collect();
    assert_eq!(seconds, vec!["first a", "second a", "first b", "second b"]);
    let down = sort_by_key(rows, true);
    let seconds: Vec<&str> = down.iter().map(|r| r.1.as_str()).collect();
    assert_eq!(seconds, vec!["first b", "second b", "first a", "second a"]);
}

#[test]
fn options_export_and_import() {
    let pairs = option_pairs("fov:70\r\nno colon here\nguiScale:2\nlang:en_us:x\n");
    assert_eq!(
        pairs,
        vec![
            ("fov".to_string(), "70".to_string()),
            ("guiScale".to_string(), "2".to_string()),
            ("lang".to_string(), "en_us:x".to_string()),
        ]
    );
    let text = options_from_pairs(&pairs);
    assert_eq!(text, "fov:70\nguiScale:2\nlang:en_us:x\n");
    assert_eq!(option_pairs(&text), pairs);
    assert_eq!(options_from_pairs(&Vec::new()), "\n");
    assert!(option_pairs("").is_empty());
    // A key given twice keeps its place and takes the later value.
    assert_eq!(
        option_pairs("a:1\nb:2\na:3\n"),
        vec![("a".to_string(), "3".to_string()), ("b".to_string(), "2".to_string())]
    );
}
