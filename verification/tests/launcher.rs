use mcdebug_launcher::launch_args::{
    apply_arguments, check_rules, dedup_by_coordinate, ensure_neoforge_ignored, finish_classpath,
    installed_neoforge_version, neoform_version_from_args, ArgumentValue, Rule, Substitution,
};
use mcdebug_launcher::launcher::{
    game_arguments, gc_arguments, has_fabric_api, jvm_arguments, memory_settings, window_title, GameArgInputs,
    InstanceLauncher, JvmArgInputs, LaunchOptions,
};

fn s(v: &str) -> String {
    v.to_string()
}

fn rule(action: &str, os: Option<&str>) -> Rule {
    Rule { action: s(action), os_name: os.map(s) }
}

fn inputs() -> GameArgInputs {
    GameArgInputs {
        username: None,
        version: s("1.21.1"),
        game_dir: s("/inst/.minecraft"),
        assets_dir: s("/data/assets"),
        asset_index: Some(s("17")),
        fullscreen: false,
        width: None,
        height: None,
        server: None,
        main_class: s("net.minecraft.client.main.Main"),
        version_dir: s("/inst/versions/1.21.1"),
        loader_game_args: Vec::new(),
        window_title: String::new(),
    }
}

#[test]
fn launch_options_default_is_all_off_but_oom_protection() {
    let o = LaunchOptions::default();
    assert!(o.oom_protect);
    assert!(o.username.is_none() && o.server.is_none() && o.memory.is_none());
    assert!(!o.fullscreen && !o.detach && !o.agent && !o.wait_ready && !o.dynamic_memory);
    assert!(o.javaagents.is_empty());
}

#[test]
fn launcher_java_selection() {
    assert_eq!(InstanceLauncher::new(None).java_path, "java");
    assert_eq!(InstanceLauncher::new(Some(s("/jdk/bin/java"))).java_path, "/jdk/bin/java");
    let ok = InstanceLauncher::with_java_version(21, s("/jdk21/bin/java"), 21).ok().unwrap();
    assert_eq!(ok.java_path, "/jdk21/bin/java");
    let err = InstanceLauncher::with_java_version(21, s("/jdk17/bin/java"), 17).err().unwrap();
    assert_eq!(
        err,
        "Minecraft requires Java 21 or later, but found Java 17.\nPlease install Java 21 from: https://adoptium.net/temurin/releases/?version=21"
    );
}

#[test]
fn window_title_lists_mods() {
    assert_eq!(window_title("Survival", &Vec::new()), "MDL: Survival");
    assert_eq!(
        window_title("Modded", &vec![s("sodium"), s("lithium")]),
        "MDL: Modded [sodium, lithium]"
    );
}

#[test]
fn memory_settings_explicit_dynamic_and_default() {
    assert_eq!(memory_settings(&Some(s("6G")), true, 32000), (s("6G"), s("512M")));
    assert_eq!(memory_settings(&None, false, 32000), (s("2G"), s("512M")));
    // Half of total, capped at 8192 and raised to at least 2048.
    assert_eq!(memory_settings(&None, true, 32768), (s("8192M"), s("512M")));
    assert_eq!(memory_settings(&None, true, 12000), (s("6000M"), s("512M")));
    assert_eq!(memory_settings(&None, true, 2000), (s("2048M"), s("512M")));
}

#[test]
fn gc_flags_follow_heap_size() {
    assert_eq!(gc_arguments("8192M"), vec![s("-XX:+UseG1GC"), s("-XX:MaxGCPauseMillis=50")]);
    assert_eq!(gc_arguments("4G"), vec![s("-XX:+UseG1GC"), s("-XX:MaxGCPauseMillis=50")]);
    assert_eq!(gc_arguments("3000M"), vec![s("-XX:+UseSerialGC")]);
    assert_eq!(gc_arguments("junk"), vec![s("-XX:+UseSerialGC")]);
}

#[test]
fn game_arguments_vanilla() {
    let args = game_arguments(&inputs());
    let expected: Vec<String> = [
        "--username", "Player", "--version", "1.21.1", "--gameDir", "/inst/.minecraft",
        "--assetsDir", "/data/assets", "--assetIndex", "17", "--uuid",
        "00000000-0000-0000-0000-000000000000", "--accessToken", "0", "--userType", "legacy",
        "--versionType", "release",
    ]
    .iter()
    .map(|x| s(x))
    .collect();
    assert_eq!(args, expected);
}

#[test]
fn game_arguments_window_server_title_and_forge() {
    let mut a = inputs();
    a.username = Some(s("Steve"));
    a.fullscreen = true;
    a.width = Some(1280);
    a.height = Some(720);
    a.server = Some(s("play.example.org:25570"));
    a.window_title = s("MDL: x");
    a.main_class = s("net.minecraftforge.bootstrap.ForgeBootstrap");
    a.asset_index = None;
    let args = game_arguments(&a);
    let tail: Vec<String> = args[16..].to_vec();
    assert_eq!(args[1], "Steve");
    assert_eq!(
        tail,
        vec![
            s("--fullscreen"), s("--width"), s("1280"), s("--height"), s("720"),
            s("--server"), s("play.example.org"), s("--port"), s("25570"),
            s("--title"), s("MDL: x"),
            s("--launchTarget"), s("fmlclient"), s("--gameJar"), s("/inst/versions/1.21.1/1.21.1.jar"),
        ]
    );
    // A port that does not parse falls back to 25565.
    a.server = Some(s("host:notaport"));
    a.window_title = String::new();
    a.fullscreen = false;
    a.width = None;
    a.height = None;
    a.main_class = s("net.minecraft.client.main.Main");
    let args = game_arguments(&a);
    assert_eq!(args[16..].to_vec(), vec![s("--server"), s("host"), s("--port"), s("25565")]);
}

#[test]
fn game_arguments_neoforge_keeps_loader_args() {
    let mut a = inputs();
    a.main_class = s("cpw.mods.bootstraplauncher.BootstrapLauncher");
    a.loader_game_args = vec![s("--fml.neoForgeVersion"), s("21.1.1")];
    let args = game_arguments(&a);
    assert_eq!(args[18..].to_vec(), vec![s("--fml.neoForgeVersion"), s("21.1.1")]);
}

#[test]
fn rules_by_platform() {
    assert!(check_rules(&Vec::new(), "linux"));
    assert!(check_rules(&vec![rule("allow", Some("osx"))], "linux"));
    assert!(!check_rules(&vec![rule("disallow", Some("osx"))], "macos"));
    assert!(!check_rules(&vec![rule("disallow", None)], "windows"));
    assert!(check_rules(&vec![rule("disallow", Some("windows"))], "linux"));
}

#[test]
fn arguments_applied_and_substituted() {
    let sub = Substitution {
        library_directory: s("/libs"),
        classpath_separator: s(":"),
        version_name: s("neoforge-21.1.1"),
    };
    let args = vec![
        ArgumentValue::Plain(s("-DlibraryDirectory=${library_directory}")),
        ArgumentValue::Ruled { rules: vec![rule("allow", Some("osx"))], values: vec![s("-XstartOnFirstThread")] },
        ArgumentValue::Ruled { rules: vec![rule("allow", Some("linux"))], values: vec![s("-Dv=${version_name}")] },
        ArgumentValue::Plain(s("a${classpath_separator}b")),
    ];
    assert_eq!(
        apply_arguments(&args, "linux", &sub),
        vec![s("-DlibraryDirectory=/libs"), s("-XstartOnFirstThread"), s("-Dv=neoforge-21.1.1"), s("a:b")]
    );
    // Only a matching disallow rule drops an entry.
    let gated = vec![ArgumentValue::Ruled { rules: vec![rule("disallow", Some("linux"))], values: vec![s("-Xno")] }];
    assert!(apply_arguments(&gated, "linux", &sub).is_empty());
    assert_eq!(apply_arguments(&gated, "windows", &sub), vec![s("-Xno")]);
}

#[test]
fn neoforge_ignore_list() {
    let mut a = vec![s("-Xmx2G"), s("-DignoreList=client-extra,foo")];
    ensure_neoforge_ignored(&mut a);
    assert_eq!(a, vec![s("-Xmx2G"), s("-DignoreList=client-extra,foo,neoforge-")]);
    let mut b = vec![s("-DignoreList=a, neoforge-")];
    ensure_neoforge_ignored(&mut b);
    assert_eq!(b, vec![s("-DignoreList=a, neoforge-")]);
    let mut c = vec![s("-Xss1M")];
    ensure_neoforge_ignored(&mut c);
    assert_eq!(c, vec![s("-Xss1M"), s("-DignoreList=neoforge-")]);
}

#[test]
fn neoform_version_from_game_args() {
    let game = vec![
        ArgumentValue::Plain(s("--fml.mcVersion")),
        ArgumentValue::Plain(s("1.21.1")),
        ArgumentValue::Ruled { rules: Vec::new(), values: vec![s("--fml.neoFormVersion"), s("20240808.144430")] },
    ];
    assert_eq!(neoform_version_from_args(&game), Some(s("1.21.1-20240808.144430")));
    let partial = vec![ArgumentValue::Plain(s("--fml.mcVersion")), ArgumentValue::Plain(s("1.21.1"))];
    assert_eq!(neoform_version_from_args(&partial), None);
}

#[test]
fn classpath_keeps_first_of_each_coordinate() {
    let entries = vec![
        s("/libs/org/ow2/asm/asm/9.7/asm-9.7.jar"),
        s("/libs/com/google/guava/guava/32.1.2/guava-32.1.2.jar"),
        s("/libs/org/ow2/asm/asm/9.5/asm-9.5.jar"),
    ];
    assert_eq!(
        dedup_by_coordinate(&entries),
        vec![s("/libs/org/ow2/asm/asm/9.7/asm-9.7.jar"), s("/libs/com/google/guava/guava/32.1.2/guava-32.1.2.jar")]
    );
    assert_eq!(
        finish_classpath(&entries, &vec![s("/v/client.jar")], ":"),
        "/libs/org/ow2/asm/asm/9.7/asm-9.7.jar:/libs/com/google/guava/guava/32.1.2/guava-32.1.2.jar:/v/client.jar"
    );
}

#[test]
fn neoforge_version_check() {
    assert_eq!(installed_neoforge_version("neoforge-21.1.1", "21.1.1"), Ok(s("21.1.1")));
    assert_eq!(installed_neoforge_version("neoforge-21.1.1", "latest"), Ok(s("21.1.1")));
    assert_eq!(
        installed_neoforge_version("neoforge-21.1.2", "21.1.1"),
        Err(s("NeoForge version mismatch: expected 21.1.1 but found 21.1.2. Please recreate the instance with the correct version."))
    );
}

fn jvm_inputs() -> JvmArgInputs {
    JvmArgInputs {
        xmx: s("8192M"),
        xms: s("512M"),
        dynamic_memory: false,
        natives_dir: s("/v/natives"),
        agent: false,
        agent_port: 25585,
        loader_jvm_args: Vec::new(),
        module_entries: Vec::new(),
        path_separator: s(":"),
        classpath: s("/a.jar:/b.jar"),
        main_class: s("net.minecraft.client.main.Main"),
    }
}

#[test]
fn jvm_arguments_plain_dynamic_and_agent() {
    assert_eq!(
        jvm_arguments(&jvm_inputs()),
        vec![s("-Xmx8192M"), s("-Xms512M"), s("-Djava.library.path=/v/natives"), s("-cp"), s("/a.jar:/b.jar"), s("net.minecraft.client.main.Main")]
    );
    let mut a = jvm_inputs();
    a.dynamic_memory = true;
    a.agent = true;
    a.agent_port = 25600;
    a.loader_jvm_args = vec![s("-DignoreList=neoforge-")];
    assert_eq!(
        jvm_arguments(&a),
        vec![
            s("-Xmx8192M"), s("-Xms512M"), s("-XX:+UseG1GC"), s("-XX:MaxGCPauseMillis=50"),
            s("-Djava.library.path=/v/natives"), s("-Ddespotes.port=25600"), s("-DignoreList=neoforge-"),
            s("-cp"), s("/a.jar:/b.jar"), s("net.minecraft.client.main.Main"),
        ]
    );
}

#[test]
fn jvm_arguments_legacy_forge_modules() {
    let mut a = jvm_inputs();
    a.module_entries = vec![s("/l/a.jar"), s("/l/b.jar")];
    let args = jvm_arguments(&a);
    assert_eq!(args[3], "-p");
    assert_eq!(args[4], "/l/a.jar:/l/b.jar");
    assert_eq!(args[5], "--add-modules");
    assert_eq!(args.len(), 3 + 12 + 3);
}

#[test]
fn fabric_api_presence() {
    assert!(has_fabric_api(&vec![s("sodium.jar"), s("Fabric-API-0.100.jar")]));
    assert!(!has_fabric_api(&vec![s("sodium.jar")]));
}
