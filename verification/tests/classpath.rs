use mcdebug_launcher::classpath::{
    assemble_classpath, base_library_use, is_neoforge_main_class, loader_library_source, main_class_of, neoforge_extra_jar,
    neoforge_patched_client, neoforge_universal_jar, BaseLibraryUse, LibrarySource,
};

#[test]
fn loader_library_flavours() {
    let placeholder = loader_library_source(
        "net.minecraftforge:forge:1.20.1-47.2.0:client",
        Some((String::new(), "abc".to_string())),
        None,
    );
    assert!(matches!(placeholder, LibrarySource::ClientPlaceholder));

    let artifact = loader_library_source(
        "org.ow2.asm:asm:9.7",
        Some(("https://maven.example/asm-9.7.jar".to_string(), "deadbeef".to_string())),
        Some("https://ignored/".to_string()),
    );
    match artifact {
        LibrarySource::Artifact { url, sha1 } => {
            assert_eq!(url, "https://maven.example/asm-9.7.jar");
            assert_eq!(sha1, "deadbeef");
        }
        other => panic!("unexpected {:?}", other),
    }

    let maven = loader_library_source(
        "net.fabricmc:intermediary:1.20.1",
        None,
        Some("https://maven.fabricmc.net/".to_string()),
    );
    match maven {
        LibrarySource::Maven { url } => assert_eq!(
            url,
            "https://maven.fabricmc.net/net/fabricmc/intermediary/1.20.1/intermediary-1.20.1.jar"
        ),
        other => panic!("unexpected {:?}", other),
    }

    assert!(matches!(loader_library_source("a:b:1", None, None), LibrarySource::Cached));
    // An empty artifact URL on a non-client library falls through to the
    // repository, and without one to the cache.
    assert!(matches!(
        loader_library_source("a:b:1", Some((String::new(), String::new())), None),
        LibrarySource::Cached
    ));
}

#[test]
fn base_library_uses() {
    assert_eq!(base_library_use("org.lwjgl:lwjgl:3.3.1", false, true), BaseLibraryUse::Skip);
    assert_eq!(base_library_use("org.lwjgl:lwjgl:3.3.1:natives-linux", true, true), BaseLibraryUse::ExtractNatives);
    assert_eq!(base_library_use("org.lwjgl:lwjgl:3.3.1", true, true), BaseLibraryUse::Download);
    assert_eq!(base_library_use("org.lwjgl:lwjgl:3.3.1:natives-linux", true, false), BaseLibraryUse::Skip);
    assert_eq!(base_library_use("org.lwjgl:lwjgl:3.3.1", true, false), BaseLibraryUse::Cached);
}

#[test]
fn neoforge_main_class_and_jars() {
    assert!(is_neoforge_main_class("cpw.mods.bootstraplauncher.BootstrapLauncher"));
    assert!(is_neoforge_main_class("net.neoforged.fml.startup.Client"));
    assert!(!is_neoforge_main_class("net.fabricmc.loader.impl.launch.knot.KnotClient"));
    assert_eq!(main_class_of(Some("a.B".to_string()), Some("c.D".to_string())), "a.B");
    assert_eq!(main_class_of(Some(String::new()), Some("c.D".to_string())), "c.D");
    assert_eq!(main_class_of(None, None), "");
    assert_eq!(
        neoforge_patched_client("/libs", "21.1.1"),
        "/libs/net/neoforged/minecraft-client-patched/21.1.1/minecraft-client-patched-21.1.1.jar"
    );
    assert_eq!(
        neoforge_universal_jar("/libs/", "21.1.1"),
        "/libs/net/neoforged/neoforge/21.1.1/neoforge-21.1.1-universal.jar"
    );
    assert_eq!(
        neoforge_extra_jar("/libs", "1.21.1-20240808.144430"),
        "/libs/net/minecraft/client/1.21.1-20240808.144430/client-1.21.1-20240808.144430-extra.jar"
    );
}

#[test]
fn classpath_is_client_then_loader_then_base_then_neoforge_jars() {
    let v = |xs: &[&str]| xs.iter().map(|x| x.to_string()).collect::<Vec<String>>();
    let loader = v(&["/libs/org/ow2/asm/asm/9.7/asm-9.7.jar"]);
    let base = v(&["/libs/org/ow2/asm/asm/9.6/asm-9.6.jar", "/libs/com/google/gson/2.10/gson-2.10.jar"]);
    let deferred = v(&["/libs/net/neoforged/neoforge/21.1.1/neoforge-21.1.1-universal.jar"]);
    let client = "/inst/versions/1.21.1/1.21.1.jar";
    assert_eq!(
        assemble_classpath(client, false, false, false, &loader, &base, &Vec::new(), ":"),
        "/inst/versions/1.21.1/1.21.1.jar:/libs/org/ow2/asm/asm/9.7/asm-9.7.jar:/libs/com/google/gson/2.10/gson-2.10.jar"
    );
    // NeoForge: no vanilla client while its patched client is present; its
    // game JARs come last.
    assert_eq!(
        assemble_classpath(client, true, true, true, &loader, &base, &deferred, ";"),
        "/libs/org/ow2/asm/asm/9.7/asm-9.7.jar;/libs/com/google/gson/2.10/gson-2.10.jar;/libs/net/neoforged/neoforge/21.1.1/neoforge-21.1.1-universal.jar"
    );
    // Without the patched client the vanilla one leads as a fallback.
    assert!(assemble_classpath(client, true, true, false, &loader, &base, &deferred, ":").starts_with(client));
}
