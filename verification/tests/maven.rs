use mcdebug_launcher::maven::{get_library_path_from_name, library_name_to_path, maven_artifact_url};

#[test]
fn artifact_urls() {
    assert_eq!(
        maven_artifact_url("net.fabricmc:intermediary:1.21.4", "https://maven.fabricmc.net/"),
        "https://maven.fabricmc.net/net/fabricmc/intermediary/1.21.4/intermediary-1.21.4.jar"
    );
    assert_eq!(maven_artifact_url("bad", "https://x/"), "");
}

#[test]
fn library_paths() {
    assert_eq!(
        library_name_to_path("net.neoforged:mergetool:2.0.0:api@jar", true).unwrap(),
        "net/neoforged/mergetool/2.0.0/mergetool-2.0.0-api.jar"
    );
    assert_eq!(
        library_name_to_path("net.minecraftforge:forge:1.20.1-47.2.0:universal", false).unwrap(),
        "net/minecraftforge/forge/1.20.1-47.2.0/forge-1.20.1-47.2.0-universal.jar"
    );
    assert_eq!(library_name_to_path("x:y", true).unwrap_err(), "Invalid library name format: x:y");
    assert_eq!(
        get_library_path_from_name("org.lwjgl:lwjgl:3.3.1:natives-windows", "/libs"),
        "/libs/org/lwjgl/lwjgl/3.3.1/lwjgl-3.3.1-natives-windows.jar"
    );
    assert_eq!(get_library_path_from_name("plain.jar", "/libs"), "/libs/plain.jar");
}
