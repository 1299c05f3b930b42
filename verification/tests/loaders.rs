use mcdebug_launcher::capture::CapturedImage;
use mcdebug_launcher::collector::{read_idle_timeout_marker, IdleTimeoutEvent};
use mcdebug_launcher::jar_files::{find_companion_jar, installed_companions, is_installed};
use mcdebug_launcher::loaders::{
    fabric_api_query_url, fabric_library_location, fabric_profile_url, fabric_version_id, forge_installer_url,
    forge_version_of_listed, forge_versions_for, latest_stable_fabric, quilt_profile_url, quilt_version_id,
    FabricInstaller, FabricLoaderVersion, ForgeInstaller, OptiFineInstaller, QuiltInstaller,
};

fn s(v: &str) -> String {
    v.to_string()
}

#[test]
fn fabric_versions_and_urls() {
    let vs = vec![
        FabricLoaderVersion { version: s("0.17.0-beta.1"), stable: false },
        FabricLoaderVersion { version: s("0.16.10"), stable: true },
        FabricLoaderVersion { version: s("0.16.9"), stable: true },
    ];
    assert_eq!(latest_stable_fabric(&vs), Some(s("0.16.10")));
    assert_eq!(latest_stable_fabric(&vs[..1].to_vec()), None);
    assert_eq!(
        fabric_profile_url("1.21.4", "0.16.10"),
        "https://meta.fabricmc.net/v2/versions/loader/1.21.4/0.16.10"
    );
    assert_eq!(fabric_version_id("1.21.4", "0.16.10"), "fabric-loader-0.16.10-1.21.4");
    assert_eq!(
        fabric_api_query_url("1.21.4"),
        "https://api.modrinth.com/v2/project/P7dR8mSH/version?game_versions=[\"1.21.4\"]&loaders=[\"fabric\"]"
    );
    assert_eq!(FabricInstaller::new(Some(s("0.16.10"))).version, Some(s("0.16.10")));
}

#[test]
fn fabric_library_locations() {
    assert_eq!(
        fabric_library_location("net.fabricmc:intermediary:1.21.4", ""),
        Ok((
            s("net/fabricmc/intermediary/1.21.4/intermediary-1.21.4.jar"),
            s("https://maven.fabricmc.net/net/fabricmc/intermediary/1.21.4/intermediary-1.21.4.jar")
        ))
    );
    assert_eq!(
        fabric_library_location("org.ow2.asm:asm:9.7", "https://maven.fabricmc.net//").unwrap().1,
        "https://maven.fabricmc.net/org/ow2/asm/asm/9.7/asm-9.7.jar"
    );
    assert_eq!(fabric_library_location("bad:name", ""), Err(s("Invalid library name format: bad:name")));
}

#[test]
fn forge_versions_and_urls() {
    let listed = vec![s("1.21.1-52.0.1"), s("1.20.1-47.2.0"), s("1.21.1-52.0.0")];
    assert_eq!(forge_versions_for(&listed, "1.21.1"), vec![s("1.21.1-52.0.1"), s("1.21.1-52.0.0")]);
    assert_eq!(forge_version_of_listed("1.21.1-52.0.1", "1.21.1"), "52.0.1");
    assert_eq!(
        forge_installer_url("1.20.1", "47.2.0"),
        "https://maven.minecraftforge.net/net/minecraftforge/forge/1.20.1-47.2.0/forge-1.20.1-47.2.0-installer.jar"
    );
    let f = ForgeInstaller::new(None);
    assert_eq!(f.version(), "latest");
    assert_eq!(f.loader_type(), "forge");
}

#[test]
fn quilt_and_optifine() {
    let q = QuiltInstaller::new(s("0.26.0"));
    assert_eq!(q.version(), "0.26.0");
    assert_eq!(q.loader_type(), "quilt");
    assert_eq!(
        quilt_profile_url("1.21.1", "0.26.0"),
        "https://meta.quiltmc.org/v3/versions/loader/1.21.1/0.26.0/profile/json"
    );
    assert_eq!(quilt_version_id("1.21.1", "0.26.0"), "quilt-loader-0.26.0-1.21.1");
    let o = OptiFineInstaller::new(s("HD_U_J1"));
    assert_eq!(o.loader_type(), "optifine");
    let e = o.install("1.21.1", "/inst/mods").unwrap_err();
    assert!(e.contains("1. Download OptiFine HD_U_J1 for Minecraft 1.21.1"));
    assert!(e.contains("Place the OptiFine JAR in: /inst/mods/"));
}

#[test]
fn companion_builds() {
    let mods = vec![s("sodium.jar"), s("mdl-agent-companion-1.0.0.jar")];
    assert!(is_installed(&mods));
    assert_eq!(installed_companions(&mods), vec![s("mdl-agent-companion-1.0.0.jar")]);
    assert!(!is_installed(&vec![s("sodium.jar")]));
    let listings = vec![
        vec![s("mdl.exe")],
        vec![s("mdl-agent-companion-1.0.0.jar"), s("mdl-agent-companion-1.2.0.jar")],
        vec![s("mdl-agent-companion-9.0.0.jar")],
    ];
    assert_eq!(find_companion_jar(&listings), Ok((1, s("mdl-agent-companion-1.2.0.jar"))));
    assert!(find_companion_jar(&vec![vec![s("x.jar")]]).unwrap_err().starts_with("Companion mod JAR not found."));
}

#[test]
fn despotes_and_prismate_presence() {
    assert!(mcdebug_launcher::despotes::is_installed(&vec![s("Despotes-v26.0-fabric-1.21.1.jar")]));
    assert!(!mcdebug_launcher::despotes::is_installed(&vec![s("Despotes-v26.0-fabric-1.21.1.jar.disabled")]));
    assert!(mcdebug_launcher::prismate::is_installed(&vec![s("AprismPrismate-1.0-fabric.jar")]));
}

#[test]
fn idle_marker_and_frames() {
    let e = IdleTimeoutEvent { instance: s("demo"), pid: 7, idle_seconds: 60, timestamp: s("t") };
    assert_eq!(read_idle_timeout_marker(Ok(e)).map(|x| x.pid), Some(7));
    assert!(read_idle_timeout_marker(Err(s("missing"))).is_none());
    let img = CapturedImage { width: 2, height: 1, png_bytes: vec![0x89, b'P'] };
    assert_eq!(img.png_bytes.len(), 2);
}
