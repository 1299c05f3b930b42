use mcdebug_launcher::instance::LoaderConfig;
use mcdebug_launcher::modpack::{export_dependencies, export_mod_entry, is_unsafe_pack_path, override_target};
use mcdebug_launcher::bedrock::{bds_url_for, runtime_dir};
use mcdebug_launcher::content::{urlencoded, ContentKind};
use mcdebug_launcher::modpack::{encode, ModrinthPackIndex, PackFile};

#[test]
fn test_urlencoded() {
    assert_eq!(urlencoded("hello world"), "hello%20world");
    assert_eq!(urlencoded("[\"a\"]"), "%5B%22a%22%5D");
}

#[test]
fn test_kinds() {
    assert_eq!(ContentKind::Shader.project_type(), "shader");
    assert_eq!(ContentKind::ResourcePack.instance_dir(), "resourcepacks");
}

#[test]
fn urlencoded_escapes_each_utf8_byte() {
    assert_eq!(urlencoded("a-b_c.d~e"), "a-b_c.d~e");
    assert_eq!(urlencoded("é"), "%C3%A9");
}

#[test]
fn test_bds_url_for() {
    let url = bds_url_for("1.26.43.1");
    assert!(url.ends_with("bedrock-server-1.26.43.1.zip"));
    assert_eq!(
        url,
        "https://www.minecraft.net/bedrockdedicatedserver/bin-win/bedrock-server-1.26.43.1.zip"
    );
}

#[test]
fn runtime_dir_is_under_the_server_dir() {
    assert_eq!(runtime_dir("/srv/bds"), "/srv/bds/runtime");
    assert_eq!(runtime_dir("/srv/bds/"), "/srv/bds/runtime");
}

fn pack_file(path: &str, client: Option<&str>) -> PackFile {
    PackFile {
        path: path.to_string(),
        hashes: vec![("sha1".to_string(), "abc".to_string())],
        env: match client {
            Some(c) => vec![("client".to_string(), c.to_string()), ("server".to_string(), "required".to_string())],
            None => Vec::new(),
        },
        downloads: vec!["https://example.com/x.jar".to_string()],
        file_size: 1,
    }
}

fn index(deps: Vec<(&str, &str)>) -> ModrinthPackIndex {
    ModrinthPackIndex {
        format_version: 1,
        game: "minecraft".to_string(),
        version_id: "1.0.0".to_string(),
        name: "Test Pack".to_string(),
        summary: "A test pack".to_string(),
        dependencies: deps.into_iter().map(|(k, v)| (k.to_string(), v.to_string())).collect(),
        files: vec![
            pack_file("mods/example.jar", Some("required")),
            pack_file("mods/serveronly.jar", Some("unsupported")),
            pack_file("mods/any.jar", None),
        ],
    }
}

#[test]
fn pack_index_requirements() {
    let idx = index(vec![("minecraft", "1.21.1"), ("fabric-loader", "0.16.9")]);
    assert_eq!(idx.minecraft_version(), Some("1.21.1"));
    assert_eq!(idx.loader(), Some(("fabric", "0.16.9")));
    let client = idx.client_files();
    assert_eq!(client.len(), 2);
    assert_eq!(client[0].path, "mods/example.jar");
    assert_eq!(client[1].path, "mods/any.jar");
    let none = index(vec![("minecraft", "1.20")]);
    assert!(none.loader().is_none());
    let neo = index(vec![("neoforge", "21.1.1")]);
    assert_eq!(neo.loader(), Some(("neoforge", "21.1.1")));
    assert_eq!(neo.minecraft_version(), None);
}

#[test]
fn hex_encoding_is_lower_case_two_digits() {
    assert_eq!(encode(&[0x00, 0x0f, 0xab, 0xff]), "000fabff");
    assert_eq!(encode(&[]), "");
}

#[test]
fn pack_override_targets_are_safe() {
    assert_eq!(override_target("overrides/config/a.toml", false), Some("config/a.toml".to_string()));
    assert_eq!(override_target("client-overrides/options.txt", false), Some("options.txt".to_string()));
    assert_eq!(override_target("overrides/", false), None);
    assert_eq!(override_target("overrides/config/", true), None);
    assert_eq!(override_target("overrides/../evil", false), None);
    assert_eq!(override_target("overrides//etc/passwd", false), None);
    assert_eq!(override_target("mods/a.jar", false), None);
    assert!(is_unsafe_pack_path("/abs"));
    assert!(!is_unsafe_pack_path("mods/a.jar"));
}

#[test]
fn exported_pack_names_loader() {
    let l = LoaderConfig { loader_type: "quilt".to_string(), version: "0.26.0".to_string() };
    assert_eq!(
        export_dependencies("1.21.1", Some(&l)),
        vec![("minecraft".to_string(), "1.21.1".to_string()), ("quilt-loader".to_string(), "0.26.0".to_string())]
    );
    let o = LoaderConfig { loader_type: "optifine".to_string(), version: "x".to_string() };
    assert_eq!(export_dependencies("1.21.1", Some(&o)).len(), 1);
    let e = export_mod_entry("a.jar", b"abc");
    assert_eq!(e.path, "mods/a.jar");
    assert_eq!(e.sha1, "a9993e364706816aba3e25717850c26c9cd0d89d");
    assert_eq!(e.file_size, 3);
}

#[test]
fn exported_loader_reads_back() {
    for t in ["fabric", "quilt", "forge", "neoforge"] {
        let l = LoaderConfig { loader_type: t.to_string(), version: "9.9".to_string() };
        let index = ModrinthPackIndex {
            format_version: 1,
            game: "minecraft".to_string(),
            version_id: "1".to_string(),
            name: "p".to_string(),
            summary: String::new(),
            dependencies: export_dependencies("1.21.1", Some(&l)),
            files: Vec::new(),
        };
        assert_eq!(index.loader(), Some((t, "9.9")));
        assert_eq!(index.minecraft_version(), Some("1.21.1"));
    }
}

#[test]
fn test_parse_pack_index() {
    let idx = ModrinthPackIndex {
        format_version: 1,
        game: "minecraft".to_string(),
        version_id: "1.0.0".to_string(),
        name: "Test Pack".to_string(),
        summary: "A test pack".to_string(),
        dependencies: vec![
            ("minecraft".to_string(), "1.21.1".to_string()),
            ("fabric-loader".to_string(), "0.16.9".to_string()),
        ],
        files: vec![
            pack_file("mods/example.jar", Some("required")),
            pack_file("mods/serveronly.jar", Some("unsupported")),
        ],
    };
    assert_eq!(idx.minecraft_version(), Some("1.21.1"));
    assert_eq!(idx.loader(), Some(("fabric", "0.16.9")));
    assert_eq!(idx.files.len(), 2);
    let client = idx.client_files();
    assert_eq!(client.len(), 1);
    assert_eq!(client[0].path, "mods/example.jar");
}

#[test]
fn test_loader_detection_none() {
    let idx = ModrinthPackIndex {
        format_version: 1,
        game: "minecraft".to_string(),
        version_id: "1".to_string(),
        name: String::new(),
        summary: String::new(),
        dependencies: vec![("minecraft".to_string(), "1.20".to_string())],
        files: Vec::new(),
    };
    assert!(idx.loader().is_none());
}
