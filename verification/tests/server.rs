use mcdebug_launcher::listing::sort_by_key;
use mcdebug_launcher::props::PropertiesFile;
use mcdebug_launcher::server::{
    check_server_launch, console_target, default_server_properties, is_ready_line, load_server, new_server_info,
    rcon_addr, rotate_rcon_password, server_java_args, server_metadata_path, servers_dir, ServerInfo, EULA_TEXT,
};

fn info(port: Option<u16>, pw: Option<&str>) -> ServerInfo {
    ServerInfo {
        name: "demo".to_string(),
        version: "1.21.4".to_string(),
        memory: Some("4G".to_string()),
        rcon_port: port,
        rcon_password: pw.map(|s| s.to_string()),
    }
}

#[test]
fn server_locations() {
    assert_eq!(servers_dir("/data"), "/data/servers");
    assert_eq!(info(None, None).dir("/data"), "/data/servers/demo");
    assert_eq!(server_metadata_path("/data", "demo"), "/data/servers/demo/server.json");
}

#[test]
fn missing_metadata_is_reported() {
    let e = load_server("ghost", None).err().unwrap();
    assert_eq!(e, "Server 'ghost' does not exist (create it with `mdl server create`)");
    let ok = load_server("demo", Some(Ok(info(Some(25575), Some("pw"))))).unwrap();
    assert_eq!(ok.name, "demo");
}

#[test]
fn rcon_addresses() {
    assert_eq!(rcon_addr(&info(Some(25575), Some("abc123"))), Some("127.0.0.1:25575|abc123".to_string()));
    assert_eq!(rcon_addr(&info(Some(25575), Some(""))), None);
    assert_eq!(rcon_addr(&info(None, Some("abc"))), None);
    assert_eq!(
        console_target(&info(Some(25576), Some("pw"))),
        Ok(("127.0.0.1:25576".to_string(), "pw".to_string()))
    );
    assert_eq!(
        console_target(&info(None, None)).err().unwrap(),
        "Server 'demo' has no RCON config (re-create it or enable-rcon manually in server.properties)"
    );
}

#[test]
fn rotation_updates_properties_and_metadata() {
    let mut props = PropertiesFile::from_text("server-port=25565\nenable-rcon=false\n");
    let mut meta = info(None, None);
    rotate_rcon_password(&mut meta, &mut props, "0123456789abcdef01234567");
    assert_eq!(props.get("enable-rcon"), Some("true".to_string()));
    assert_eq!(props.get("rcon.port"), Some("25575".to_string()));
    assert_eq!(props.get("rcon.password"), Some("0123456789abcdef01234567".to_string()));
    assert_eq!(meta.rcon_port, Some(25575));
    assert_eq!(meta.rcon_password.as_deref(), Some("0123456789abcdef01234567"));

    let mut props = PropertiesFile::from_text("rcon.port=26000\n");
    let mut meta = info(Some(26000), Some("old"));
    rotate_rcon_password(&mut meta, &mut props, "new");
    assert_eq!(meta.rcon_port, Some(26000));
    assert_eq!(props.get("rcon.password"), Some("new".to_string()));
}

#[test]
fn servers_listed_by_name() {
    let mut a = info(None, None);
    a.name = "zeta".to_string();
    let mut b = info(None, None);
    b.name = "alpha".to_string();
    let sorted = sort_by_key(vec![a, b], false);
    assert_eq!(sorted[0].name, "alpha");
    assert_eq!(sorted[1].name, "zeta");
}

#[test]
fn new_server_files_and_launch() {
    assert_eq!(
        default_server_properties(25575, "pw"),
        "server-port=25565\nmotd=MDL managed server\nonline-mode=false\nenable-rcon=true\nrcon.port=25575\nrcon.password=pw\n"
    );
    assert!(EULA_TEXT.starts_with("eula=true\n"));
    let info = new_server_info("demo", "1.21.4", None, "pw".to_string());
    assert_eq!(info.rcon_port, Some(25575));
    assert_eq!(server_java_args(&info), vec!["-Xmx2G", "-Xms2G", "-jar", "server.jar", "nogui"]);
    let info = new_server_info("demo", "1.21.4", Some("6G"), "pw".to_string());
    assert_eq!(server_java_args(&info)[0], "-Xmx6G");
    assert_eq!(check_server_launch("demo", "/s/demo", true, None, true), Ok(()));
    assert_eq!(
        check_server_launch("demo", "/s/demo", false, None, true),
        Err("server.jar missing in /s/demo (re-create the server or supply a server jar)".to_string())
    );
    assert_eq!(
        check_server_launch("demo", "/s/demo", true, Some(77), true),
        Err("Server 'demo' is already running (PID 77)".to_string())
    );
    assert_eq!(
        check_server_launch("demo", "/s/demo", true, None, false),
        Err("eula.txt missing \u{2014} refusing to start the server without an accepted EULA".to_string())
    );
    assert!(is_ready_line("[12:00:01] [Server thread/INFO]: Done (3.214s)! For help, type \"help\""));
    assert!(!is_ready_line("[12:00:00] [Server thread/INFO]: Preparing level \"world\""));
}
