use mcdebug_launcher::agent_api::{
    check_macro_request, check_schedule_request, classify_error, failure_reply, launch_options_from,
    parse_circuit_body, parse_redstone_body, plan_command, validate_watch_name, AgentCommand, AgentEvent,
    CircuitRequest, CommandExecutor, RedstoneRequest, ScheduleOp,
};
use mcdebug_launcher::capabilities::manifest;

fn s(v: &str) -> String {
    v.to_string()
}

fn opts(pairs: &[(&str, &str)]) -> Vec<(String, String)> {
    pairs.iter().map(|(k, v)| (s(k), s(v))).collect()
}

fn args(v: &[&str]) -> Vec<String> {
    v.iter().map(|x| s(x)).collect()
}

#[test]
fn test_manifest_is_valid_and_complete() {
    let caps = manifest();
    assert_eq!(caps.launcher, "mdl");
    assert_eq!(caps.schema, "mdl.capabilities/v1");
    for path in [
        "/api/v1/status",
        "/api/v1/execute",
        "/api/v1/capabilities",
        "/api/v1/game/:instance/status",
        "/api/v1/game/:instance/input",
        "/api/v1/game/:instance/idle-status",
        "/api/v1/instance/:instance/metrics",
        "/api/v1/instance/:instance/disk",
    ] {
        assert!(caps.endpoints.iter().any(|e| e.path == path), "missing endpoint {}", path);
    }
    let cmds: Vec<&str> = caps.execute_commands.iter().map(|c| c.command).collect();
    for c in ["list", "create", "info", "launch", "stop", "metrics", "disk", "inject-agent", "server-cmd"] {
        assert!(cmds.contains(&c), "missing execute command {}", c);
    }
    assert!(!caps.error_codes.is_empty(), "error_codes must be declared");
    for ec in &caps.error_codes {
        assert!(!ec.code.is_empty());
        assert!(ec.http_status >= 400);
    }
    let types: Vec<&str> = caps.game_inputs.iter().map(|g| g.input_type).collect();
    for t in ["key", "look", "click", "scroll", "chat"] {
        assert!(types.contains(&t), "missing game input {}", t);
    }
    for k in [
        "launch_started",
        "launch_progress",
        "launch_completed",
        "launch_failed",
        "log_line",
        "instance_stopped",
        "game_ready",
        "game_idle_timeout",
    ] {
        assert!(caps.events.kinds.contains(&k), "missing event kind {}", k);
    }
    let launch_cmd = caps.execute_commands.iter().find(|c| c.command == "launch").unwrap();
    let launch_opts: Vec<&str> = launch_cmd.options.iter().map(|o| o.key).collect();
    assert!(launch_opts.contains(&"idle-timeout"), "launch missing idle-timeout option");
    assert!(launch_opts.contains(&"no-idle-timeout"), "launch missing no-idle-timeout option");
    assert!(launch_opts.contains(&"oom-confirm"), "launch missing oom-confirm option");
    assert!(launch_opts.contains(&"oom-list-only"), "launch missing oom-list-only option");
    assert!(launch_opts.contains(&"oom-protect"), "launch missing oom-protect option");
    assert!(launch_opts.contains(&"oom-aggressive"), "launch missing oom-aggressive option");
    assert!(launch_opts.contains(&"javaagent"), "launch missing javaagent option");
}

#[test]
fn test_execute_commands_have_required_args() {
    let caps = manifest();
    for cmd in &caps.execute_commands {
        for arg in cmd.args.iter().filter(|a| a.required) {
            assert!(!arg.name.is_empty(), "empty required arg in {}", cmd.command);
        }
        assert!(!cmd.description.is_empty(), "empty description in {}", cmd.command);
    }
}

#[test]
fn classified_failures() {
    assert_eq!(classify_error("Unknown command: frobnicate"), ("UNKNOWN_COMMAND", 400));
    assert_eq!(classify_error("Usage: server-cmd <server> <command...>"), ("BAD_REQUEST", 400));
    assert_eq!(classify_error("Instance 'x' not found"), ("NOT_FOUND", 404));
    assert_eq!(classify_error("Instance 'x' already exists"), ("ALREADY_EXISTS", 409));
    assert_eq!(classify_error("Instance 'x' is not running"), ("NOT_RUNNING", 409));
    assert_eq!(classify_error("Instance name required"), ("BAD_REQUEST", 400));
    assert_eq!(classify_error("Another instance holds the lock"), ("BUSY", 409));
    assert_eq!(classify_error("disk full"), ("INTERNAL", 500));
    assert_eq!(failure_reply("disk full"), (s("Error: disk full"), "INTERNAL", 500));
}

#[test]
fn classified_codes_are_declared_in_manifest() {
    let caps = manifest();
    for msg in ["unknown command", "usage: x", "not found", "already exists", "not running", "required", "in use", "zzz"] {
        let (code, status) = classify_error(msg);
        assert!(caps.error_codes.iter().any(|e| e.code == code && e.http_status == status), "{code}");
    }
}

#[test]
fn manifest_matches_dispatch() {
    let caps = manifest();
    let jdks: Vec<(String, String)> = Vec::new();
    for cmd in &caps.execute_commands {
        let required = cmd.args.iter().filter(|a| a.required).count();
        for n in 0..=required {
            let given: Vec<String> = (0..n).map(|i| format!("a{i}")).collect();
            let r = plan_command(cmd.command, &given, &Vec::new(), &jdks);
            let missing = match &r {
                Err(e) => e == "Instance name required" || e.starts_with("Usage:"),
                Ok(_) => false,
            };
            assert_eq!(missing, n < required, "{} with {} args", cmd.command, n);
        }
    }
    let r = plan_command("frobnicate", &Vec::new(), &Vec::new(), &jdks);
    assert_eq!(r.err(), Some(s("Unknown command: frobnicate")));
}

#[test]
fn plans_of_commands() {
    let jdks: Vec<(String, String)> = Vec::new();
    let none: Vec<(String, String)> = Vec::new();
    let no_args: Vec<String> = Vec::new();
    assert!(matches!(plan_command("list", &no_args, &none, &jdks), Ok(AgentCommand::List)));
    match plan_command("create", &args(&["demo"]), &none, &jdks) {
        Ok(AgentCommand::Create { name, version }) => {
            assert_eq!(name, "demo");
            assert_eq!(version, "release");
        }
        _ => panic!("create"),
    }
    match plan_command("metrics", &args(&["demo"]), &opts(&[("history", "true")]), &jdks) {
        Ok(AgentCommand::Metrics { name, history }) => {
            assert_eq!(name, "demo");
            assert!(history);
        }
        _ => panic!("metrics"),
    }
    match plan_command("server-cmd", &args(&["srv", "say", "hello"]), &none, &jdks) {
        Ok(AgentCommand::ServerCmd { server, command }) => {
            assert_eq!(server, "srv");
            assert_eq!(command, "say hello");
        }
        _ => panic!("server-cmd"),
    }
    assert_eq!(
        plan_command("server-cmd", &args(&["srv", " ", ""]), &none, &jdks).err(),
        Some(s("Empty console command"))
    );
    match plan_command("inject-agent", &args(&["demo", "spy"]), &opts(&[("params", "v=1")]), &jdks) {
        Ok(AgentCommand::InjectAgent { name, jar, params, java_path }) => {
            assert_eq!((name, jar), (s("demo"), s("spy")));
            assert_eq!(params, Some(s("v=1")));
            assert_eq!(java_path, None);
        }
        _ => panic!("inject-agent"),
    }
    assert_eq!(
        plan_command("launch", &args(&["demo"]), &opts(&[("jdk", "aprism"), ("java-path", "/j")]), &jdks).err(),
        Some(s("jdk and java-path options are mutually exclusive"))
    );
}

#[test]
fn launch_options_of_a_request() {
    let o = launch_options_from(
        &opts(&[
            ("username", "Alex"),
            ("fullscreen", "true"),
            ("width", "1280"),
            ("height", "tall"),
            ("agent", "yes"),
            ("agent-port", "25585"),
            ("idle-timeout", "90"),
            ("oom-protect", "false"),
            ("javaagent", " a.jar, ,b.jar=x=1 ,"),
        ]),
        &Vec::new(),
    );
    assert!(o.detach);
    assert_eq!(o.username, Some(s("Alex")));
    assert!(o.fullscreen);
    assert_eq!(o.width, Some(1280));
    assert_eq!(o.height, None);
    assert!(!o.agent);
    assert_eq!(o.agent_port, Some(25585));
    assert_eq!(o.idle_timeout, Some(90));
    assert!(!o.oom_protect);
    assert!(launch_options_from(&Vec::new(), &Vec::new()).oom_protect);
    assert_eq!(o.javaagents, vec![s("a.jar"), s("b.jar=x=1")]);
    assert_eq!(o.java_path, None);
}

#[test]
fn launch_options_pick_installed_runtime() {
    let installed = vec![(s("26.2"), s("/jdks/26.2/bin/java")), (s("25.1"), s("/jdks/25.1/bin/java"))];
    let newest = launch_options_from(&opts(&[("jdk", "aprism")]), &installed);
    assert_eq!(newest.java_path, Some(s("/jdks/26.2/bin/java")));
    let tagged = launch_options_from(&opts(&[("jdk", "aprism@25.1")]), &installed);
    assert_eq!(tagged.java_path, Some(s("/jdks/25.1/bin/java")));
    let none = launch_options_from(&opts(&[("jdk", "aprism")]), &Vec::new());
    assert_eq!(none.java_path, None);
    let plain = launch_options_from(&opts(&[("java-path", "/usr/bin/java")]), &installed);
    assert_eq!(plain.java_path, Some(s("/usr/bin/java")));
}

#[test]
fn test_build_schedule_payload_validation() {
    assert_eq!(check_schedule_request("add", Some("hb"), Some(100), 1), Ok(ScheduleOp::Add));
    assert_eq!(check_schedule_request("status", None, None, 0), Ok(ScheduleOp::Status));
    assert_eq!(check_schedule_request("remove", Some("hb"), None, 0), Ok(ScheduleOp::Remove));
    assert_eq!(check_schedule_request("ADD", Some("hb"), Some(100), 1), Ok(ScheduleOp::Add));

    assert!(check_schedule_request("add", None, Some(100), 1).is_err());
    assert!(check_schedule_request("add", Some("hb"), None, 1).is_err());
    assert!(check_schedule_request("add", Some("hb"), Some(100), 0).is_err());

    assert!(check_schedule_request("remove", None, None, 0).is_err());

    assert_eq!(
        check_schedule_request("Boom", Some("x"), Some(1), 1),
        Err(s("Unknown schedule op 'boom'. Supported: add / status / remove"))
    );
}

#[test]
fn test_build_macro_payload_validation() {
    assert!(check_macro_request("start-recording", Some("m"), false).is_ok());
    assert!(check_macro_request("record-step", Some("m"), true).is_ok());
    assert!(check_macro_request("status", None, false).is_ok());

    assert_eq!(
        check_macro_request("record-step", Some("m"), false),
        Err(s("macro record-step requires a step action"))
    );
    assert_eq!(check_macro_request("start-recording", None, false), Err(s("macro start-recording requires a name")));
    assert!(check_macro_request("play", None, false).is_err());
    assert_eq!(
        check_macro_request("rewind", Some("m"), false),
        Err(s("Unknown macro op 'rewind'. Supported: start-recording, record-step, stop-recording, play, stop, delete, status"))
    );
}

fn redstone(x: Option<i32>, y: Option<i32>, z: Option<i32>) -> Result<RedstoneRequest, String> {
    Ok(RedstoneRequest { x, y, z })
}

#[test]
fn test_parse_redstone_body() {
    assert_eq!(parse_redstone_body(b"", Err(s("EOF while parsing a value"))), Ok(None));
    assert_eq!(parse_redstone_body(b"  \r\n\t", Err(s("EOF while parsing a value"))), Ok(None));
    assert_eq!(
        parse_redstone_body(br#"{"x":-517,"y":72,"z":-87}"#, redstone(Some(-517), Some(72), Some(-87))),
        Ok(Some((-517, 72, -87)))
    );
    assert_eq!(parse_redstone_body(b"{}", redstone(None, None, None)), Ok(None));
    assert!(parse_redstone_body(br#"{"x":1}"#, redstone(Some(1), None, None)).is_err());
    assert!(parse_redstone_body(br#"{"x":1,"y":2}"#, redstone(Some(1), Some(2), None)).is_err());
    let e = parse_redstone_body(b"not json", Err(s("expected ident at line 1 column 2"))).unwrap_err();
    assert!(e.contains("invalid redstone body"), "{e}");
}

fn circuit(x: Option<i32>, y: Option<i32>, z: Option<i32>, radius: Option<u8>) -> Result<CircuitRequest, String> {
    Ok(CircuitRequest { x, y, z, radius })
}

#[test]
fn test_parse_circuit_body() {
    assert_eq!(parse_circuit_body(b"", Err(s("EOF"))), Ok((None, None, None, None)));
    assert_eq!(parse_circuit_body(b" \r\n", Err(s("EOF"))), Ok((None, None, None, None)));
    assert_eq!(
        parse_circuit_body(b"{...}", circuit(Some(-516), Some(71), Some(-87), Some(3))),
        Ok((Some(-516), Some(71), Some(-87), Some(3)))
    );
    assert_eq!(parse_circuit_body(b"{...}", circuit(None, None, None, Some(8))), Ok((None, None, None, Some(8))));
    assert!(parse_circuit_body(b"{...}", circuit(Some(1), Some(2), None, None)).is_err());
    assert_eq!(
        parse_circuit_body(b"{...}", circuit(None, None, None, Some(9))),
        Err(s("radius must be within 1-8"))
    );
    assert!(parse_circuit_body(b"{...}", circuit(None, None, None, Some(0))).is_err());
    let e = parse_circuit_body(b"{", Err(s("EOF while parsing an object"))).unwrap_err();
    assert_eq!(e, "invalid circuit body: EOF while parsing an object");
}

#[test]
fn watch_names() {
    assert!(validate_watch_name("door-1").is_ok());
    assert!(validate_watch_name("").is_err());
    assert!(validate_watch_name(&"x".repeat(64)).is_ok());
    assert!(validate_watch_name(&"x".repeat(65)).is_err());
    // 22 three-byte characters are 66 bytes.
    assert!(validate_watch_name(&"é".repeat(32)).is_ok());
    assert!(validate_watch_name(&"水".repeat(22)).is_err());
    assert!(validate_watch_name("a/b").is_err());
    assert!(validate_watch_name("a\\b").is_err());
    assert!(validate_watch_name("a..b").is_err());
    assert!(validate_watch_name("a\u{7}b").is_err());
}

#[test]
fn executor_and_events() {
    let e = CommandExecutor::new();
    assert_eq!(e.execute("anything"), Ok(String::new()));
    let ev = AgentEvent::InstanceCreated { name: s("demo") };
    assert!(matches!(ev, AgentEvent::InstanceCreated { .. }));
}

#[test]
fn manifest_lists_every_route_and_event() {
    let caps = manifest();
    for (method, path) in [
        ("POST", "/api/v1/game/:instance/redstone"),
        ("POST", "/api/v1/game/:instance/circuit"),
        ("GET", "/api/v1/game/:instance/screen"),
        ("GET", "/api/v1/game/:instance/watch"),
        ("POST", "/api/v1/game/:instance/watch"),
        ("DELETE", "/api/v1/game/:instance/watch/:name"),
    ] {
        assert!(caps.endpoints.iter().any(|e| e.method == method && e.path == path), "missing {} {}", method, path);
    }
    for k in [
        "schedule_registered",
        "schedule_fired",
        "schedule_removed",
        "macro_recorded",
        "macro_playback_started",
        "macro_playback_finished",
        "macro_removed",
        "circuit_changed",
    ] {
        assert!(caps.events.kinds.contains(&k), "missing event kind {}", k);
    }
}
