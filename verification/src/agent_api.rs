//! Decisions of the agent API: which execute command a request names and
//! with which arguments, the launch options it asks for, how failures are
//! classified, and the validation of the automation and probe requests.
//! Performing the commands (instances on disk, processes, the game) is done
//! by the caller with the plan returned here.
use vstd::prelude::*;
use crate::text;
use crate::launcher::LaunchOptions;
use crate::aprism_jdk;
use crate::capabilities;

verus! {

// ---------------------------------------------------------------------------
// Request options
// ---------------------------------------------------------------------------

/// The options of a request as (key, value) pairs.
pub open spec fn opts_view(v: Seq<(String, String)>) -> Seq<(Seq<char>, Seq<char>)> {
    v.map_values(|p: (String, String)| (p.0@, p.1@))
}

/// The value of `key` (the first pair with that key).
pub open spec fn opt_get(opts: Seq<(Seq<char>, Seq<char>)>, key: Seq<char>) -> Option<Seq<char>>
    decreases opts.len(),
{
    if opts.len() == 0 {
        None
    } else if opts[0].0 == key {
        Some(opts[0].1)
    } else {
        opt_get(opts.skip(1), key)
    }
}

/// Whether an option is set to exactly `true`.
pub open spec fn is_true(v: Option<Seq<char>>) -> bool {
    v == Some("true"@)
}

fn get_option(opts: &Vec<(String, String)>, key: &str) -> (r: Option<String>)
    ensures
        r.deep_view() == opt_get(opts_view(opts@), key@),
{
    let ghost ov = opts_view(opts@);
    let mut i: usize = 0;
    assert(ov.skip(0) =~= ov);
    while i < opts.len()
        invariant
            i <= opts@.len(),
            ov == opts_view(opts@),
            opt_get(ov, key@) == opt_get(ov.skip(i as int), key@),
        decreases opts@.len() - i,
    {
        assert(ov.skip(i as int)[0] == ov[i as int]);
        assert(ov.skip(i as int).skip(1) =~= ov.skip(i + 1));
        if text::str_eq(opts[i].0.as_str(), key) {
            return Some(opts[i].1.clone());
        }
        i += 1;
    }
    None
}

fn option_is_true(opts: &Vec<(String, String)>, key: &str) -> (r: bool)
    ensures
        r == is_true(opt_get(opts_view(opts@), key@)),
{
    match get_option(opts, key) {
        Some(v) => text::str_eq(v.as_str(), "true"),
        None => false,
    }
}

// ---------------------------------------------------------------------------
// Failure classification
// ---------------------------------------------------------------------------

/// The machine-readable code and HTTP status of a failed execute request,
/// from its message (compared in ASCII lower case).
pub open spec fn error_class(msg: Seq<char>) -> (Seq<char>, u16) {
    let m = text::ascii_lower(msg);
    if text::contains(m, "unknown command"@) {
        ("UNKNOWN_COMMAND"@, 400)
    } else if text::starts_with(m, "usage:"@) {
        ("BAD_REQUEST"@, 400)
    } else if text::contains(m, "not found"@) || text::contains(m, "no instance named"@) || text::contains(
        m,
        "does not exist"@,
    ) {
        ("NOT_FOUND"@, 404)
    } else if text::contains(m, "already exists"@) {
        ("ALREADY_EXISTS"@, 409)
    } else if text::contains(m, "not running"@) {
        ("NOT_RUNNING"@, 409)
    } else if text::contains(m, "required"@) {
        ("BAD_REQUEST"@, 400)
    } else if text::contains(m, "in use"@) || text::contains(m, "another instance"@) {
        ("BUSY"@, 409)
    } else {
        ("INTERNAL"@, 500)
    }
}

fn has(m: &[char], pat: &str) -> (r: bool)
    ensures
        r == text::contains(m@, pat@),
{
    let p = text::chars_of(pat);
    text::contains_seq(m, p.as_slice())
}

/// Classifies the message of a failed execute request.
pub fn classify_error(msg: &str) -> (r: (&'static str, u16))
    ensures
        (r.0@, r.1) == error_class(msg@),
{
    let m = text::ascii_lower_str(msg);
    let usage = text::chars_of("usage:");
    if has(m.as_slice(), "unknown command") {
        ("UNKNOWN_COMMAND", 400)
    } else if text::starts_with_seq(m.as_slice(), usage.as_slice()) {
        ("BAD_REQUEST", 400)
    } else if has(m.as_slice(), "not found") || has(m.as_slice(), "no instance named") || has(
        m.as_slice(),
        "does not exist",
    ) {
        ("NOT_FOUND", 404)
    } else if has(m.as_slice(), "already exists") {
        ("ALREADY_EXISTS", 409)
    } else if has(m.as_slice(), "not running") {
        ("NOT_RUNNING", 409)
    } else if has(m.as_slice(), "required") {
        ("BAD_REQUEST", 400)
    } else if has(m.as_slice(), "in use") || has(m.as_slice(), "another instance") {
        ("BUSY", 409)
    } else {
        ("INTERNAL", 500)
    }
}

/// The reply to a failed execute request: the output text (`Error: ` and
/// the message), the error code and the HTTP status.
pub fn failure_reply(msg: &str) -> (r: (String, &'static str, u16))
    ensures
        r.0@ == "Error: "@ + msg@,
        (r.1@, r.2) == error_class(msg@),
{
    let (code, status) = classify_error(msg);
    (text::concat2("Error: ", msg), code, status)
}

/// Every code the classification gives is declared in the capability
/// manifest, with the same HTTP status.
pub proof fn law_error_codes_are_declared(msg: Seq<char>)
    ensures
        capabilities::declared_error_codes().contains(error_class(msg)),
{
    let d = capabilities::declared_error_codes();
    let c = error_class(msg);
    if c == d[0] {
    } else if c == d[1] {
    } else if c == d[2] {
    } else if c == d[3] {
    } else if c == d[4] {
    } else if c == d[5] {
    } else {
        assert(c == d[10]);
    }
}

// ---------------------------------------------------------------------------
// Launch options of a request
// ---------------------------------------------------------------------------

/// The runtime hint of a `jdk` option (`aprism`, `aprism@<tag>` or `<tag>`):
/// a leading `aprism` is dropped, then any leading `@`.
pub open spec fn jdk_hint(jdk: Seq<char>) -> Seq<char> {
    match text::strip_prefix(jdk, "aprism"@) {
        Some(rest) => text::trim_start_char(rest, '@'),
        None => jdk,
    }
}

/// The Java executable a launch request selects: the installed runtime a
/// `jdk` option resolves to among `installed` (newest first); when it does
/// not resolve, or without a `jdk` option, the `java-path` option.
pub open spec fn java_choice(opts: Seq<(Seq<char>, Seq<char>)>, installed: Seq<(String, String)>) -> Option<Seq<char>> {
    match opt_get(opts, "jdk"@) {
        Some(j) => match aprism_jdk::resolution(aprism_jdk::tags_of(installed), Some(jdk_hint(j))) {
            Ok(i) => Some(installed[i].1@),
            Err(_) => opt_get(opts, "java-path"@),
        },
        None => opt_get(opts, "java-path"@),
    }
}

/// The pieces of a comma-separated list, trimmed, empty ones dropped.
pub open spec fn nonempty_trimmed(parts: Seq<Seq<char>>) -> Seq<Seq<char>>
    decreases parts.len(),
{
    if parts.len() == 0 {
        Seq::empty()
    } else {
        let rest = nonempty_trimmed(parts.drop_last());
        let t = text::trim(parts.last());
        if t.len() == 0 {
            rest
        } else {
            rest.push(t)
        }
    }
}

/// The javaagent specs (`jar` or `jar=params`) of a `javaagent` option.
pub open spec fn javaagent_specs(v: Option<Seq<char>>) -> Seq<Seq<char>> {
    match v {
        Some(s) => nonempty_trimmed(text::split_char(s, ',')),
        None => Seq::empty(),
    }
}

pub open spec fn opt_u32(v: Option<Seq<char>>) -> Option<u32> {
    match v {
        Some(s) => text::parse_u32(s),
        None => None,
    }
}

pub open spec fn opt_u16(v: Option<Seq<char>>) -> Option<u16> {
    match v {
        Some(s) => match text::parse_uint(s, 65535) {
            Some(n) => Some(n as u16),
            None => None,
        },
        None => None,
    }
}

pub open spec fn opt_u64(v: Option<Seq<char>>) -> Option<u64> {
    match v {
        Some(s) => match text::parse_uint(s, u64::MAX as nat) {
            Some(n) => Some(n as u64),
            None => None,
        },
        None => None,
    }
}

/// The launch options a request's options ask for. Launches through the
/// agent API are always detached; flags are set by the value `true`;
/// numbers that do not parse are left unset.
pub open spec fn launch_options_for(o: LaunchOptions, opts: Seq<(Seq<char>, Seq<char>)>, installed: Seq<(String, String)>) -> bool {
    &&& o.detach
    &&& o.username.deep_view() == opt_get(opts, "username"@)
    &&& o.server.deep_view() == opt_get(opts, "server"@)
    &&& o.fullscreen == is_true(opt_get(opts, "fullscreen"@))
    &&& o.width == opt_u32(opt_get(opts, "width"@))
    &&& o.height == opt_u32(opt_get(opts, "height"@))
    &&& o.agent == is_true(opt_get(opts, "agent"@))
    &&& o.agent_port == opt_u16(opt_get(opts, "agent-port"@))
    &&& o.java_path.deep_view() == java_choice(opts, installed)
    &&& o.memory.deep_view() == opt_get(opts, "memory"@)
    &&& o.aprism == is_true(opt_get(opts, "aprism"@))
    &&& o.enter_test_world == is_true(opt_get(opts, "enter-test-world"@))
    &&& !o.wait_ready
    &&& o.no_queue == is_true(opt_get(opts, "no-queue"@))
    &&& o.idle_timeout == opt_u64(opt_get(opts, "idle-timeout"@))
    &&& o.no_idle_timeout == is_true(opt_get(opts, "no-idle-timeout"@))
    &&& o.oom_confirm.deep_view() == opt_get(opts, "oom-confirm"@)
    &&& o.oom_list_only == is_true(opt_get(opts, "oom-list-only"@))
    &&& o.oom_protect == (opt_get(opts, "oom-protect"@) is None || is_true(opt_get(opts, "oom-protect"@)))
    &&& o.oom_aggressive == is_true(opt_get(opts, "oom-aggressive"@))
    &&& o.javaagents.deep_view() == javaagent_specs(opt_get(opts, "javaagent"@))
}

fn parse_opt_u32(v: &Option<String>) -> (r: Option<u32>)
    ensures
        r == opt_u32(v.deep_view()),
{
    match v {
        Some(s) => {
            let c = text::chars_of(s.as_str());
            text::parse_u32_seq(c.as_slice())
        },
        None => None,
    }
}

fn parse_opt_u16(v: &Option<String>) -> (r: Option<u16>)
    ensures
        r == opt_u16(v.deep_view()),
{
    match v {
        Some(s) => {
            let c = text::chars_of(s.as_str());
            match text::parse_uint_seq(c.as_slice(), 65535) {
                Some(n) => Some(n as u16),
                None => None,
            }
        },
        None => None,
    }
}

fn parse_opt_u64(v: &Option<String>) -> (r: Option<u64>)
    ensures
        r == opt_u64(v.deep_view()),
{
    match v {
        Some(s) => {
            let c = text::chars_of(s.as_str());
            text::parse_uint_seq(c.as_slice(), u64::MAX)
        },
        None => None,
    }
}

fn javaagents_of(v: &Option<String>) -> (r: Vec<String>)
    ensures
        r.deep_view() == javaagent_specs(v.deep_view()),
{
    let mut out: Vec<String> = Vec::new();
    match v {
        Some(s) => {
            let c = text::chars_of(s.as_str());
            let parts = text::split_char_seq(c.as_slice(), ',');
            let ghost pv = text::split_char(c@, ',');
            let mut k: usize = 0;
            assert(pv.take(0) =~= Seq::<Seq<char>>::empty());
            while k < parts.len()
                invariant
                    k <= parts@.len(),
                    parts@.len() == pv.len(),
                    pv == text::split_char(c@, ','),
                    forall|m: int| 0 <= m < parts@.len() ==> #[trigger] parts@[m]@ == pv[m],
                    out.deep_view() == nonempty_trimmed(pv.take(k as int)),
                decreases parts@.len() - k,
            {
                let t = text::trim_seq(parts[k].as_slice());
                assert(pv.take(k + 1).drop_last() =~= pv.take(k as int));
                assert(pv.take(k + 1).last() == pv[k as int]);
                if t.len() != 0 {
                    let ghost before = out.deep_view();
                    out.push(text::string_of(t.as_slice()));
                    assert(out.deep_view() =~= before.push(t@));
                }
                k += 1;
            }
            assert(pv.take(k as int) =~= pv);
        },
        None => {
            assert(out.deep_view() =~= Seq::<Seq<char>>::empty());
        },
    }
    out
}

fn java_path_choice(options: &Vec<(String, String)>, installed: &Vec<(String, String)>) -> (r: Option<String>)
    ensures
        r.deep_view() == java_choice(opts_view(options@), installed@),
{
    let java_path = get_option(options, "java-path");
    match get_option(options, "jdk") {
        Some(j) => {
            let jc = text::chars_of(j.as_str());
            let ap = text::chars_of("aprism");
            let hint: String = match text::strip_prefix_seq(jc.as_slice(), ap.as_slice()) {
                Some(rest) => {
                    let t = text::trim_start_char_seq(rest.as_slice(), '@');
                    text::string_of(t.as_slice())
                },
                None => j.clone(),
            };
            assert(hint@ == jdk_hint(j@));
            match aprism_jdk::resolve(installed.as_slice(), Some(hint.as_str())) {
                Ok((_tag, java)) => Some(java),
                Err(_) => java_path,
            }
        },
        None => java_path,
    }
}

/// The launch options a request's options ask for, with `installed` the
/// installed runtimes (tag, java executable), newest first.
pub fn launch_options_from(options: &Vec<(String, String)>, installed: &Vec<(String, String)>) -> (o: LaunchOptions)
    ensures
        launch_options_for(o, opts_view(options@), installed@),
{
    let mut o = LaunchOptions::default();
    o.detach = true;
    o.username = get_option(options, "username");
    o.server = get_option(options, "server");
    o.fullscreen = option_is_true(options, "fullscreen");
    o.width = parse_opt_u32(&get_option(options, "width"));
    o.height = parse_opt_u32(&get_option(options, "height"));
    o.agent = option_is_true(options, "agent");
    o.agent_port = parse_opt_u16(&get_option(options, "agent-port"));
    o.java_path = java_path_choice(options, installed);
    o.memory = get_option(options, "memory");
    o.aprism = option_is_true(options, "aprism");
    o.enter_test_world = option_is_true(options, "enter-test-world");
    o.no_queue = option_is_true(options, "no-queue");
    o.idle_timeout = parse_opt_u64(&get_option(options, "idle-timeout"));
    o.no_idle_timeout = option_is_true(options, "no-idle-timeout");
    o.oom_confirm = get_option(options, "oom-confirm");
    o.oom_list_only = option_is_true(options, "oom-list-only");
    o.oom_protect = match get_option(options, "oom-protect") {
        Some(v) => text::str_eq(v.as_str(), "true"),
        None => true,
    };
    o.oom_aggressive = option_is_true(options, "oom-aggressive");
    o.javaagents = javaagents_of(&get_option(options, "javaagent"));
    o
}

// ---------------------------------------------------------------------------
// Execute commands
// ---------------------------------------------------------------------------

/// What an execute request asks for, with its arguments resolved.
pub enum AgentCommand {
    List,
    Create { name: String, version: String },
    Info { name: String },
    /// Launch in the background with these options.
    Launch { name: String, options: LaunchOptions },
    Stop { name: String },
    /// Launch records: the full history, or only the latest.
    Metrics { name: String, history: bool },
    Disk { name: String },
    /// Attach the agent `jar` (a path or a registered name) to the running
    /// game.
    InjectAgent { name: String, jar: String, params: Option<String>, java_path: Option<String> },
    /// Run a console command on a managed server.
    ServerCmd { server: String, command: String },
}

pub open spec fn name_required_msg() -> Seq<char> {
    "Instance name required"@
}

pub open spec fn jdk_conflict_msg() -> Seq<char> {
    "jdk and java-path options are mutually exclusive"@
}

pub open spec fn inject_usage_msg() -> Seq<char> {
    "Usage: inject-agent <instance> <jar> (options: params, java-path)"@
}

pub open spec fn server_cmd_usage_msg() -> Seq<char> {
    "Usage: server-cmd <server> <command...>"@
}

pub open spec fn empty_console_msg() -> Seq<char> {
    "Empty console command"@
}

pub open spec fn unknown_command_msg(command: Seq<char>) -> Seq<char> {
    "Unknown command: "@ + command
}

/// Commands whose first argument names an instance.
pub open spec fn takes_instance_name(c: Seq<char>) -> bool {
    c == "create"@ || c == "info"@ || c == "launch"@ || c == "stop"@ || c == "metrics"@ || c == "disk"@
}

/// The console command of a `server-cmd` request: the arguments after the
/// server name, joined by spaces.
pub open spec fn console_command(args: Seq<Seq<char>>) -> Seq<char> {
    text::join(args.skip(1), " "@)
}

/// The error an execute request fails with before anything is performed,
/// or `None`.
pub open spec fn plan_error(command: Seq<char>, args: Seq<Seq<char>>, opts: Seq<(Seq<char>, Seq<char>)>) -> Option<Seq<char>> {
    if command == "list"@ {
        None
    } else if takes_instance_name(command) {
        if args.len() == 0 {
            Some(name_required_msg())
        } else if command == "launch"@ && opt_get(opts, "jdk"@) is Some && opt_get(opts, "java-path"@) is Some {
            Some(jdk_conflict_msg())
        } else {
            None
        }
    } else if command == "inject-agent"@ {
        if args.len() < 2 {
            Some(inject_usage_msg())
        } else {
            None
        }
    } else if command == "server-cmd"@ {
        if args.len() < 2 {
            Some(server_cmd_usage_msg())
        } else if text::trim(console_command(args)).len() == 0 {
            Some(empty_console_msg())
        } else {
            None
        }
    } else {
        Some(unknown_command_msg(command))
    }
}

/// Whether `c` is the plan of an execute request that `plan_error` accepts.
pub open spec fn plan_matches(
    c: AgentCommand,
    command: Seq<char>,
    args: Seq<Seq<char>>,
    opts: Seq<(Seq<char>, Seq<char>)>,
    installed: Seq<(String, String)>,
) -> bool {
    match c {
        AgentCommand::List => command == "list"@,
        AgentCommand::Create { name, version } => command == "create"@ && name@ == args[0] && version@ == (if args.len()
            > 1 {
            args[1]
        } else {
            "release"@
        }),
        AgentCommand::Info { name } => command == "info"@ && name@ == args[0],
        AgentCommand::Launch { name, options } => command == "launch"@ && name@ == args[0] && launch_options_for(
            options,
            opts,
            installed,
        ),
        AgentCommand::Stop { name } => command == "stop"@ && name@ == args[0],
        AgentCommand::Metrics { name, history } => command == "metrics"@ && name@ == args[0] && history == is_true(
            opt_get(opts, "history"@),
        ),
        AgentCommand::Disk { name } => command == "disk"@ && name@ == args[0],
        AgentCommand::InjectAgent { name, jar, params, java_path } => command == "inject-agent"@ && name@ == args[0]
            && jar@ == args[1] && params.deep_view() == opt_get(opts, "params"@) && java_path.deep_view() == opt_get(
            opts,
            "java-path"@,
        ),
        AgentCommand::ServerCmd { server, command: cmd } => command == "server-cmd"@ && server@ == args[0] && cmd@
            == console_command(args),
    }
}

fn joined_tail(args: &Vec<String>) -> (r: String)
    requires
        args@.len() >= 1,
    ensures
        r@ == console_command(args.deep_view()),
{
    let ghost av = args.deep_view();
    let mut rest: Vec<String> = Vec::new();
    let mut i: usize = 1;
    assert(rest.deep_view() =~= av.subrange(1, 1));
    while i < args.len()
        invariant
            1 <= i <= args@.len(),
            av == args.deep_view(),
            rest.deep_view() == av.subrange(1, i as int),
        decreases args@.len() - i,
    {
        let ghost before = rest.deep_view();
        rest.push(args[i].clone());
        assert(av[i as int] == args@[i as int]@);
        assert(rest.deep_view() =~= before.push(av[i as int]));
        assert(rest.deep_view() =~= av.subrange(1, i + 1));
        i += 1;
    }
    assert(args.deep_view().subrange(1, i as int) =~= args.deep_view().skip(1));
    assert(rest@.map_values(|p: String| p@) =~= rest.deep_view());
    text::join_strings(&rest, " ")
}

/// The plan of an execute request (`command`, positional `args`, `options`),
/// with `installed` the installed runtimes (tag, java executable), newest
/// first, for the `jdk` launch option.
pub fn plan_command(
    command: &str,
    args: &Vec<String>,
    options: &Vec<(String, String)>,
    installed: &Vec<(String, String)>,
) -> (r: Result<AgentCommand, String>)
    ensures
        match plan_error(command@, args.deep_view(), opts_view(options@)) {
            Some(m) => r matches Err(e) && e@ == m,
            None => r matches Ok(c) && plan_matches(c, command@, args.deep_view(), opts_view(options@), installed@),
        },
{
    let ghost av = args.deep_view();
    if text::str_eq(command, "list") {
        return Ok(AgentCommand::List);
    }
    let named = text::str_eq(command, "create") || text::str_eq(command, "info") || text::str_eq(command, "launch")
        || text::str_eq(command, "stop") || text::str_eq(command, "metrics") || text::str_eq(command, "disk");
    if named {
        if args.len() == 0 {
            return Err("Instance name required".to_owned());
        }
        let name = args[0].clone();
        assert(name@ == av[0]);
        if text::str_eq(command, "launch") {
            let has_jdk = get_option(options, "jdk").is_some();
            let has_java = get_option(options, "java-path").is_some();
            if has_jdk && has_java {
                return Err("jdk and java-path options are mutually exclusive".to_owned());
            }
            Ok(AgentCommand::Launch { name, options: launch_options_from(options, installed) })
        } else if text::str_eq(command, "create") {
            let version = if args.len() > 1 {
                assert(av[1] == args@[1]@);
                args[1].clone()
            } else {
                "release".to_owned()
            };
            Ok(AgentCommand::Create { name, version })
        } else if text::str_eq(command, "info") {
            Ok(AgentCommand::Info { name })
        } else if text::str_eq(command, "stop") {
            Ok(AgentCommand::Stop { name })
        } else if text::str_eq(command, "metrics") {
            Ok(AgentCommand::Metrics { name, history: option_is_true(options, "history") })
        } else {
            Ok(AgentCommand::Disk { name })
        }
    } else if text::str_eq(command, "inject-agent") {
        if args.len() < 2 {
            return Err("Usage: inject-agent <instance> <jar> (options: params, java-path)".to_owned());
        }
        assert(av[0] == args@[0]@ && av[1] == args@[1]@);
        Ok(AgentCommand::InjectAgent {
            name: args[0].clone(),
            jar: args[1].clone(),
            params: get_option(options, "params"),
            java_path: get_option(options, "java-path"),
        })
    } else if text::str_eq(command, "server-cmd") {
        if args.len() < 2 {
            return Err("Usage: server-cmd <server> <command...>".to_owned());
        }
        let cmd = joined_tail(args);
        let t = text::trim_str(cmd.as_str());
        if t.as_str().is_empty() {
            return Err("Empty console command".to_owned());
        }
        assert(av[0] == args@[0]@);
        Ok(AgentCommand::ServerCmd { server: args[0].clone(), command: cmd })
    } else {
        Err(text::concat2("Unknown command: ", command))
    }
}

/// Number of arguments marked required.
pub open spec fn required_count(a: Seq<(Seq<char>, bool)>) -> nat
    decreases a.len(),
{
    if a.len() == 0 {
        0
    } else {
        required_count(a.drop_last()) + if a.last().1 {
            1nat
        } else {
            0nat
        }
    }
}

/// Whether the capability manifest declares an execute command.
pub open spec fn declares(command: Seq<char>) -> bool {
    exists|i: int| 0 <= i < capabilities::declared_commands().len() && #[trigger] capabilities::declared_commands()[i].0 == command
}

/// Whether a failure is one of missing arguments.
pub open spec fn missing_args(e: Option<Seq<char>>) -> bool {
    e == Some(name_required_msg()) || e == Some(inject_usage_msg()) || e == Some(server_cmd_usage_msg())
}


/// The capability manifest describes what the execute endpoint accepts: a
/// request is turned away as an unknown command exactly when the manifest
/// does not declare its command, and a declared command fails for missing
/// arguments exactly when fewer arguments are given than the manifest marks
/// required.
pub proof fn law_manifest_matches_dispatch(
    command: Seq<char>,
    args: Seq<Seq<char>>,
    opts: Seq<(Seq<char>, Seq<char>)>,
)
    ensures
        plan_error(command, args, opts) == Some(unknown_command_msg(command)) <==> !declares(command),
        forall|i: int|
            0 <= i < capabilities::declared_commands().len() && #[trigger] capabilities::declared_commands()[i].0
                == command ==> (missing_args(plan_error(command, args, opts)) <==> args.len() < required_count(
                capabilities::declared_commands()[i].1,
            )),
{
    reveal_strlit("list");
    reveal_strlit("create");
    reveal_strlit("info");
    reveal_strlit("launch");
    reveal_strlit("stop");
    reveal_strlit("metrics");
    reveal_strlit("disk");
    reveal_strlit("inject-agent");
    reveal_strlit("server-cmd");
    reveal_strlit("Instance name required");
    reveal_strlit("jdk and java-path options are mutually exclusive");
    reveal_strlit("Usage: inject-agent <instance> <jar> (options: params, java-path)");
    reveal_strlit("Usage: server-cmd <server> <command...>");
    reveal_strlit("Empty console command");
    reveal_strlit("Unknown command: ");
    let d = capabilities::declared_commands();
    let e = plan_error(command, args, opts);
    let u = unknown_command_msg(command);
    assert(u[0] == 'U');
    assert(name_required_msg()[0] == 'I');
    assert(jdk_conflict_msg()[0] == 'j');
    assert(empty_console_msg()[0] == 'E');
    assert(inject_usage_msg()[7] == 'i');
    assert(server_cmd_usage_msg()[7] == 's');
    assert(d[0].0 == "list"@);
    assert(d[1].0 == "create"@);
    assert(d[2].0 == "info"@);
    assert(d[3].0 == "launch"@);
    assert(d[4].0 == "stop"@);
    assert(d[5].0 == "metrics"@);
    assert(d[6].0 == "disk"@);
    assert(d[7].0 == "inject-agent"@);
    assert(d[8].0 == "server-cmd"@);
    assert(required_count(d[0].1) == 0);
    assert(required_count(d[1].1) == 1) by {
        assert(d[1].1.drop_last() =~= seq![("name"@, true)]);
        assert(d[1].1.drop_last().drop_last() =~= Seq::<(Seq<char>, bool)>::empty());
        assert(required_count(d[1].1.drop_last()) == 1);
    }
    assert(required_count(d[2].1) == 1) by {
        assert(d[2].1.drop_last() =~= Seq::<(Seq<char>, bool)>::empty());
    }
    assert(required_count(d[3].1) == 1) by {
        assert(d[3].1.drop_last() =~= Seq::<(Seq<char>, bool)>::empty());
    }
    assert(required_count(d[4].1) == 1) by {
        assert(d[4].1.drop_last() =~= Seq::<(Seq<char>, bool)>::empty());
    }
    assert(required_count(d[5].1) == 1) by {
        assert(d[5].1.drop_last() =~= Seq::<(Seq<char>, bool)>::empty());
    }
    assert(required_count(d[6].1) == 1) by {
        assert(d[6].1.drop_last() =~= Seq::<(Seq<char>, bool)>::empty());
    }
    assert(required_count(d[7].1) == 2) by {
        assert(d[7].1.drop_last() =~= seq![("instance"@, true)]);
        assert(d[7].1.drop_last().drop_last() =~= Seq::<(Seq<char>, bool)>::empty());
    }
    assert(required_count(d[8].1) == 2) by {
        assert(d[8].1.drop_last() =~= seq![("server"@, true)]);
        assert(d[8].1.drop_last().drop_last() =~= Seq::<(Seq<char>, bool)>::empty());
        assert(required_count(d[8].1.drop_last()) == 1);
    }
    assert forall|i: int| 0 <= i < d.len() && #[trigger] d[i].0 == command implies (missing_args(e) <==> args.len()
        < required_count(d[i].1)) by {
        if i == 0 {
            assert(e is None);
        } else if i <= 6 {
            assert(command != "list"@) by {
                if i == 1 { assert(command[0] != "list"@[0]); }
                else if i == 2 { assert(command.len() == 4 && command[1] != "list"@[1]); }
                else if i == 3 { assert(command[0] == "list"@[0] && command.len() != 4); }
                else if i == 4 { assert(command[0] != "list"@[0]); }
                else if i == 5 { assert(command[0] != "list"@[0]); }
                else { assert(command[0] != "list"@[0]); }
            }
            assert(takes_instance_name(command));
            if args.len() == 0 {
                assert(e == Some(name_required_msg()));
            } else {
                assert(e is None || e == Some(jdk_conflict_msg()));
            }
        } else if i == 7 {
            assert(command != "list"@ && !takes_instance_name(command));
        } else {
            assert(i == 8);
            assert(command != "list"@ && !takes_instance_name(command) && command != "inject-agent"@);
            assert(e is None || e == Some(empty_console_msg()) || e == Some(server_cmd_usage_msg()));
        }
    }
    if declares(command) {
        let i = choose|i: int| 0 <= i < d.len() && #[trigger] d[i].0 == command;
        assert(0 <= i < 9);
        assert(e != Some(u));
    } else {
        assert forall|i: int| 0 <= i < d.len() implies #[trigger] d[i].0 != command by {}
        assert(command != d[0].0 && command != d[1].0 && command != d[2].0 && command != d[3].0 && command != d[4].0
            && command != d[5].0 && command != d[6].0 && command != d[7].0 && command != d[8].0);
        assert(e == Some(u));
    }
}

// ---------------------------------------------------------------------------
// Automation requests
// ---------------------------------------------------------------------------

/// Operation of a schedule request.
#[derive(Debug, Clone, Copy, PartialEq, Eq, Structural)]
pub enum ScheduleOp {
    Add,
    Status,
    Remove,
}

pub open spec fn unknown_schedule_op_msg(op: Seq<char>) -> Seq<char> {
    "Unknown schedule op '"@ + op + "'. Supported: add / status / remove"@
}

/// The operation a schedule request names (compared in ASCII lower case), or
/// why it is refused: `add` needs a name, a period and at least one command;
/// `remove` needs a name.
pub open spec fn schedule_check(op: Seq<char>, has_name: bool, has_period: bool, command_count: nat) -> Result<ScheduleOp, Seq<char>> {
    let o = text::ascii_lower(op);
    if o == "add"@ {
        if !has_name || !has_period || command_count == 0 {
            Err("schedule add requires name, periodTicks and at least one command"@)
        } else {
            Ok(ScheduleOp::Add)
        }
    } else if o == "status"@ {
        Ok(ScheduleOp::Status)
    } else if o == "remove"@ {
        if has_name {
            Ok(ScheduleOp::Remove)
        } else {
            Err("schedule remove requires a name"@)
        }
    } else {
        Err(unknown_schedule_op_msg(o))
    }
}

/// Checks a schedule request; the payload is built from the result.
pub fn check_schedule_request(op: &str, name: Option<&str>, period_ticks: Option<u64>, command_count: usize) -> (r: Result<ScheduleOp, String>)
    ensures
        match schedule_check(op@, name is Some, period_ticks is Some, command_count as nat) {
            Ok(o) => r == Ok::<ScheduleOp, String>(o),
            Err(m) => r matches Err(e) && e@ == m,
        },
{
    let o = text::ascii_lower_str(op);
    let add = text::chars_of("add");
    let status = text::chars_of("status");
    let remove = text::chars_of("remove");
    if text::seq_eq(o.as_slice(), add.as_slice()) {
        if name.is_none() || period_ticks.is_none() || command_count == 0 {
            Err("schedule add requires name, periodTicks and at least one command".to_owned())
        } else {
            Ok(ScheduleOp::Add)
        }
    } else if text::seq_eq(o.as_slice(), status.as_slice()) {
        Ok(ScheduleOp::Status)
    } else if text::seq_eq(o.as_slice(), remove.as_slice()) {
        if name.is_some() {
            Ok(ScheduleOp::Remove)
        } else {
            Err("schedule remove requires a name".to_owned())
        }
    } else {
        let mut m = "Unknown schedule op '".to_owned();
        text::push_chars(&mut m, o.as_slice());
        text::push_str(&mut m, "'. Supported: add / status / remove");
        Err(m)
    }
}

/// The operations of a macro request.
pub open spec fn macro_ops() -> Seq<Seq<char>> {
    seq!["start-recording"@, "record-step"@, "stop-recording"@, "play"@, "stop"@, "delete"@, "status"@]
}

pub open spec fn unknown_macro_op_msg(op: Seq<char>) -> Seq<char> {
    "Unknown macro op '"@ + op + "'. Supported: "@ + text::join(macro_ops(), ", "@)
}

/// Why a macro request is refused, or `None`: the operation must be one of
/// `macro_ops`; all but `stop-recording`, `status` and `stop` need a name;
/// `record-step` needs a step.
pub open spec fn macro_check(op: Seq<char>, has_name: bool, has_step: bool) -> Option<Seq<char>> {
    if !macro_ops().contains(op) {
        Some(unknown_macro_op_msg(op))
    } else if !(op == "stop-recording"@ || op == "status"@ || op == "stop"@) && !has_name {
        Some("macro "@ + op + " requires a name"@)
    } else if op == "record-step"@ && !has_step {
        Some("macro record-step requires a step action"@)
    } else {
        None
    }
}

/// Whether `op` is an operation of a macro request.
pub fn is_macro_op(op: &str) -> (r: bool)
    ensures
        r == macro_ops().contains(op@),
{
    let ops: [&str; 7] = ["start-recording", "record-step", "stop-recording", "play", "stop", "delete", "status"];
    assert(ops@.map_values(|x: &str| x@) =~= macro_ops());
    let mut known = false;
    let mut i: usize = 0;
    while i < 7
        invariant
            i <= 7,
            ops@.map_values(|x: &str| x@) == macro_ops(),
            known == exists|k: int| 0 <= k < i && macro_ops()[k] == op@,
        decreases 7 - i,
    {
        assert(macro_ops()[i as int] == ops@[i as int]@);
        if text::str_eq(ops[i], op) {
            known = true;
        }
        i += 1;
    }
    proof {
        if macro_ops().contains(op@) {
            let k = choose|k: int| 0 <= k < macro_ops().len() && macro_ops()[k] == op@;
            assert(0 <= k < 7);
        }
    }
    known
}

/// Checks a macro request; the payload is built when it passes.
pub fn check_macro_request(op: &str, name: Option<&str>, has_step: bool) -> (r: Result<(), String>)
    ensures
        match macro_check(op@, name is Some, has_step) {
            Some(m) => r matches Err(e) && e@ == m,
            None => r is Ok,
        },
{
    let ops: [&str; 7] = ["start-recording", "record-step", "stop-recording", "play", "stop", "delete", "status"];
    assert(ops@.map_values(|x: &str| x@) =~= macro_ops());
    if !is_macro_op(op) {
        let mut names: Vec<String> = Vec::new();
        let mut j: usize = 0;
        while j < 7
            invariant
                j <= 7,
                ops@.map_values(|x: &str| x@) == macro_ops(),
                names.deep_view() == macro_ops().take(j as int),
            decreases 7 - j,
        {
            assert(macro_ops()[j as int] == ops@[j as int]@);
            let ghost before = names.deep_view();
            names.push(ops[j].to_owned());
            assert(names.deep_view() =~= before.push(macro_ops()[j as int]));
            assert(names.deep_view() =~= macro_ops().take(j + 1));
            j += 1;
        }
        assert(macro_ops().take(7) =~= macro_ops());
        assert(names@.map_values(|p: String| p@) =~= names.deep_view());
        let list = text::join_strings(&names, ", ");
        let mut m = "Unknown macro op '".to_owned();
        text::push_str(&mut m, op);
        text::push_str(&mut m, "'. Supported: ");
        text::push_str(&mut m, list.as_str());
        return Err(m);
    }
    let needs_name = !(text::str_eq(op, "stop-recording") || text::str_eq(op, "status") || text::str_eq(op, "stop"));
    if needs_name && name.is_none() {
        let mut m = "macro ".to_owned();
        text::push_str(&mut m, op);
        text::push_str(&mut m, " requires a name");
        return Err(m);
    }
    if text::str_eq(op, "record-step") && !has_step {
        return Err("macro record-step requires a step action".to_owned());
    }
    Ok(())
}

// ---------------------------------------------------------------------------
// Probe requests
// ---------------------------------------------------------------------------

/// A redstone probe request as its JSON body decodes (all fields optional).
#[derive(Debug, Clone, Copy)]
pub struct RedstoneRequest {
    pub x: Option<i32>,
    pub y: Option<i32>,
    pub z: Option<i32>,
}

/// A circuit scan request as its JSON body decodes (all fields optional).
#[derive(Debug, Clone, Copy)]
pub struct CircuitRequest {
    pub x: Option<i32>,
    pub y: Option<i32>,
    pub z: Option<i32>,
    pub radius: Option<u8>,
}

/// `u8::is_ascii_whitespace`.
pub open spec fn is_ascii_ws_byte(b: u8) -> bool {
    b == 0x20 || b == 0x09 || b == 0x0a || b == 0x0c || b == 0x0d
}

/// A body of ASCII whitespace only (or empty).
pub open spec fn blank(bytes: Seq<u8>) -> bool {
    forall|i: int| 0 <= i < bytes.len() ==> is_ascii_ws_byte(#[trigger] bytes[i])
}

pub fn is_blank_body(bytes: &[u8]) -> (r: bool)
    ensures
        r == blank(bytes@),
{
    let mut i: usize = 0;
    while i < bytes.len()
        invariant
            i <= bytes@.len(),
            forall|k: int| 0 <= k < i ==> is_ascii_ws_byte(#[trigger] bytes@[k]),
        decreases bytes@.len() - i,
    {
        let b = bytes[i];
        if !(b == 0x20 || b == 0x09 || b == 0x0a || b == 0x0c || b == 0x0d) {
            return false;
        }
        i += 1;
    }
    true
}

pub open spec fn partial_coords_msg() -> Seq<char> {
    "x, y and z must be given together (or all omitted for crosshair probe)"@
}

/// The coordinates of a redstone probe, `None` for the crosshair target.
/// `decoded` is the decoding of `bytes` as a request, or the decoder's error
/// text; a blank body is a crosshair probe whatever it holds.
pub fn parse_redstone_body(bytes: &[u8], decoded: Result<RedstoneRequest, String>) -> (r: Result<Option<(i32, i32, i32)>, String>)
    ensures
        blank(bytes@) ==> r == Ok::<Option<(i32, i32, i32)>, String>(None),
        !blank(bytes@) ==> match decoded {
            Err(e) => (r matches Err(m) && m@ == "invalid redstone body: "@ + e@),
            Ok(q) => match (q.x, q.y, q.z) {
                (None, None, None) => r == Ok::<Option<(i32, i32, i32)>, String>(None),
                (Some(x), Some(y), Some(z)) => r == Ok::<Option<(i32, i32, i32)>, String>(Some((x, y, z))),
                _ => (r matches Err(m) && m@ == partial_coords_msg()),
            },
        },
{
    if is_blank_body(bytes) {
        return Ok(None);
    }
    match decoded {
        Err(e) => Err(text::concat2("invalid redstone body: ", e.as_str())),
        Ok(q) => match (q.x, q.y, q.z) {
            (None, None, None) => Ok(None),
            (Some(x), Some(y), Some(z)) => Ok(Some((x, y, z))),
            _ => Err("x, y and z must be given together (or all omitted for crosshair probe)".to_owned()),
        },
    }
}

/// The coordinates and radius of a circuit scan (`None` coordinates probe
/// the crosshair target, a `None` radius takes the game's default).
/// `decoded` is the decoding of `bytes`, or the decoder's error text.
pub fn parse_circuit_body(bytes: &[u8], decoded: Result<CircuitRequest, String>) -> (r: Result<(Option<i32>, Option<i32>, Option<i32>, Option<u8>), String>)
    ensures
        blank(bytes@) ==> r == Ok::<(Option<i32>, Option<i32>, Option<i32>, Option<u8>), String>((None, None, None, None)),
        !blank(bytes@) ==> match decoded {
            Err(e) => (r matches Err(m) && m@ == "invalid circuit body: "@ + e@),
            Ok(q) => if (q.x is Some) != (q.y is Some) || (q.x is Some) != (q.z is Some) {
                (r matches Err(m) && m@ == partial_coords_msg())
            } else if (q.radius matches Some(rad) && !(1 <= rad <= 8)) {
                (r matches Err(m) && m@ == "radius must be within 1-8"@)
            } else {
                r == Ok::<(Option<i32>, Option<i32>, Option<i32>, Option<u8>), String>((q.x, q.y, q.z, q.radius))
            },
        },
{
    if is_blank_body(bytes) {
        return Ok((None, None, None, None));
    }
    match decoded {
        Err(e) => Err(text::concat2("invalid circuit body: ", e.as_str())),
        Ok(q) => {
            if q.x.is_some() != q.y.is_some() || q.x.is_some() != q.z.is_some() {
                return Err("x, y and z must be given together (or all omitted for crosshair probe)".to_owned());
            }
            if let Some(rad) = q.radius {
                if !(1 <= rad && rad <= 8) {
                    return Err("radius must be within 1-8".to_owned());
                }
            }
            Ok((q.x, q.y, q.z, q.radius))
        },
    }
}

/// A circuit watch name is 1 to 64 bytes of printable characters without
/// `/`, `\` or `..`.
pub open spec fn watch_name_ok(name: &str) -> bool {
    &&& name@.len() != 0
    &&& name.len() <= 64
    &&& !name@.contains('/')
    &&& !name@.contains('\\')
    &&& !text::contains(name@, ".."@)
    &&& forall|i: int| 0 <= i < name@.len() ==> !text::is_control(#[trigger] name@[i])
}

/// Checks the name of a circuit watch.
pub fn validate_watch_name(name: &str) -> (r: Result<(), String>)
    ensures
        watch_name_ok(name) ==> r is Ok,
        !watch_name_ok(name) ==> (r matches Err(e) && e@
            == "watch name must be 1-64 printable characters without path separators"@),
{
    let c = text::chars_of(name);
    let mut control = false;
    let mut i: usize = 0;
    while i < c.len()
        invariant
            i <= c@.len(),
            control == exists|k: int| 0 <= k < i && text::is_control(#[trigger] c@[k]),
        decreases c@.len() - i,
    {
        if text::char_is_control(c[i]) {
            control = true;
        }
        i += 1;
    }
    let dots = text::chars_of("..");
    if name.is_empty() || name.len() > 64 || text::contains_char(c.as_slice(), '/') || text::contains_char(
        c.as_slice(),
        '\\',
    ) || text::contains_seq(c.as_slice(), dots.as_slice()) || control {
        return Err("watch name must be 1-64 printable characters without path separators".to_owned());
    }
    Ok(())
}

// ---------------------------------------------------------------------------
// Command executor and instance events
// ---------------------------------------------------------------------------

/// Executor of free-form agent commands; it runs none yet and answers every
/// command with empty output.
pub struct CommandExecutor {}

impl CommandExecutor {
    pub fn new() -> (e: Self) {
        CommandExecutor {}
    }

    /// Executes a command: the output is empty.
    pub fn execute(&self, _command: &str) -> (r: Result<String, String>)
        ensures
            r matches Ok(s) && s@.len() == 0,
    {
        Ok(String::new())
    }
}

/// Lifecycle events of an instance.
#[derive(Debug, Clone)]
pub enum AgentEvent {
    InstanceCreated { name: String },
    InstanceDeleted { name: String },
    InstanceLaunched { name: String },
    InstanceStopped { name: String },
    InstanceCrashed { name: String },
}

} // verus!
