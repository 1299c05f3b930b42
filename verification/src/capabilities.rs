//! Machine-readable capability manifest: the REST endpoints, the commands of
//! the execute endpoint with their arguments and options, the in-game input
//! types, the event stream and the error codes. The shape only ever grows:
//! consumers ignore fields they do not know.
use vstd::prelude::*;

verus! {

/// Version reported in the manifest.
pub const LAUNCHER_VERSION: &'static str = "0.1.0";

/// One REST endpoint of the agent server.
#[derive(Debug, Clone)]
pub struct Endpoint {
    pub method: &'static str,
    pub path: &'static str,
    pub purpose: &'static str,
}

/// One command of the execute endpoint.
#[derive(Debug, Clone)]
pub struct ExecCommand {
    pub command: &'static str,
    pub description: &'static str,
    /// Positional arguments, in order.
    pub args: Vec<ArgSpec>,
    /// Recognized keys of the `options` map.
    pub options: Vec<OptionSpec>,
}

#[derive(Debug, Clone)]
pub struct ArgSpec {
    pub name: &'static str,
    pub required: bool,
    pub description: &'static str,
}

#[derive(Debug, Clone)]
pub struct OptionSpec {
    pub key: &'static str,
    pub values: &'static str,
    pub description: &'static str,
}

/// One in-game input type of the input endpoint.
#[derive(Debug, Clone)]
pub struct GameInput {
    pub input_type: &'static str,
    pub description: &'static str,
    pub fields: Vec<ArgSpec>,
}

/// The full capability manifest.
#[derive(Debug, Clone)]
pub struct Capabilities {
    pub launcher: &'static str,
    pub version: &'static str,
    pub schema: &'static str,
    pub endpoints: Vec<Endpoint>,
    pub execute_commands: Vec<ExecCommand>,
    pub game_inputs: Vec<GameInput>,
    pub events: EventsSpec,
    /// Error codes a failed execute request may carry.
    pub error_codes: Vec<ErrorCodeSpec>,
}

#[derive(Debug, Clone)]
pub struct ErrorCodeSpec {
    pub code: &'static str,
    pub http_status: u16,
    pub description: &'static str,
}

#[derive(Debug, Clone)]
pub struct EventsSpec {
    pub websocket_path: &'static str,
    pub kinds: Vec<&'static str>,
}

// ---------------------------------------------------------------------------
// Model
// ---------------------------------------------------------------------------

/// (method, path) of an endpoint.
pub open spec fn endpoint_shape(e: Endpoint) -> (Seq<char>, Seq<char>) {
    (e.method@, e.path@)
}

/// (name, required) of an argument or input field.
pub open spec fn arg_shape(a: ArgSpec) -> (Seq<char>, bool) {
    (a.name@, a.required)
}

pub open spec fn args_shape(v: Seq<ArgSpec>) -> Seq<(Seq<char>, bool)> {
    v.map_values(|a: ArgSpec| arg_shape(a))
}

/// (name, arguments, option keys) of a command.
pub open spec fn command_shape(c: ExecCommand) -> (Seq<char>, Seq<(Seq<char>, bool)>, Seq<Seq<char>>) {
    (c.command@, args_shape(c.args@), c.options@.map_values(|o: OptionSpec| o.key@))
}

/// (type, fields) of a game input.
pub open spec fn input_shape(g: GameInput) -> (Seq<char>, Seq<(Seq<char>, bool)>) {
    (g.input_type@, args_shape(g.fields@))
}

/// The declared endpoints.
pub open spec fn declared_endpoints() -> Seq<(Seq<char>, Seq<char>)> {
    seq![
        ("GET"@, "/api/v1/status"@),
        ("POST"@, "/api/v1/execute"@),
        ("GET"@, "/api/v1/events"@),
        ("GET"@, "/api/v1/capabilities"@),
        ("GET"@, "/api/v1/game/windows"@),
        ("GET"@, "/api/v1/game/:instance/status"@),
        ("GET"@, "/api/v1/game/:instance/screenshot"@),
        ("GET"@, "/api/v1/game/:instance/ready"@),
        ("GET"@, "/api/v1/game/:instance/idle-status"@),
        ("POST"@, "/api/v1/game/:instance/input"@),
        ("POST"@, "/api/v1/game/:instance/redstone"@),
        ("POST"@, "/api/v1/game/:instance/circuit"@),
        ("GET"@, "/api/v1/game/:instance/screen"@),
        ("GET"@, "/api/v1/game/:instance/watch"@),
        ("POST"@, "/api/v1/game/:instance/watch"@),
        ("DELETE"@, "/api/v1/game/:instance/watch/:name"@),
        ("GET"@, "/api/v1/instance/:instance/metrics"@),
        ("GET"@, "/api/v1/instance/:instance/disk"@),
    ]
}

pub open spec fn launch_option_keys() -> Seq<Seq<char>> {
    seq![
        "username"@, "server"@, "fullscreen"@, "width"@, "height"@, "agent"@, "agent-port"@,
        "java-path"@, "memory"@, "aprism"@, "enter-test-world"@, "no-queue"@, "idle-timeout"@,
        "no-idle-timeout"@, "oom-protect"@, "oom-aggressive"@, "oom-confirm"@, "oom-list-only"@,
        "javaagent"@,
    ]
}

/// The declared execute commands.
pub open spec fn declared_commands() -> Seq<(Seq<char>, Seq<(Seq<char>, bool)>, Seq<Seq<char>>)> {
    seq![
        ("list"@, seq![], seq!["format"@]),
        ("create"@, seq![("name"@, true), ("version"@, false)], seq![]),
        ("info"@, seq![("name"@, true)], seq![]),
        ("launch"@, seq![("name"@, true)], launch_option_keys()),
        ("stop"@, seq![("name"@, true)], seq![]),
        ("metrics"@, seq![("instance"@, true)], seq!["history"@]),
        ("disk"@, seq![("instance"@, true)], seq![]),
        ("inject-agent"@, seq![("instance"@, true), ("jar"@, true)], seq!["params"@, "java-path"@]),
        ("server-cmd"@, seq![("server"@, true), ("command"@, true)], seq![]),
    ]
}

/// The declared game inputs.
pub open spec fn declared_inputs() -> Seq<(Seq<char>, Seq<(Seq<char>, bool)>)> {
    seq![
        ("key"@, seq![("key"@, true), ("action"@, false), ("hold_ms"@, false)]),
        ("look"@, seq![("yaw"@, true), ("pitch"@, true), ("relative"@, false)]),
        ("click"@, seq![("x"@, false), ("y"@, false), ("button"@, false), ("action"@, false), ("hold_ms"@, false)]),
        ("scroll"@, seq![("amount"@, true)]),
        ("chat"@, seq![("message"@, true)]),
    ]
}

/// The declared event kinds.
pub open spec fn declared_event_kinds() -> Seq<Seq<char>> {
    seq![
        "launch_started"@, "launch_progress"@, "launch_completed"@, "launch_failed"@, "log_line"@,
        "instance_stopped"@, "game_ready"@, "game_idle_timeout"@, "schedule_registered"@, "schedule_fired"@,
        "schedule_removed"@, "macro_recorded"@, "macro_playback_started"@, "macro_playback_finished"@,
        "macro_removed"@, "circuit_changed"@,
    ]
}

/// The declared error codes with their HTTP statuses.
pub open spec fn declared_error_codes() -> Seq<(Seq<char>, u16)> {
    seq![
        ("UNKNOWN_COMMAND"@, 400u16),
        ("BAD_REQUEST"@, 400u16),
        ("NOT_FOUND"@, 404u16),
        ("ALREADY_EXISTS"@, 409u16),
        ("NOT_RUNNING"@, 409u16),
        ("BUSY"@, 409u16),
        ("NOT_IMPLEMENTED"@, 501u16),
        ("SERVICE_UNAVAILABLE"@, 503u16),
        ("BAD_GATEWAY"@, 502u16),
        ("GONE"@, 410u16),
        ("INTERNAL"@, 500u16),
    ]
}

// ---------------------------------------------------------------------------
// Construction
// ---------------------------------------------------------------------------

fn endpoints() -> (v: Vec<Endpoint>)
    ensures
        v@.map_values(|e: Endpoint| endpoint_shape(e)) == declared_endpoints(),
{
    let mut v: Vec<Endpoint> = Vec::new();
    v.push(Endpoint { method: "GET", path: "/api/v1/status", purpose: "Launcher version, uptime and running instances" });
    v.push(Endpoint { method: "POST", path: "/api/v1/execute", purpose: "Run a launcher command; body = {command, args, options}" });
    v.push(Endpoint { method: "GET", path: "/api/v1/events", purpose: "WebSocket stream of launcher/game events" });
    v.push(Endpoint { method: "GET", path: "/api/v1/capabilities", purpose: "This machine-readable capability manifest" });
    v.push(Endpoint { method: "GET", path: "/api/v1/game/windows", purpose: "List Minecraft game windows MDL can see" });
    v.push(Endpoint { method: "GET", path: "/api/v1/game/:instance/status", purpose: "In-game status of an instance via Despotes" });
    v.push(Endpoint { method: "GET", path: "/api/v1/game/:instance/screenshot", purpose: "PNG screenshot (Despotes framebuffer, WGC fallback)" });
    v.push(Endpoint { method: "GET", path: "/api/v1/game/:instance/ready", purpose: "Whether the game broadcast ready (in world)" });
    v.push(Endpoint { method: "GET", path: "/api/v1/game/:instance/idle-status", purpose: "Idle watchdog status (last output age, threshold, remaining)" });
    v.push(Endpoint { method: "POST", path: "/api/v1/game/:instance/input", purpose: "Inject an in-game input (key/click/look/chat/scroll)" });
    v.push(Endpoint { method: "POST", path: "/api/v1/game/:instance/redstone", purpose: "Interact with a redstone component at a block position" });
    v.push(Endpoint { method: "POST", path: "/api/v1/game/:instance/circuit", purpose: "Scan the redstone circuit around a block position" });
    v.push(Endpoint { method: "GET", path: "/api/v1/game/:instance/screen", purpose: "The screen currently open in the game" });
    v.push(Endpoint { method: "GET", path: "/api/v1/game/:instance/watch", purpose: "List the circuit watches of an instance" });
    v.push(Endpoint { method: "POST", path: "/api/v1/game/:instance/watch", purpose: "Add a circuit watch (emits circuit_changed events)" });
    v.push(Endpoint { method: "DELETE", path: "/api/v1/game/:instance/watch/:name", purpose: "Remove a circuit watch" });
    v.push(Endpoint { method: "GET", path: "/api/v1/instance/:instance/metrics", purpose: "Launch metrics for an instance (?history=true for full history)" });
    v.push(Endpoint { method: "GET", path: "/api/v1/instance/:instance/disk", purpose: "Disk usage with a top-level breakdown" });
    assert(v@.map_values(|e: Endpoint| endpoint_shape(e)) =~= declared_endpoints());
    v
}

fn command_list() -> (c: ExecCommand)
    ensures
        command_shape(c) == declared_commands()[0],
{
    let mut args: Vec<ArgSpec> = Vec::new();
    let mut options: Vec<OptionSpec> = Vec::new();
    options.push(OptionSpec { key: "format", values: "text|json", description: "Output format (default text)" });
    assert(args_shape(args@) =~= seq![]);
    assert(options@.map_values(|o: OptionSpec| o.key@) =~= seq!["format"@]);
    ExecCommand { command: "list", description: "List all instances", args, options }
}
fn command_create() -> (c: ExecCommand)
    ensures
        command_shape(c) == declared_commands()[1],
{
    let mut args: Vec<ArgSpec> = Vec::new();
    args.push(ArgSpec { name: "name", required: true, description: "Instance name" });
    args.push(ArgSpec { name: "version", required: false, description: "Minecraft version (default release)" });
    let mut options: Vec<OptionSpec> = Vec::new();
    assert(args_shape(args@) =~= seq![("name"@, true), ("version"@, false)]);
    assert(options@.map_values(|o: OptionSpec| o.key@) =~= seq![]);
    ExecCommand { command: "create", description: "Create a new instance (downloads the version)", args, options }
}
fn command_info() -> (c: ExecCommand)
    ensures
        command_shape(c) == declared_commands()[2],
{
    let mut args: Vec<ArgSpec> = Vec::new();
    args.push(ArgSpec { name: "name", required: true, description: "Instance name" });
    let mut options: Vec<OptionSpec> = Vec::new();
    assert(args_shape(args@) =~= seq![("name"@, true)]);
    assert(options@.map_values(|o: OptionSpec| o.key@) =~= seq![]);
    ExecCommand { command: "info", description: "Show one instance's configuration (name, version, loader, path)", args, options }
}
fn command_launch() -> (c: ExecCommand)
    ensures
        command_shape(c) == declared_commands()[3],
{
    let mut args: Vec<ArgSpec> = Vec::new();
    args.push(ArgSpec { name: "name", required: true, description: "Instance name" });
    let mut options: Vec<OptionSpec> = Vec::new();
    options.push(OptionSpec { key: "username", values: "<name>", description: "Offline username" });
    options.push(OptionSpec { key: "server", values: "host[:port]", description: "Auto-connect to a server" });
    options.push(OptionSpec { key: "fullscreen", values: "true", description: "Launch fullscreen" });
    options.push(OptionSpec { key: "width", values: "<px>", description: "Window width" });
    options.push(OptionSpec { key: "height", values: "<px>", description: "Window height" });
    options.push(OptionSpec { key: "agent", values: "true", description: "Enable in-game Despotes control" });
    options.push(OptionSpec { key: "agent-port", values: "<port>", description: "Despotes control port (default 25585)" });
    options.push(OptionSpec { key: "java-path", values: "<path>", description: "Custom java executable" });
    options.push(OptionSpec { key: "memory", values: "4G|2048M", description: "Memory allocation" });
    options.push(OptionSpec { key: "aprism", values: "true", description: "Attach the Aprism JE javaagent" });
    options.push(OptionSpec { key: "enter-test-world", values: "true", description: "Auto-enter test world when ready" });
    options.push(OptionSpec { key: "no-queue", values: "true", description: "Skip the instance launch queue" });
    options.push(OptionSpec { key: "idle-timeout", values: "<seconds>", description: "Idle watchdog timeout (default 60s; 0=use default)" });
    options.push(OptionSpec { key: "no-idle-timeout", values: "true", description: "Disable the idle watchdog entirely" });
    options.push(OptionSpec { key: "oom-protect", values: "true|false", description: "Enable OOM self-protection: kill stale MC processes, trim working sets (default: true)" });
    options.push(OptionSpec { key: "oom-aggressive", values: "true", description: "Aggressive OOM protection: also purge system standby list (requires admin)" });
    options.push(OptionSpec { key: "oom-confirm", values: "auto|always|never", description: "Second-confirmation policy before killing stale processes (default auto)" });
    options.push(OptionSpec { key: "oom-list-only", values: "true", description: "List OOM sweep candidates without terminating" });
    options.push(OptionSpec { key: "javaagent", values: "<jar>[,<jar=params>...]", description: "Ad-hoc JavaAgent JAR(s) to attach at launch (comma-separated)" });
    assert(args_shape(args@) =~= seq![("name"@, true)]);
    assert(options@.map_values(|o: OptionSpec| o.key@) =~= launch_option_keys());
    ExecCommand { command: "launch", description: "Launch an instance (always detached when run via the agent API)", args, options }
}
fn command_stop() -> (c: ExecCommand)
    ensures
        command_shape(c) == declared_commands()[4],
{
    let mut args: Vec<ArgSpec> = Vec::new();
    args.push(ArgSpec { name: "name", required: true, description: "Instance name" });
    let mut options: Vec<OptionSpec> = Vec::new();
    assert(args_shape(args@) =~= seq![("name"@, true)]);
    assert(options@.map_values(|o: OptionSpec| o.key@) =~= seq![]);
    ExecCommand { command: "stop", description: "Stop a running instance (kills its game process tree)", args, options }
}
fn command_metrics() -> (c: ExecCommand)
    ensures
        command_shape(c) == declared_commands()[5],
{
    let mut args: Vec<ArgSpec> = Vec::new();
    args.push(ArgSpec { name: "instance", required: true, description: "Instance name" });
    let mut options: Vec<OptionSpec> = Vec::new();
    options.push(OptionSpec { key: "history", values: "true", description: "Return the recorded history instead of the latest launch" });
    assert(args_shape(args@) =~= seq![("instance"@, true)]);
    assert(options@.map_values(|o: OptionSpec| o.key@) =~= seq!["history"@]);
    ExecCommand { command: "metrics", description: "Launch metrics for an instance (latest or full history)", args, options }
}
fn command_disk() -> (c: ExecCommand)
    ensures
        command_shape(c) == declared_commands()[6],
{
    let mut args: Vec<ArgSpec> = Vec::new();
    args.push(ArgSpec { name: "instance", required: true, description: "Instance name" });
    let mut options: Vec<OptionSpec> = Vec::new();
    assert(args_shape(args@) =~= seq![("instance"@, true)]);
    assert(options@.map_values(|o: OptionSpec| o.key@) =~= seq![]);
    ExecCommand { command: "disk", description: "Disk usage of an instance with a top-level breakdown", args, options }
}
fn command_inject_agent() -> (c: ExecCommand)
    ensures
        command_shape(c) == declared_commands()[7],
{
    let mut args: Vec<ArgSpec> = Vec::new();
    args.push(ArgSpec { name: "instance", required: true, description: "Instance name (must be running)" });
    args.push(ArgSpec { name: "jar", required: true, description: "Agent JAR path or registered javaagent name" });
    let mut options: Vec<OptionSpec> = Vec::new();
    options.push(OptionSpec { key: "params", values: "<text>", description: "Agent options string (after '=' in -javaagent syntax)" });
    options.push(OptionSpec { key: "java-path", values: "<path>", description: "Java executable used to run the attach helper" });
    assert(args_shape(args@) =~= seq![("instance"@, true), ("jar"@, true)]);
    assert(options@.map_values(|o: OptionSpec| o.key@) =~= seq!["params"@, "java-path"@]);
    ExecCommand { command: "inject-agent", description: "Hot-attach a Java agent JAR into the running game JVM", args, options }
}
fn command_server_cmd() -> (c: ExecCommand)
    ensures
        command_shape(c) == declared_commands()[8],
{
    let mut args: Vec<ArgSpec> = Vec::new();
    args.push(ArgSpec { name: "server", required: true, description: "Server name" });
    args.push(ArgSpec { name: "command", required: true, description: "Console command text (remaining args joined)" });
    let mut options: Vec<OptionSpec> = Vec::new();
    assert(args_shape(args@) =~= seq![("server"@, true), ("command"@, true)]);
    assert(options@.map_values(|o: OptionSpec| o.key@) =~= seq![]);
    ExecCommand { command: "server-cmd", description: "Run a console command on a managed server via RCON", args, options }
}
fn commands() -> (v: Vec<ExecCommand>)
    ensures
        v@.map_values(|c: ExecCommand| command_shape(c)) == declared_commands(),
{
    let mut v: Vec<ExecCommand> = Vec::new();
    v.push(command_list());
    v.push(command_create());
    v.push(command_info());
    v.push(command_launch());
    v.push(command_stop());
    v.push(command_metrics());
    v.push(command_disk());
    v.push(command_inject_agent());
    v.push(command_server_cmd());
    assert(v@.map_values(|c: ExecCommand| command_shape(c)) =~= declared_commands());
    v
}

fn input_key() -> (g: GameInput)
    ensures
        input_shape(g) == declared_inputs()[0],
{
    let mut fields: Vec<ArgSpec> = Vec::new();
    fields.push(ArgSpec { name: "key", required: true, description: "Key name" });
    fields.push(ArgSpec { name: "action", required: false, description: "tap|hold (default tap)" });
    fields.push(ArgSpec { name: "hold_ms", required: false, description: "Milliseconds to hold when action=hold" });
    assert(args_shape(fields@) =~= seq![("key"@, true), ("action"@, false), ("hold_ms"@, false)]);
    GameInput { input_type: "key", description: "Press/hold keyboard keys (names like key.keyboard.w)", fields }
}
fn input_look() -> (g: GameInput)
    ensures
        input_shape(g) == declared_inputs()[1],
{
    let mut fields: Vec<ArgSpec> = Vec::new();
    fields.push(ArgSpec { name: "yaw", required: true, description: "Yaw in degrees" });
    fields.push(ArgSpec { name: "pitch", required: true, description: "Pitch in degrees" });
    fields.push(ArgSpec { name: "relative", required: false, description: "true=delta, false=absolute (default false)" });
    assert(args_shape(fields@) =~= seq![("yaw"@, true), ("pitch"@, true), ("relative"@, false)]);
    GameInput { input_type: "look", description: "Rotate the player view (degrees; relative=false means absolute)", fields }
}
fn input_click() -> (g: GameInput)
    ensures
        input_shape(g) == declared_inputs()[2],
{
    let mut fields: Vec<ArgSpec> = Vec::new();
    fields.push(ArgSpec { name: "x", required: false, description: "X coordinate" });
    fields.push(ArgSpec { name: "y", required: false, description: "Y coordinate" });
    fields.push(ArgSpec { name: "button", required: false, description: "left|right|middle (default left)" });
    fields.push(ArgSpec { name: "action", required: false, description: "tap|hold (default tap)" });
    fields.push(ArgSpec { name: "hold_ms", required: false, description: "Milliseconds to hold when action=hold" });
    assert(args_shape(fields@) =~= seq![("x"@, false), ("y"@, false), ("button"@, false), ("action"@, false), ("hold_ms"@, false)]);
    GameInput { input_type: "click", description: "Mouse click at GUI coordinates", fields }
}
fn input_scroll() -> (g: GameInput)
    ensures
        input_shape(g) == declared_inputs()[3],
{
    let mut fields: Vec<ArgSpec> = Vec::new();
    fields.push(ArgSpec { name: "amount", required: true, description: "Scroll amount (negative scrolls down)" });
    assert(args_shape(fields@) =~= seq![("amount"@, true)]);
    GameInput { input_type: "scroll", description: "Scroll the hotbar", fields }
}
fn input_chat() -> (g: GameInput)
    ensures
        input_shape(g) == declared_inputs()[4],
{
    let mut fields: Vec<ArgSpec> = Vec::new();
    fields.push(ArgSpec { name: "message", required: true, description: "Message or command text" });
    assert(args_shape(fields@) =~= seq![("message"@, true)]);
    GameInput { input_type: "chat", description: "Send a chat message or /command", fields }
}
fn game_inputs() -> (v: Vec<GameInput>)
    ensures
        v@.map_values(|g: GameInput| input_shape(g)) == declared_inputs(),
{
    let mut v: Vec<GameInput> = Vec::new();
    v.push(input_key());
    v.push(input_look());
    v.push(input_click());
    v.push(input_scroll());
    v.push(input_chat());
    assert(v@.map_values(|g: GameInput| input_shape(g)) =~= declared_inputs());
    v
}
fn event_kinds() -> (v: Vec<&'static str>)
    ensures
        v@.map_values(|k: &'static str| k@) == declared_event_kinds(),
{
    let mut v: Vec<&'static str> = Vec::new();
    v.push("launch_started");
    v.push("launch_progress");
    v.push("launch_completed");
    v.push("launch_failed");
    v.push("log_line");
    v.push("instance_stopped");
    v.push("game_ready");
    v.push("game_idle_timeout");
    v.push("schedule_registered");
    v.push("schedule_fired");
    v.push("schedule_removed");
    v.push("macro_recorded");
    v.push("macro_playback_started");
    v.push("macro_playback_finished");
    v.push("macro_removed");
    v.push("circuit_changed");
    assert(v@.map_values(|k: &'static str| k@) =~= declared_event_kinds());
    v
}
fn error_codes() -> (v: Vec<ErrorCodeSpec>)
    ensures
        v@.map_values(|e: ErrorCodeSpec| (e.code@, e.http_status)) == declared_error_codes(),
{
    let mut v: Vec<ErrorCodeSpec> = Vec::new();
    v.push(ErrorCodeSpec { code: "UNKNOWN_COMMAND", http_status: 400, description: "The execute command name is not recognized" });
    v.push(ErrorCodeSpec { code: "BAD_REQUEST", http_status: 400, description: "A required argument is missing or invalid" });
    v.push(ErrorCodeSpec { code: "NOT_FOUND", http_status: 404, description: "The referenced instance does not exist" });
    v.push(ErrorCodeSpec { code: "ALREADY_EXISTS", http_status: 409, description: "An instance with that name already exists" });
    v.push(ErrorCodeSpec { code: "NOT_RUNNING", http_status: 409, description: "The instance is not running (stop was requested)" });
    v.push(ErrorCodeSpec { code: "BUSY", http_status: 409, description: "Another instance holds the launch lock" });
    v.push(ErrorCodeSpec { code: "NOT_IMPLEMENTED", http_status: 501, description: "The endpoint is not supported on this platform" });
    v.push(ErrorCodeSpec { code: "SERVICE_UNAVAILABLE", http_status: 503, description: "The required component (Despotes, game process) is not available" });
    v.push(ErrorCodeSpec { code: "BAD_GATEWAY", http_status: 502, description: "An upstream request (e.g. to the Despotes mod) failed" });
    v.push(ErrorCodeSpec { code: "GONE", http_status: 410, description: "The game process is no longer running (idle-status after exit)" });
    v.push(ErrorCodeSpec { code: "INTERNAL", http_status: 500, description: "Unclassified internal error" });
    assert(v@.map_values(|e: ErrorCodeSpec| (e.code@, e.http_status)) =~= declared_error_codes());
    v
}
/// The manifest of this build. It does no I/O.
pub fn manifest() -> (c: Capabilities)
    ensures
        c.launcher@ == "mdl"@,
        c.version@ == LAUNCHER_VERSION@,
        c.schema@ == "mdl.capabilities/v1"@,
        c.endpoints@.map_values(|e: Endpoint| endpoint_shape(e)) == declared_endpoints(),
        c.execute_commands@.map_values(|x: ExecCommand| command_shape(x)) == declared_commands(),
        c.game_inputs@.map_values(|g: GameInput| input_shape(g)) == declared_inputs(),
        c.events.websocket_path@ == "/api/v1/events"@,
        c.events.kinds@.map_values(|k: &'static str| k@) == declared_event_kinds(),
        c.error_codes@.map_values(|e: ErrorCodeSpec| (e.code@, e.http_status)) == declared_error_codes(),
{
    Capabilities {
        launcher: "mdl",
        version: LAUNCHER_VERSION,
        schema: "mdl.capabilities/v1",
        endpoints: endpoints(),
        execute_commands: commands(),
        game_inputs: game_inputs(),
        events: EventsSpec { websocket_path: "/api/v1/events", kinds: event_kinds() },
        error_codes: error_codes(),
    }
}

} // verus!
