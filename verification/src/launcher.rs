//! Launching an instance: launch options, and the pieces of the launch
//! command computed from them (memory settings, window title, game
//! arguments, loader arguments, class path).
use vstd::prelude::*;
use crate::text;
use crate::paths;

verus! {

/// Options of one launch. Everything is optional and falls back to a
/// default.
#[derive(Debug)]
pub struct LaunchOptions {
    /// In-game name (default `Player`).
    pub username: Option<String>,
    /// Server to join on start (`host:port` or `host`).
    pub server: Option<String>,
    pub fullscreen: bool,
    pub width: Option<u32>,
    pub height: Option<u32>,
    /// Return once the game is spawned instead of waiting for it.
    pub detach: bool,
    /// Enable in-game control.
    pub agent: bool,
    /// Port of the in-game control server.
    pub agent_port: Option<u16>,
    /// Java executable to use instead of the detected one.
    pub java_path: Option<String>,
    /// Memory allocation such as `4G` or `2048M`.
    pub memory: Option<String>,
    /// Derive the allocation from system memory when `memory` is unset.
    pub dynamic_memory: bool,
    /// Attach the Aprism javaagent.
    pub aprism: bool,
    /// Enter the test world once the game is ready.
    pub enter_test_world: bool,
    /// Wait until the game reports ready.
    pub wait_ready: bool,
    /// Launch even when another instance is running.
    pub no_queue: bool,
    /// Idle watchdog timeout in seconds.
    pub idle_timeout: Option<u64>,
    /// Disable the idle watchdog.
    pub no_idle_timeout: bool,
    /// Confirmation policy before killing stale processes.
    pub oom_confirm: Option<String>,
    /// List sweep candidates without terminating them.
    pub oom_list_only: bool,
    /// Run the out-of-memory protection sweep (on unless turned off).
    pub oom_protect: bool,
    /// Also purge the system standby list.
    pub oom_aggressive: bool,
    /// Extra javaagents (`jar` or `jar=params`).
    pub javaagents: Vec<String>,
}

impl Default for LaunchOptions {
    fn default() -> (o: Self)
        ensures
            o.username is None,
            o.server is None,
            !o.fullscreen,
            o.width is None,
            o.height is None,
            !o.detach,
            !o.agent,
            o.agent_port is None,
            o.java_path is None,
            o.memory is None,
            !o.dynamic_memory,
            !o.aprism,
            !o.enter_test_world,
            !o.wait_ready,
            !o.no_queue,
            o.idle_timeout is None,
            !o.no_idle_timeout,
            o.oom_confirm is None,
            !o.oom_list_only,
            o.oom_protect,
            !o.oom_aggressive,
            o.javaagents@.len() == 0,
    {
        LaunchOptions {
            username: None,
            server: None,
            fullscreen: false,
            width: None,
            height: None,
            detach: false,
            agent: false,
            agent_port: None,
            java_path: None,
            memory: None,
            dynamic_memory: false,
            aprism: false,
            enter_test_world: false,
            wait_ready: false,
            no_queue: false,
            idle_timeout: None,
            no_idle_timeout: false,
            oom_confirm: None,
            oom_list_only: false,
            oom_protect: true,
            oom_aggressive: false,
            javaagents: Vec::new(),
        }
    }
}

/// Result of a successful launch.
#[derive(Debug)]
pub struct LaunchOutcome {
    /// Process id of the game.
    pub pid: u32,
    /// Whether the launcher returned without waiting for the game.
    pub detached: bool,
}

/// The instance launcher with the Java executable it falls back to.
pub struct InstanceLauncher {
    pub java_path: String,
}

impl InstanceLauncher {
    /// A launcher using the detected Java, or `java` from the path when none
    /// was detected (the launch provisions one later).
    pub fn new(detected_java: Option<String>) -> (l: Self)
        ensures
            l.java_path@ == match detected_java {
                Some(p) => p@,
                None => "java"@,
            },
    {
        match detected_java {
            Some(p) => InstanceLauncher { java_path: p },
            None => InstanceLauncher { java_path: "java".to_owned() },
        }
    }

    /// A launcher for a game that needs Java `required_version` or later,
    /// given the detected Java (path and major version).
    pub fn with_java_version(required_version: u8, detected_path: String, detected_major: u32) -> (r: Result<Self, String>)
        ensures
            detected_major >= required_version ==> (r matches Ok(l) && l.java_path@ == detected_path@),
            detected_major < required_version ==> (r matches Err(e) && e@ == java_too_old_msg(
                required_version,
                detected_major,
            )),
    {
        if detected_major >= required_version as u32 {
            Ok(InstanceLauncher { java_path: detected_path })
        } else {
            let req = text::u64_to_decimal(required_version as u64);
            let found = text::u64_to_decimal(detected_major as u64);
            let mut m = "Minecraft requires Java ".to_owned();
            text::push_chars(&mut m, req.as_slice());
            text::push_str(&mut m, " or later, but found Java ");
            text::push_chars(&mut m, found.as_slice());
            text::push_str(&mut m, ".\nPlease install Java ");
            text::push_chars(&mut m, req.as_slice());
            text::push_str(&mut m, " from: https://adoptium.net/temurin/releases/?version=");
            text::push_chars(&mut m, req.as_slice());
            Err(m)
        }
    }
}

pub open spec fn java_too_old_msg(required: u8, found: u32) -> Seq<char> {
    "Minecraft requires Java "@ + text::decimal(required as nat) + " or later, but found Java "@ + text::decimal(
        found as nat,
    ) + ".\nPlease install Java "@ + text::decimal(required as nat) + " from: https://adoptium.net/temurin/releases/?version="@
        + text::decimal(required as nat)
}

// ---------------------------------------------------------------------------
// Window title and memory
// ---------------------------------------------------------------------------

/// `MDL: <instance>`, followed by ` [mod, mod, ...]` when mods are installed.
pub open spec fn title_of(name: Seq<char>, mods: Seq<Seq<char>>) -> Seq<char> {
    if mods.len() == 0 {
        "MDL: "@ + name
    } else {
        "MDL: "@ + name + " ["@ + text::join(mods, ", "@) + "]"@
    }
}

/// The game window title for an instance and its mod names.
pub fn window_title(name: &str, mods: &Vec<String>) -> (r: String)
    ensures
        r@ == title_of(name@, mods.deep_view()),
{
    let mut t = text::concat2("MDL: ", name);
    if mods.len() > 0 {
        text::push_str(&mut t, " [");
        let j = text::join_strings(mods, ", ");
        assert(mods@.map_values(|p: String| p@) =~= mods.deep_view());
        text::push_str(&mut t, j.as_str());
        text::push_str(&mut t, "]");
    }
    t
}

/// Megabytes allocated dynamically from total memory: half of it, at most
/// 8192 and at least 2048.
pub open spec fn dynamic_mb(total_mb: u64) -> u64 {
    let half = total_mb / 2;
    let capped = if half < 8192 { half } else { 8192 };
    if capped > 2048 { capped } else { 2048 }
}

/// (-Xmx, -Xms) values: an explicit allocation wins; otherwise the dynamic
/// one when enabled (from total memory in MiB); otherwise `2G`. The minimum
/// heap is always `512M`.
pub open spec fn heap_sizes(memory: Option<Seq<char>>, dynamic: bool, total_mb: u64) -> (Seq<char>, Seq<char>) {
    match memory {
        Some(m) => (m, "512M"@),
        None => if dynamic {
            (text::decimal(dynamic_mb(total_mb) as nat) + "M"@, "512M"@)
        } else {
            ("2G"@, "512M"@)
        },
    }
}

/// The heap settings for a launch.
pub fn memory_settings(memory: &Option<String>, dynamic: bool, total_mb: u64) -> (r: (String, String))
    ensures
        (r.0@, r.1@) == heap_sizes(memory.deep_view(), dynamic, total_mb),
{
    match memory {
        Some(m) => (m.clone(), "512M".to_owned()),
        None => {
            if dynamic {
                let half = total_mb / 2;
                let capped = if half < 8192 { half } else { 8192 };
                let alloc = if capped > 2048 { capped } else { 2048 };
                let mut s = String::new();
                let d = text::u64_to_decimal(alloc);
                text::push_chars(&mut s, d.as_slice());
                text::push_str(&mut s, "M");
                assert(s@ =~= text::decimal(alloc as nat) + "M"@);
                (s, "512M".to_owned())
            } else {
                ("2G".to_owned(), "512M".to_owned())
            }
        },
    }
}

/// The megabytes an `-Xmx` value names: `<n>G` as `n * 1024` (2048 when `n`
/// does not parse), `<n>M` as `n` (2048 when it does not parse), else 2048.
pub open spec fn xmx_mb(xmx: Seq<char>) -> int {
    match text::strip_suffix(xmx, "G"@) {
        Some(v) => match text::parse_uint(v, u64::MAX as nat) {
            Some(n) => (n * 1024) as int,
            None => 2048,
        },
        None => match text::strip_suffix(xmx, "M"@) {
            Some(v) => match text::parse_uint(v, u64::MAX as nat) {
                Some(n) => n as int,
                None => 2048,
            },
            None => 2048,
        },
    }
}

/// Garbage-collector flags for a dynamic allocation: G1 with a 50 ms pause
/// target from 4096 MB on, the serial collector below.
pub open spec fn gc_flags(xmx: Seq<char>) -> Seq<Seq<char>> {
    if xmx_mb(xmx) >= 4096 {
        seq!["-XX:+UseG1GC"@, "-XX:MaxGCPauseMillis=50"@]
    } else {
        seq!["-XX:+UseSerialGC"@]
    }
}

/// The collector flags for a dynamic allocation of `xmx`.
pub fn gc_arguments(xmx: &str) -> (r: Vec<String>)
    ensures
        r.deep_view() == gc_flags(xmx@),
{
    let x = text::chars_of(xmx);
    let g = text::chars_of("G");
    let m = text::chars_of("M");
    let mb: u128 = match text::strip_suffix_seq(x.as_slice(), g.as_slice()) {
        Some(v) => match text::parse_uint_seq(v.as_slice(), u64::MAX) {
            Some(n) => (n as u128) * 1024,
            None => 2048,
        },
        None => match text::strip_suffix_seq(x.as_slice(), m.as_slice()) {
            Some(v) => match text::parse_uint_seq(v.as_slice(), u64::MAX) {
                Some(n) => n as u128,
                None => 2048,
            },
            None => 2048,
        },
    };
    let mut out: Vec<String> = Vec::new();
    if mb >= 4096 {
        out.push("-XX:+UseG1GC".to_owned());
        out.push("-XX:MaxGCPauseMillis=50".to_owned());
        assert(out.deep_view() =~= seq!["-XX:+UseG1GC"@, "-XX:MaxGCPauseMillis=50"@]);
    } else {
        out.push("-XX:+UseSerialGC".to_owned());
        assert(out.deep_view() =~= seq!["-XX:+UseSerialGC"@]);
    }
    out
}

// ---------------------------------------------------------------------------
// Game arguments
// ---------------------------------------------------------------------------

/// (host, port) of a server address: split at its last `:`, a port that
/// does not parse as `u16` giving 25565; no `:` means the default port.
pub open spec fn server_address(server: Seq<char>) -> (Seq<char>, u16) {
    match text::rsplit_once(server, ':') {
        Some(p) => (p.0, match text::parse_uint(p.1, 65535) {
            Some(n) => n as u16,
            None => 25565,
        }),
        None => (server, 25565),
    }
}

/// What the game arguments depend on.
pub struct GameArgInputs {
    pub username: Option<String>,
    pub version: String,
    pub game_dir: String,
    pub assets_dir: String,
    /// The asset index id, or the legacy `assets` name.
    pub asset_index: Option<String>,
    pub fullscreen: bool,
    pub width: Option<u32>,
    pub height: Option<u32>,
    pub server: Option<String>,
    pub main_class: String,
    pub version_dir: String,
    pub loader_game_args: Vec<String>,
    pub window_title: String,
}

/// A main class of NeoForge's bootstrap.
pub open spec fn is_neoforge_main(main_class: Seq<char>) -> bool {
    text::contains(main_class, "bootstraplauncher"@) || text::contains(main_class, "neoforge"@)
}

/// A main class of a Forge-family loader.
pub open spec fn is_modded_main(main_class: Seq<char>) -> bool {
    text::contains(main_class, "forge"@) || is_neoforge_main(main_class)
}

pub open spec fn opt_pair(flag: Seq<char>, v: Option<Seq<char>>) -> Seq<Seq<char>> {
    match v {
        Some(x) => seq![flag, x],
        None => Seq::empty(),
    }
}

/// Identity, directories, asset index and offline credentials.
pub open spec fn base_args(
    username: Option<Seq<char>>,
    version: Seq<char>,
    game_dir: Seq<char>,
    assets_dir: Seq<char>,
    asset_index: Option<Seq<char>>,
) -> Seq<Seq<char>> {
    seq![
        "--username"@,
        match username {
            Some(u) => u,
            None => "Player"@,
        },
        "--version"@,
        version,
        "--gameDir"@,
        game_dir,
        "--assetsDir"@,
        assets_dir,
    ] + opt_pair("--assetIndex"@, asset_index) + seq![
        "--uuid"@,
        "00000000-0000-0000-0000-000000000000"@,
        "--accessToken"@,
        "0"@,
        "--userType"@,
        "legacy"@,
        "--versionType"@,
        "release"@,
    ]
}

pub open spec fn dim(d: Option<u32>) -> Option<Seq<char>> {
    match d {
        Some(x) => Some(text::decimal(x as nat)),
        None => None,
    }
}

/// Window options.
pub open spec fn window_args(fullscreen: bool, width: Option<u32>, height: Option<u32>) -> Seq<Seq<char>> {
    (if fullscreen {
        seq!["--fullscreen"@]
    } else {
        Seq::empty()
    }) + opt_pair("--width"@, dim(width)) + opt_pair("--height"@, dim(height))
}

/// The server to join.
pub open spec fn server_args(server: Option<Seq<char>>) -> Seq<Seq<char>> {
    match server {
        Some(s) => seq!["--server"@, server_address(s).0, "--port"@, text::decimal(server_address(s).1 as nat)],
        None => Seq::empty(),
    }
}

/// The window title, when there is one.
pub open spec fn title_args(title: Seq<char>) -> Seq<Seq<char>> {
    if title.len() != 0 {
        seq!["--title"@, title]
    } else {
        Seq::empty()
    }
}

/// The loader part: NeoForge's arguments verbatim; newer Forge's followed by
/// `--gameJar`; legacy Forge's launch target and `--gameJar`; nothing for
/// other loaders.
pub open spec fn loader_tail(main_class: Seq<char>, version_dir: Seq<char>, version: Seq<char>, loader_args: Seq<Seq<char>>) -> Seq<Seq<char>> {
    let game_jar = paths::joined(version_dir, version + ".jar"@);
    if is_neoforge_main(main_class) && loader_args.len() != 0 {
        loader_args
    } else if is_modded_main(main_class) && loader_args.len() != 0 {
        loader_args + seq!["--gameJar"@, game_jar]
    } else if is_modded_main(main_class) {
        seq!["--launchTarget"@, "fmlclient"@, "--gameJar"@, game_jar]
    } else {
        Seq::empty()
    }
}

/// The game arguments of a launch, in order: base, window, server, title,
/// loader.
pub open spec fn game_args_of(a: GameArgInputs) -> Seq<Seq<char>> {
    base_args(a.username.deep_view(), a.version@, a.game_dir@, a.assets_dir@, a.asset_index.deep_view())
        + window_args(a.fullscreen, a.width, a.height) + server_args(a.server.deep_view()) + title_args(a.window_title@)
        + loader_tail(a.main_class@, a.version_dir@, a.version@, a.loader_game_args.deep_view())
}

/// How the game arguments end, by loader. A Forge main class (one naming
/// `forge` but not NeoForge's `bootstraplauncher` or `neoforge`) with
/// loader arguments: those arguments, then `--gameJar` and the vanilla
/// client `<version_dir>/<version>.jar`. Without loader arguments: the
/// legacy `--launchTarget fmlclient --gameJar <client>`. NeoForge with
/// loader arguments: those arguments verbatim, last. A main class naming no
/// loader adds nothing after the window title.
pub proof fn law_game_arguments_tail(a: GameArgInputs)
    ensures
        ({
            let g = game_args_of(a);
            let la = a.loader_game_args.deep_view();
            let forge = text::contains(a.main_class@, "forge"@);
            let neo = text::contains(a.main_class@, "bootstraplauncher"@) || text::contains(a.main_class@, "neoforge"@);
            let jar = paths::joined(a.version_dir@, a.version@ + ".jar"@);
            let head = base_args(a.username.deep_view(), a.version@, a.game_dir@, a.assets_dir@, a.asset_index.deep_view())
                + window_args(a.fullscreen, a.width, a.height) + server_args(a.server.deep_view()) + title_args(
                a.window_title@,
            );
            &&& forge && !neo && la.len() != 0 ==> g.len() >= la.len() + 2 && g.subrange(
                g.len() - la.len() - 2,
                g.len() - 2,
            ) == la && g[g.len() - 2] == "--gameJar"@ && g[g.len() - 1] == jar
            &&& forge && !neo && la.len() == 0 ==> g.len() >= 4 && g.subrange(g.len() - 4, g.len() as int) == seq![
                "--launchTarget"@,
                "fmlclient"@,
                "--gameJar"@,
                jar,
            ]
            &&& neo && la.len() != 0 ==> g.len() >= la.len() && g.subrange(g.len() - la.len(), g.len() as int) == la
                && g.len() == head.len() + la.len()
            &&& !forge && !neo ==> g == head
        }),
{
    let g = game_args_of(a);
    let la = a.loader_game_args.deep_view();
    let head = base_args(a.username.deep_view(), a.version@, a.game_dir@, a.assets_dir@, a.asset_index.deep_view())
        + window_args(a.fullscreen, a.width, a.height) + server_args(a.server.deep_view()) + title_args(a.window_title@);
    let tail = loader_tail(a.main_class@, a.version_dir@, a.version@, la);
    assert(g == head + tail);
    assert(g.subrange(head.len() as int, g.len() as int) =~= tail);
    if !text::contains(a.main_class@, "forge"@) && !is_neoforge_main(a.main_class@) {
        assert(tail =~= Seq::<Seq<char>>::empty());
        assert(g =~= head);
    }
    if is_modded_main(a.main_class@) && !is_neoforge_main(a.main_class@) && la.len() != 0 {
        assert(g.subrange(g.len() - la.len() - 2, g.len() - 2) =~= la);
    }
    if is_modded_main(a.main_class@) && !is_neoforge_main(a.main_class@) && la.len() == 0 {
        assert(g.subrange(g.len() - 4, g.len() as int) =~= tail);
    }
    if is_neoforge_main(a.main_class@) && la.len() != 0 {
        assert(g.subrange(g.len() - la.len(), g.len() as int) =~= la);
    }
}

/// The game arguments open with the player's name (`Player` when none is
/// given), the version, the game directory and the assets directory.
pub proof fn law_game_arguments_head(a: GameArgInputs)
    ensures
        game_args_of(a).len() >= 8,
        game_args_of(a).take(8) == seq![
            "--username"@,
            match a.username {
                Some(u) => u@,
                None => "Player"@,
            },
            "--version"@,
            a.version@,
            "--gameDir"@,
            a.game_dir@,
            "--assetsDir"@,
            a.assets_dir@,
        ],
{
    let g = game_args_of(a);
    assert(g.take(8) =~= seq![
        "--username"@,
        match a.username {
            Some(u) => u@,
            None => "Player"@,
        },
        "--version"@,
        a.version@,
        "--gameDir"@,
        a.game_dir@,
        "--assetsDir"@,
        a.assets_dir@,
    ]);
}

fn push_all(v: &mut Vec<String>, items: &Vec<String>)
    ensures
        final(v).deep_view() == old(v).deep_view() + items.deep_view(),
{
    let ghost base = v.deep_view();
    let mut i: usize = 0;
    assert(items.deep_view().take(0) =~= Seq::<Seq<char>>::empty());
    assert(base + items.deep_view().take(0) =~= base);
    while i < items.len()
        invariant
            i <= items@.len(),
            v.deep_view() == base + items.deep_view().take(i as int),
        decreases items@.len() - i,
    {
        v.push(items[i].clone());
        assert(base + items.deep_view().take(i + 1) =~= (base + items.deep_view().take(i as int)).push(items@[i as int]@));
        i += 1;
    }
    assert(items.deep_view().take(i as int) =~= items.deep_view());
}

fn push_str_item(v: &mut Vec<String>, s: &str)
    ensures
        final(v).deep_view() == old(v).deep_view().push(s@),
{
    let ghost base = v.deep_view();
    v.push(s.to_owned());
    assert(v.deep_view() =~= base.push(s@));
}

fn decimal_string(n: u64) -> (r: String)
    ensures
        r@ == text::decimal(n as nat),
{
    let d = text::u64_to_decimal(n);
    text::string_of(d.as_slice())
}

fn base_part(a: &GameArgInputs) -> (v: Vec<String>)
    ensures
        v.deep_view() == base_args(a.username.deep_view(), a.version@, a.game_dir@, a.assets_dir@, a.asset_index.deep_view()),
{
    let mut v: Vec<String> = Vec::new();
    push_str_item(&mut v, "--username");
    match &a.username {
        Some(u) => push_str_item(&mut v, u.as_str()),
        None => push_str_item(&mut v, "Player"),
    }
    push_str_item(&mut v, "--version");
    push_str_item(&mut v, a.version.as_str());
    push_str_item(&mut v, "--gameDir");
    push_str_item(&mut v, a.game_dir.as_str());
    push_str_item(&mut v, "--assetsDir");
    push_str_item(&mut v, a.assets_dir.as_str());
    let ghost s1 = v.deep_view();
    match &a.asset_index {
        Some(x) => {
            push_str_item(&mut v, "--assetIndex");
            push_str_item(&mut v, x.as_str());
        },
        None => {},
    }
    assert(v.deep_view() =~= s1 + opt_pair("--assetIndex"@, a.asset_index.deep_view()));
    push_str_item(&mut v, "--uuid");
    push_str_item(&mut v, "00000000-0000-0000-0000-000000000000");
    push_str_item(&mut v, "--accessToken");
    push_str_item(&mut v, "0");
    push_str_item(&mut v, "--userType");
    push_str_item(&mut v, "legacy");
    push_str_item(&mut v, "--versionType");
    push_str_item(&mut v, "release");
    assert(v.deep_view() =~= base_args(a.username.deep_view(), a.version@, a.game_dir@, a.assets_dir@, a.asset_index.deep_view()));
    v
}

fn window_part(fullscreen: bool, width: Option<u32>, height: Option<u32>) -> (v: Vec<String>)
    ensures
        v.deep_view() == window_args(fullscreen, width, height),
{
    let mut v: Vec<String> = Vec::new();
    if fullscreen {
        push_str_item(&mut v, "--fullscreen");
    }
    let ghost s0 = v.deep_view();
    match width {
        Some(w) => {
            push_str_item(&mut v, "--width");
            let d = decimal_string(w as u64);
            push_str_item(&mut v, d.as_str());
        },
        None => {},
    }
    assert(v.deep_view() =~= s0 + opt_pair("--width"@, dim(width)));
    let ghost s1 = v.deep_view();
    match height {
        Some(h) => {
            push_str_item(&mut v, "--height");
            let d = decimal_string(h as u64);
            push_str_item(&mut v, d.as_str());
        },
        None => {},
    }
    assert(v.deep_view() =~= s1 + opt_pair("--height"@, dim(height)));
    assert(v.deep_view() =~= window_args(fullscreen, width, height));
    v
}

fn server_part(server: &Option<String>) -> (v: Vec<String>)
    ensures
        v.deep_view() == server_args(server.deep_view()),
{
    let mut v: Vec<String> = Vec::new();
    match server {
        Some(s) => {
            let sc = text::chars_of(s.as_str());
            let (host, port): (Vec<char>, u16) = match text::rsplit_once_seq(sc.as_slice(), ':') {
                Some((h, p)) => {
                    let port = match text::parse_uint_seq(p.as_slice(), 65535) {
                        Some(n) => n as u16,
                        None => 25565,
                    };
                    (h, port)
                },
                None => (sc, 25565),
            };
            assert((host@, port) == server_address(s@));
            push_str_item(&mut v, "--server");
            let hs = text::string_of(host.as_slice());
            push_str_item(&mut v, hs.as_str());
            push_str_item(&mut v, "--port");
            let d = decimal_string(port as u64);
            push_str_item(&mut v, d.as_str());
            assert(v.deep_view() =~= server_args(server.deep_view()));
        },
        None => {
            assert(v.deep_view() =~= server_args(server.deep_view()));
        },
    }
    v
}

fn tail_part(main_class: &str, version_dir: &str, version: &str, loader_args: &Vec<String>) -> (v: Vec<String>)
    ensures
        v.deep_view() == loader_tail(main_class@, version_dir@, version@, loader_args.deep_view()),
{
    let mut v: Vec<String> = Vec::new();
    let is_neo = text::str_contains(main_class, "bootstraplauncher") || text::str_contains(main_class, "neoforge");
    let is_modded = text::str_contains(main_class, "forge") || is_neo;
    let jar_name = text::concat2(version, ".jar");
    let game_jar = paths::join(version_dir, jar_name.as_str());
    assert(v.deep_view() =~= Seq::<Seq<char>>::empty());
    if is_neo && loader_args.len() != 0 {
        push_all(&mut v, loader_args);
    } else if is_modded && loader_args.len() != 0 {
        push_all(&mut v, loader_args);
        push_str_item(&mut v, "--gameJar");
        push_str_item(&mut v, game_jar.as_str());
    } else if is_modded {
        push_str_item(&mut v, "--launchTarget");
        push_str_item(&mut v, "fmlclient");
        push_str_item(&mut v, "--gameJar");
        push_str_item(&mut v, game_jar.as_str());
    }
    assert(v.deep_view() =~= loader_tail(main_class@, version_dir@, version@, loader_args.deep_view()));
    v
}

/// The game arguments of a launch.
pub fn game_arguments(a: &GameArgInputs) -> (r: Vec<String>)
    ensures
        r.deep_view() == game_args_of(*a),
{
    let mut v = base_part(a);
    let w = window_part(a.fullscreen, a.width, a.height);
    push_all(&mut v, &w);
    let s = server_part(&a.server);
    push_all(&mut v, &s);
    let mut t: Vec<String> = Vec::new();
    if !a.window_title.as_str().is_empty() {
        push_str_item(&mut t, "--title");
        push_str_item(&mut t, a.window_title.as_str());
    }
    assert(t.deep_view() =~= title_args(a.window_title@));
    push_all(&mut v, &t);
    let l = tail_part(a.main_class.as_str(), a.version_dir.as_str(), a.version.as_str(), &a.loader_game_args);
    push_all(&mut v, &l);
    v
}

// ---------------------------------------------------------------------------
// JVM arguments
// ---------------------------------------------------------------------------

/// What the JVM part of the launch command depends on.
pub struct JvmArgInputs {
    /// (-Xmx, -Xms) values.
    pub xmx: String,
    pub xms: String,
    /// Whether the allocation was derived from system memory (then a
    /// collector is chosen for it).
    pub dynamic_memory: bool,
    pub natives_dir: String,
    /// In-game control and the port of its server.
    pub agent: bool,
    pub agent_port: u16,
    /// JVM arguments a loader's version file supplies.
    pub loader_jvm_args: Vec<String>,
    /// Module path entries of a legacy Forge launch, and the platform's path
    /// separator.
    pub module_entries: Vec<String>,
    pub path_separator: String,
    pub classpath: String,
    pub main_class: String,
}

/// The module options of a legacy Forge launch.
pub open spec fn forge_module_args(module_entries: Seq<Seq<char>>, sep: Seq<char>) -> Seq<Seq<char>> {
    seq![
        "-p"@,
        text::join(module_entries, sep),
        "--add-modules"@,
        "ALL-MODULE-PATH"@,
        "--add-opens"@,
        "java.base/java.util.jar=cpw.mods.securejarhandler"@,
        "--add-opens"@,
        "java.base/java.lang.invoke=cpw.mods.securejarhandler"@,
        "--add-exports"@,
        "java.base/sun.security.util=cpw.mods.securejarhandler"@,
        "--add-exports"@,
        "jdk.naming.dns/com.sun.jndi.dns=java.naming"@,
    ]
}

/// The JVM arguments of a launch, in order: heap sizes; the collector for
/// a dynamic allocation; the natives path; the control port; the loader's
/// JVM arguments, or else the legacy Forge module options; the class path
/// and the main class.
pub open spec fn jvm_args_of(a: JvmArgInputs) -> Seq<Seq<char>> {
    seq!["-Xmx"@ + a.xmx@, "-Xms"@ + a.xms@] + (if a.dynamic_memory {
        gc_flags(a.xmx@)
    } else {
        Seq::empty()
    }) + seq!["-Djava.library.path="@ + a.natives_dir@] + (if a.agent {
        seq!["-Ddespotes.port="@ + text::decimal(a.agent_port as nat)]
    } else {
        Seq::empty()
    }) + (if a.loader_jvm_args@.len() != 0 {
        a.loader_jvm_args.deep_view()
    } else if a.module_entries@.len() != 0 {
        forge_module_args(a.module_entries.deep_view(), a.path_separator@)
    } else {
        Seq::empty()
    }) + seq!["-cp"@, a.classpath@, a.main_class@]
}

fn forge_module_part(module_entries: &Vec<String>, sep: &str) -> (r: Vec<String>)
    ensures
        r.deep_view() == forge_module_args(module_entries.deep_view(), sep@),
{
    let mut v: Vec<String> = Vec::new();
    v.push("-p".to_owned());
    assert(module_entries@.map_values(|p: String| p@) =~= module_entries.deep_view());
    v.push(text::join_strings(module_entries, sep));
    v.push("--add-modules".to_owned());
    v.push("ALL-MODULE-PATH".to_owned());
    v.push("--add-opens".to_owned());
    v.push("java.base/java.util.jar=cpw.mods.securejarhandler".to_owned());
    v.push("--add-opens".to_owned());
    v.push("java.base/java.lang.invoke=cpw.mods.securejarhandler".to_owned());
    v.push("--add-exports".to_owned());
    v.push("java.base/sun.security.util=cpw.mods.securejarhandler".to_owned());
    v.push("--add-exports".to_owned());
    v.push("jdk.naming.dns/com.sun.jndi.dns=java.naming".to_owned());
    assert(v.deep_view() =~= forge_module_args(module_entries.deep_view(), sep@));
    v
}

/// The JVM arguments of a launch.
pub fn jvm_arguments(a: &JvmArgInputs) -> (r: Vec<String>)
    ensures
        r.deep_view() == jvm_args_of(*a),
{
    let mut v: Vec<String> = Vec::new();
    push_str_item(&mut v, text::concat2("-Xmx", a.xmx.as_str()).as_str());
    push_str_item(&mut v, text::concat2("-Xms", a.xms.as_str()).as_str());
    assert(v.deep_view() =~= seq!["-Xmx"@ + a.xmx@, "-Xms"@ + a.xms@]);
    if a.dynamic_memory {
        let g = gc_arguments(a.xmx.as_str());
        push_all(&mut v, &g);
    } else {
        assert(v.deep_view() =~= v.deep_view() + Seq::<Seq<char>>::empty());
    }
    push_str_item(&mut v, text::concat2("-Djava.library.path=", a.natives_dir.as_str()).as_str());
    let mut port_part: Vec<String> = Vec::new();
    if a.agent {
        let mut arg = "-Ddespotes.port=".to_owned();
        let d = text::u64_to_decimal(a.agent_port as u64);
        text::push_chars(&mut arg, d.as_slice());
        port_part.push(arg);
    }
    assert(port_part.deep_view() =~= (if a.agent {
        seq!["-Ddespotes.port="@ + text::decimal(a.agent_port as nat)]
    } else {
        Seq::<Seq<char>>::empty()
    }));
    push_all(&mut v, &port_part);
    if a.loader_jvm_args.len() != 0 {
        push_all(&mut v, &a.loader_jvm_args);
    } else if a.module_entries.len() != 0 {
        let m = forge_module_part(&a.module_entries, a.path_separator.as_str());
        push_all(&mut v, &m);
    } else {
        assert(v.deep_view() =~= v.deep_view() + Seq::<Seq<char>>::empty());
    }
    push_str_item(&mut v, "-cp");
    push_str_item(&mut v, a.classpath.as_str());
    push_str_item(&mut v, a.main_class.as_str());
    v
}

/// Whether a mods folder listing holds Fabric API (a file whose lower-cased
/// name contains `fabric-api`).
pub open spec fn lists_fabric_api(names: Seq<Seq<char>>) -> bool {
    exists|i: int| 0 <= i < names.len() && text::contains(text::spec_to_lowercase(#[trigger] names[i]), "fabric-api"@)
}

/// Whether Fabric API is among the files of a mods folder.
pub fn has_fabric_api(file_names: &Vec<String>) -> (r: bool)
    ensures
        r == lists_fabric_api(file_names.deep_view()),
{
    let ghost nv = file_names.deep_view();
    let pat = text::chars_of("fabric-api");
    let mut i: usize = 0;
    while i < file_names.len()
        invariant
            i <= file_names@.len(),
            nv == file_names.deep_view(),
            pat@ == "fabric-api"@,
            forall|k: int| 0 <= k < i ==> !text::contains(text::spec_to_lowercase(#[trigger] nv[k]), "fabric-api"@),
        decreases file_names@.len() - i,
    {
        assert(nv[i as int] == file_names@[i as int]@);
        let l = text::to_lowercase(file_names[i].as_str());
        let lc = text::chars_of(l.as_str());
        if text::contains_seq(lc.as_slice(), pat.as_slice()) {
            return true;
        }
        i += 1;
    }
    false
}

// ---------------------------------------------------------------------------
// Launch queue
// ---------------------------------------------------------------------------

/// What a launch does about the launch lock.
#[derive(Debug, Clone, Copy, PartialEq, Eq, Structural)]
pub enum LockStep {
    /// Write our process id into the lock and launch.
    Take,
    /// Another launch holds the lock and queueing is off: launch without
    /// touching the lock.
    Parallel,
    /// Another launch holds the lock: look again in a second.
    Wait,
}

/// The process id a launch lock names (its trimmed text as a `u32`).
pub fn lock_holder(content: Option<&str>) -> (r: Option<u32>)
    ensures
        r == match content {
            Some(c) => text::parse_u32(text::trim(c@)),
            None => None,
        },
{
    match content {
        Some(c) => {
            let v = text::chars_of(c);
            let t = text::trim_seq(v.as_slice());
            text::parse_u32_seq(t.as_slice())
        },
        None => None,
    }
}

/// The step a launch takes given the lock's holder and whether that process
/// is alive: a live holder makes it wait (or launch in parallel when
/// queueing is off); no holder, or a dead one, lets it take the lock.
pub fn launch_lock_step(holder: Option<u32>, holder_alive: bool, no_queue: bool) -> (r: LockStep)
    ensures
        r == if holder is Some && holder_alive {
            if no_queue {
                LockStep::Parallel
            } else {
                LockStep::Wait
            }
        } else {
            LockStep::Take
        },
{
    if holder.is_some() && holder_alive {
        if no_queue {
            LockStep::Parallel
        } else {
            LockStep::Wait
        }
    } else {
        LockStep::Take
    }
}

} // verus!
