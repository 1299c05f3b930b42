//! Managed dedicated servers: their metadata, where they live, the RCON
//! endpoint of their console, and password rotation in their properties.
use vstd::prelude::*;
use crate::text;
use crate::paths;
use crate::props::{self, PropertiesFile};
use crate::listing::SortKey;

verus! {

/// RCON port written into a new server's properties.
pub const DEFAULT_RCON_PORT: u16 = 25575;

/// Metadata of a managed server (its `server.json`).
#[derive(Debug, Clone)]
pub struct ServerInfo {
    pub name: String,
    pub version: String,
    pub memory: Option<String>,
    /// RCON port; `None` for servers created without RCON.
    pub rcon_port: Option<u16>,
    /// Generated RCON password.
    pub rcon_password: Option<String>,
}

/// Servers are listed by name.
impl SortKey for ServerInfo {
    open spec fn key_view(&self) -> Seq<char> {
        self.name@
    }

    fn sort_key(&self) -> (r: &str) {
        self.name.as_str()
    }
}

/// Directory of all managed servers under the data directory.
pub open spec fn servers_dir_of(data_dir: Seq<char>) -> Seq<char> {
    paths::joined(data_dir, "servers"@)
}

/// `<data>/servers`.
pub fn servers_dir(data_dir: &str) -> (r: String)
    ensures
        r@ == servers_dir_of(data_dir@),
{
    paths::join(data_dir, "servers")
}

impl ServerInfo {
    /// The server's directory, `<data>/servers/<name>`.
    pub fn dir(&self, data_dir: &str) -> (r: String)
        ensures
            r@ == paths::joined(servers_dir_of(data_dir@), self.name@),
    {
        let base = servers_dir(data_dir);
        paths::join(base.as_str(), self.name.as_str())
    }
}

/// Where a server's metadata is stored.
pub fn server_metadata_path(data_dir: &str, name: &str) -> (r: String)
    ensures
        r@ == paths::joined(paths::joined(servers_dir_of(data_dir@), name@), "server.json"@),
{
    let base = servers_dir(data_dir);
    let dir = paths::join(base.as_str(), name);
    paths::join(dir.as_str(), "server.json")
}

pub open spec fn missing_server_msg(name: Seq<char>) -> Seq<char> {
    "Server '"@ + name + "' does not exist (create it with `mdl server create`)"@
}

/// A server's metadata from its stored form: `stored` is `None` when the
/// server has no `server.json`, else the decoding of that file (or the
/// decoder's error, passed on).
pub fn load_server(name: &str, stored: Option<Result<ServerInfo, String>>) -> (r: Result<ServerInfo, String>)
    ensures
        match stored {
            None => r matches Err(e) && e@ == missing_server_msg(name@),
            Some(s) => r == s,
        },
{
    match stored {
        None => {
            let mut m = "Server '".to_owned();
            text::push_str(&mut m, name);
            text::push_str(&mut m, "' does not exist (create it with `mdl server create`)");
            Err(m)
        },
        Some(s) => s,
    }
}

/// The local RCON endpoint of a server, `127.0.0.1:<port>`.
pub open spec fn rcon_endpoint(port: u16) -> Seq<char> {
    "127.0.0.1:"@ + text::decimal(port as nat)
}

/// The RCON address of a server as `127.0.0.1:<port>|<password>`, when it
/// has a port and a non-empty password.
pub open spec fn rcon_addr_of(port: Option<u16>, password: Option<Seq<char>>) -> Option<Seq<char>> {
    match (port, password) {
        (Some(p), Some(pw)) => if pw.len() > 0 {
            Some(rcon_endpoint(p) + "|"@ + pw)
        } else {
            None
        },
        _ => None,
    }
}

fn endpoint_string(port: u16) -> (r: String)
    ensures
        r@ == rcon_endpoint(port),
{
    let mut s = "127.0.0.1:".to_owned();
    let d = text::u64_to_decimal(port as u64);
    text::push_chars(&mut s, d.as_slice());
    s
}

/// The RCON endpoint and password of a managed server, if configured.
pub fn rcon_addr(info: &ServerInfo) -> (r: Option<String>)
    ensures
        r.deep_view() == rcon_addr_of(info.rcon_port, info.rcon_password.deep_view()),
{
    let port = match info.rcon_port {
        Some(p) => p,
        None => return None,
    };
    let password = match &info.rcon_password {
        Some(p) => p,
        None => return None,
    };
    if password.as_str().is_empty() {
        return None;
    }
    let mut s = endpoint_string(port);
    text::push_str(&mut s, "|");
    text::push_str(&mut s, password.as_str());
    Some(s)
}

pub open spec fn no_rcon_msg(name: Seq<char>) -> Seq<char> {
    "Server '"@ + name
        + "' has no RCON config (re-create it or enable-rcon manually in server.properties)"@
}

/// Where to send a console command of a managed server: the RCON endpoint
/// and password, or why the server has none.
pub fn console_target(info: &ServerInfo) -> (r: Result<(String, String), String>)
    ensures
        match (info.rcon_port, info.rcon_password.deep_view()) {
            (Some(p), Some(pw)) => if pw.len() > 0 {
                r matches Ok(t) && t.0@ == rcon_endpoint(p) && t.1@ == pw
            } else {
                r matches Err(e) && e@ == no_rcon_msg(info.name@)
            },
            _ => r matches Err(e) && e@ == no_rcon_msg(info.name@),
        },
{
    let fail = || -> (m: String)
        ensures
            m@ == no_rcon_msg(info.name@),
    {
        let mut m = "Server '".to_owned();
        text::push_str(&mut m, info.name.as_str());
        text::push_str(&mut m, "' has no RCON config (re-create it or enable-rcon manually in server.properties)");
        m
    };
    match (info.rcon_port, &info.rcon_password) {
        (Some(p), Some(pw)) => {
            if pw.as_str().is_empty() {
                Err(fail())
            } else {
                Ok((endpoint_string(p), pw.clone()))
            }
        },
        _ => Err(fail()),
    }
}

// ---------------------------------------------------------------------------
// Password rotation
// ---------------------------------------------------------------------------

/// The properties after a rotation to `password`: RCON enabled, the default
/// port written when the server had none, and the new password.
pub open spec fn rotated_props(ls: Seq<Seq<char>>, had_port: bool, password: Seq<char>) -> Seq<Seq<char>> {
    let enabled = props::set_lines(ls, "enable-rcon"@, "true"@);
    let ported = if had_port {
        enabled
    } else {
        props::set_lines(enabled, "rcon.port"@, "25575"@)
    };
    props::set_lines(ported, "rcon.password"@, password)
}

/// The port the rotated properties name (25575 when it does not parse).
pub open spec fn rotated_port(ls: Seq<Seq<char>>) -> u16 {
    match props::value_of(ls, "rcon.port"@) {
        Some(v) => match text::parse_uint(v, 65535) {
            Some(n) => n as u16,
            None => 25575,
        },
        None => 25575,
    }
}

/// Rotates a server's RCON password to `password` (freshly generated by the
/// caller) in its properties and its metadata; the caller stores both.
pub fn rotate_rcon_password(info: &mut ServerInfo, properties: &mut PropertiesFile, password: &str)
    ensures
        final(properties)@ == rotated_props(old(properties)@, old(info).rcon_port is Some, password@),
        final(info).rcon_port == Some(rotated_port(final(properties)@)),
        final(info).rcon_password.deep_view() == Some(password@),
        final(info).name == old(info).name,
        final(info).version == old(info).version,
        final(info).memory == old(info).memory,
{
    properties.set("enable-rcon", "true");
    if info.rcon_port.is_none() {
        info.rcon_port = Some(DEFAULT_RCON_PORT);
        properties.set("rcon.port", "25575");
    }
    properties.set("rcon.password", password);
    let port: u16 = match properties.get("rcon.port") {
        Some(v) => {
            let c = text::chars_of(v.as_str());
            match text::parse_uint_seq(c.as_slice(), 65535) {
                Some(n) => n as u16,
                None => DEFAULT_RCON_PORT,
            }
        },
        None => DEFAULT_RCON_PORT,
    };
    info.rcon_port = Some(port);
    info.rcon_password = Some(password.to_owned());
}

/// After a rotation the properties read back the new password, RCON is
/// enabled, and a server that had no port is given the default one; the
/// metadata (see `rotate_rcon_password`) names the same password. A
/// password with blanks at either end would be read back trimmed.
pub proof fn law_rotation_names_new_password(ls: Seq<Seq<char>>, had_port: bool, password: Seq<char>)
    requires
        password.len() == 0 || (!text::is_ws(password[0]) && !text::is_ws(password.last())),
    ensures
        props::value_of(rotated_props(ls, had_port, password), "rcon.password"@) == Some(password),
        props::value_of(rotated_props(ls, had_port, password), "enable-rcon"@) == Some("true"@),
        !had_port ==> props::value_of(rotated_props(ls, had_port, password), "rcon.port"@) == Some("25575"@),
{
    reveal_strlit("rcon.password");
    reveal_strlit("enable-rcon");
    reveal_strlit("rcon.port");
    reveal_strlit("true");
    reveal_strlit("25575");
    let en = "enable-rcon"@;
    let po = "rcon.port"@;
    let pw = "rcon.password"@;
    assert(forall|i: int| 0 <= i < en.len() ==> en[i] != '=');
    assert(forall|i: int| 0 <= i < po.len() ==> po[i] != '=');
    assert(forall|i: int| 0 <= i < pw.len() ==> pw[i] != '=');
    props::lemma_plain_row_reads_back(en, "true"@);
    props::lemma_plain_row_reads_back(po, "25575"@);
    props::lemma_plain_row_reads_back(pw, password);
    assert(en != po && en != pw && po != pw) by {
        assert(en.len() != po.len() && en.len() != pw.len() && po.len() != pw.len());
    }
    let enabled = props::set_lines(ls, en, "true"@);
    let ported = if had_port {
        enabled
    } else {
        props::set_lines(enabled, po, "25575"@)
    };
    props::law_get_after_set(ls, en, "true"@);
    props::law_get_after_set(ported, pw, password);
    props::law_set_keeps_other_values(ported, pw, password, en);
    if !had_port {
        props::law_get_after_set(enabled, po, "25575"@);
        props::law_set_keeps_other_values(enabled, po, "25575"@, en);
        props::law_set_keeps_other_values(ported, pw, password, po);
    }
}

// ---------------------------------------------------------------------------
// Creating and launching
// ---------------------------------------------------------------------------

/// The `eula.txt` written when a server is created.
pub const EULA_TEXT: &'static str = "eula=true\n# Accepted automatically by MCDebugLauncher on server creation\n";

/// The properties of a new server: RCON enabled on `rcon_port` with
/// `rcon_password`.
pub open spec fn default_properties_text(rcon_port: u16, rcon_password: Seq<char>) -> Seq<char> {
    "server-port=25565\nmotd=MDL managed server\nonline-mode=false\nenable-rcon=true\nrcon.port="@ + text::decimal(
        rcon_port as nat,
    ) + "\nrcon.password="@ + rcon_password + "\n"@
}

/// The `server.properties` of a new server.
pub fn default_server_properties(rcon_port: u16, rcon_password: &str) -> (r: String)
    ensures
        r@ == default_properties_text(rcon_port, rcon_password@),
{
    let mut s = "server-port=25565\nmotd=MDL managed server\nonline-mode=false\nenable-rcon=true\nrcon.port=".to_owned();
    let d = text::u64_to_decimal(rcon_port as u64);
    text::push_chars(&mut s, d.as_slice());
    text::push_str(&mut s, "\nrcon.password=");
    text::push_str(&mut s, rcon_password);
    text::push_str(&mut s, "\n");
    s
}

/// The metadata of a new server.
pub fn new_server_info(name: &str, version: &str, memory: Option<&str>, rcon_password: String) -> (r: ServerInfo)
    ensures
        r.name@ == name@,
        r.version@ == version@,
        r.memory.deep_view() == match memory {
            Some(m) => Some(m@),
            None => None,
        },
        r.rcon_port == Some(DEFAULT_RCON_PORT),
        r.rcon_password == Some(rcon_password),
{
    ServerInfo {
        name: name.to_owned(),
        version: version.to_owned(),
        memory: match memory {
            Some(m) => Some(m.to_owned()),
            None => None,
        },
        rcon_port: Some(DEFAULT_RCON_PORT),
        rcon_password: Some(rcon_password),
    }
}

/// The Java arguments of a server: its memory (default `2G`) as both heap
/// bounds, then the server JAR without its GUI.
pub open spec fn server_args_of(memory: Option<Seq<char>>) -> Seq<Seq<char>> {
    let m = match memory {
        Some(x) => x,
        None => "2G"@,
    };
    seq!["-Xmx"@ + m, "-Xms"@ + m, "-jar"@, "server.jar"@, "nogui"@]
}

/// The Java arguments that launch a server.
pub fn server_java_args(info: &ServerInfo) -> (r: Vec<String>)
    ensures
        r.deep_view() == server_args_of(info.memory.deep_view()),
{
    let m: String = match &info.memory {
        Some(x) => x.clone(),
        None => "2G".to_owned(),
    };
    let mut v: Vec<String> = Vec::new();
    v.push(text::concat2("-Xmx", m.as_str()));
    v.push(text::concat2("-Xms", m.as_str()));
    v.push("-jar".to_owned());
    v.push("server.jar".to_owned());
    v.push("nogui".to_owned());
    assert(v.deep_view() =~= server_args_of(info.memory.deep_view()));
    v
}

pub open spec fn jar_missing_msg(dir: Seq<char>) -> Seq<char> {
    "server.jar missing in "@ + dir + " (re-create the server or supply a server jar)"@
}

pub open spec fn already_running_msg(name: Seq<char>, pid: u32) -> Seq<char> {
    "Server '"@ + name + "' is already running (PID "@ + text::decimal(pid as nat) + ")"@
}

pub open spec fn eula_missing_msg() -> Seq<char> {
    "eula.txt missing \u{2014} refusing to start the server without an accepted EULA"@
}

/// Checks that a server can be started: its JAR is present (in `dir`), it
/// is not running already (`running` is the live pid it recorded, if any),
/// and its EULA is accepted.
pub fn check_server_launch(name: &str, dir: &str, jar_exists: bool, running: Option<u32>, eula_exists: bool) -> (r: Result<(), String>)
    ensures
        !jar_exists ==> (r matches Err(e) && e@ == jar_missing_msg(dir@)),
        jar_exists && running is Some ==> (r matches Err(e) && e@ == already_running_msg(name@, running->0)),
        jar_exists && running is None && !eula_exists ==> (r matches Err(e) && e@ == eula_missing_msg()),
        jar_exists && running is None && eula_exists ==> r is Ok,
{
    if !jar_exists {
        let mut m = text::concat2("server.jar missing in ", dir);
        text::push_str(&mut m, " (re-create the server or supply a server jar)");
        return Err(m);
    }
    if let Some(pid) = running {
        let mut m = text::concat2("Server '", name);
        text::push_str(&mut m, "' is already running (PID ");
        let d = text::u64_to_decimal(pid as u64);
        text::push_chars(&mut m, d.as_slice());
        text::push_str(&mut m, ")");
        return Err(m);
    }
    if !eula_exists {
        return Err("eula.txt missing \u{2014} refusing to start the server without an accepted EULA".to_owned());
    }
    Ok(())
}

/// The log line a server prints when it has finished starting
/// (`Done (<time>)! For help, type "help"`).
pub open spec fn is_ready_line_spec(line: Seq<char>) -> bool {
    text::contains(line, "Done ("@) && text::contains(line, ")!"@)
}

/// Whether a server log line says the server is ready.
pub fn is_ready_line(line: &str) -> (r: bool)
    ensures
        r == is_ready_line_spec(line@),
{
    text::str_contains(line, "Done (") && text::str_contains(line, ")!")
}

} // verus!
