//! Instances: their configuration, the registry of javaagents attached at
//! launch, the mods folder, world backups, and where an instance lives.
//! Files are read and written by the caller; the decisions are made here.
use vstd::prelude::*;
use crate::text;
use crate::paths;
use crate::listing::SortKey;

verus! {

// ---------------------------------------------------------------------------
// Configuration
// ---------------------------------------------------------------------------

/// Mod loader of an instance.
#[derive(Debug, Clone)]
pub struct LoaderConfig {
    pub loader_type: String,
    pub version: String,
}

/// A registered javaagent.
#[derive(Debug, Clone)]
pub struct JavaAgentEntry {
    /// Display name (the JAR file name without its extension).
    pub name: String,
    /// JAR path relative to the instance root, e.g. `javaagents/a.jar`.
    pub path: String,
    /// Options passed after `=`.
    pub params: Option<String>,
    /// Whether the agent is attached at launch.
    pub enabled: bool,
}

/// Configuration of an instance (`instance.json`).
#[derive(Debug, Clone)]
pub struct InstanceConfig {
    pub name: String,
    pub version: String,
    pub loader: Option<LoaderConfig>,
    pub javaagents: Vec<JavaAgentEntry>,
    /// Java runtime binding: `aprism` or `aprism@<tag|version>`.
    pub jdk: Option<String>,
}

/// Subdirectory of an instance holding the agent JARs.
pub const AGENTS_DIR: &'static str = "javaagents";

/// Whether a registered agent is enabled when its record omits the flag.
pub const AGENT_ENABLED_BY_DEFAULT: bool = true;

// ---------------------------------------------------------------------------
// Javaagent registry
// ---------------------------------------------------------------------------

/// (name, path, params, enabled) of a registered agent.
pub type AgentView = (Seq<char>, Seq<char>, Option<Seq<char>>, bool);

pub open spec fn agent_view(a: JavaAgentEntry) -> AgentView {
    (a.name@, a.path@, a.params.deep_view(), a.enabled)
}

pub open spec fn agents_view(v: Seq<JavaAgentEntry>) -> Seq<AgentView> {
    v.map_values(|a: JavaAgentEntry| agent_view(a))
}

/// Index of the first agent registered under `name`.
pub open spec fn agent_index_from(v: Seq<AgentView>, name: Seq<char>, i: int) -> Option<int>
    decreases v.len() - i,
{
    if i < 0 || i >= v.len() {
        None
    } else if v[i].0 == name {
        Some(i)
    } else {
        agent_index_from(v, name, i + 1)
    }
}

pub open spec fn agent_index(v: Seq<AgentView>, name: Seq<char>) -> Option<int> {
    agent_index_from(v, name, 0)
}

pub proof fn lemma_agent_index_from(v: Seq<AgentView>, name: Seq<char>, i: int)
    requires
        0 <= i <= v.len(),
    ensures
        match agent_index_from(v, name, i) {
            Some(j) => i <= j < v.len() && v[j].0 == name && forall|k: int| i <= k < j ==> v[k].0 != name,
            None => forall|k: int| i <= k < v.len() ==> v[k].0 != name,
        },
    decreases v.len() - i,
{
    if i < v.len() && v[i].0 != name {
        lemma_agent_index_from(v, name, i + 1);
    }
}

fn find_agent(agents: &Vec<JavaAgentEntry>, name: &str) -> (r: Option<usize>)
    ensures
        r matches Some(k) ==> agent_index(agents_view(agents@), name@) == Some(k as int) && k < agents@.len(),
        r is None ==> agent_index(agents_view(agents@), name@) is None,
{
    let ghost av = agents_view(agents@);
    let mut i: usize = 0;
    while i < agents.len()
        invariant
            i <= agents@.len(),
            av == agents_view(agents@),
            agent_index(av, name@) == agent_index_from(av, name@, i as int),
        decreases agents@.len() - i,
    {
        assert(av[i as int] == agent_view(agents@[i as int]));
        if text::str_eq(agents[i].name.as_str(), name) {
            return Some(i);
        }
        i += 1;
    }
    None
}

pub open spec fn agent_registered_msg(name: Seq<char>) -> Seq<char> {
    "JavaAgent '"@ + name + "' is already registered in this instance"@
}

pub open spec fn agent_not_found_msg(name: Seq<char>) -> Seq<char> {
    "JavaAgent '"@ + name + "' not found"@
}

/// The registry entry of an agent JAR copied into the instance.
pub open spec fn new_agent(display_name: Seq<char>, jar_name: Seq<char>, params: Option<Seq<char>>) -> AgentView {
    (display_name, "javaagents/"@ + jar_name, params, true)
}

/// Registers an agent JAR (already copied into the instance's agents
/// directory as `jar_name`) under `display_name`, enabled. A name can be
/// registered once.
pub fn register_agent(
    agents: &mut Vec<JavaAgentEntry>,
    jar_name: &str,
    display_name: &str,
    params: Option<&str>,
) -> (r: Result<String, String>)
    ensures
        agent_index(agents_view(old(agents)@), display_name@) is Some ==> (r matches Err(e) && e@
            == agent_registered_msg(display_name@) && final(agents)@ == old(agents)@),
        agent_index(agents_view(old(agents)@), display_name@) is None ==> (r matches Ok(n) && n@ == display_name@
            && agents_view(final(agents)@) == agents_view(old(agents)@).push(
            new_agent(display_name@, jar_name@, match params {
                Some(p) => Some(p@),
                None => None,
            }),
        )),
{
    if find_agent(agents, display_name).is_some() {
        let mut m = "JavaAgent '".to_owned();
        text::push_str(&mut m, display_name);
        text::push_str(&mut m, "' is already registered in this instance");
        return Err(m);
    }
    let path = text::concat2("javaagents/", jar_name);
    let entry = JavaAgentEntry {
        name: display_name.to_owned(),
        path,
        params: match params {
            Some(p) => Some(p.to_owned()),
            None => None,
        },
        enabled: true,
    };
    let ghost before = agents@;
    agents.push(entry);
    assert(agents_view(agents@) =~= agents_view(before).push(agent_view(agents@[before.len() as int])));
    Ok(display_name.to_owned())
}

/// Unregisters the first agent registered under `name`, handing back its
/// entry (its JAR is deleted by the caller).
pub fn unregister_agent(agents: &mut Vec<JavaAgentEntry>, name: &str) -> (r: Result<JavaAgentEntry, String>)
    ensures
        match agent_index(agents_view(old(agents)@), name@) {
            Some(i) => r matches Ok(e) && agent_view(e) == agents_view(old(agents)@)[i] && agents_view(final(agents)@)
                == agents_view(old(agents)@).remove(i),
            None => r matches Err(e) && e@ == agent_not_found_msg(name@) && final(agents)@ == old(agents)@,
        },
{
    match find_agent(agents, name) {
        Some(i) => {
            let ghost before = agents@;
            let e = agents.remove(i);
            assert(agents_view(agents@) =~= agents_view(before).remove(i as int));
            Ok(e)
        },
        None => {
            let mut m = "JavaAgent '".to_owned();
            text::push_str(&mut m, name);
            text::push_str(&mut m, "' not found");
            Err(m)
        },
    }
}

/// Enables or disables the first agent registered under `name`.
pub fn set_agent_enabled(agents: &mut Vec<JavaAgentEntry>, name: &str, enabled: bool) -> (r: Result<(), String>)
    ensures
        match agent_index(agents_view(old(agents)@), name@) {
            Some(i) => r is Ok && agents_view(final(agents)@) == agents_view(old(agents)@).update(
                i,
                (agents_view(old(agents)@)[i].0, agents_view(old(agents)@)[i].1, agents_view(old(agents)@)[i].2, enabled),
            ),
            None => r matches Err(e) && e@ == agent_not_found_msg(name@) && final(agents)@ == old(agents)@,
        },
{
    let found = find_agent(agents, name);
    match found {
        Some(i) => {
            let ghost before = agents@;
            let e = JavaAgentEntry {
                name: agents[i].name.clone(),
                path: agents[i].path.clone(),
                params: match &agents[i].params {
                    Some(p) => Some(p.clone()),
                    None => None,
                },
                enabled,
            };
            agents.set(i, e);
            assert(agents_view(agents@) =~= agents_view(before).update(
                i as int,
                (agents_view(before)[i as int].0, agents_view(before)[i as int].1, agents_view(before)[i as int].2, enabled),
            ));
            Ok(())
        },
        None => {
            let mut m = "JavaAgent '".to_owned();
            text::push_str(&mut m, name);
            text::push_str(&mut m, "' not found");
            Err(m)
        },
    }
}

/// The `-javaagent` argument of an agent JAR at `jar`.
pub open spec fn agent_arg(jar: Seq<char>, params: Option<Seq<char>>) -> Seq<char> {
    match params {
        Some(p) => "-javaagent:"@ + jar + "="@ + p,
        None => "-javaagent:"@ + jar,
    }
}

/// Whether the JAR of agent `i` is present (`present` has one flag per
/// agent; a missing flag counts as absent).
pub open spec fn is_present(present: Seq<bool>, i: int) -> bool {
    0 <= i < present.len() && present[i]
}

/// The `-javaagent` arguments of the enabled agents whose JAR is present,
/// in registry order, with their JAR paths under the instance directory.
pub open spec fn agent_args_of(dir: Seq<char>, agents: Seq<AgentView>, present: Seq<bool>) -> Seq<Seq<char>>
    decreases agents.len(),
{
    if agents.len() == 0 {
        Seq::empty()
    } else {
        let i = agents.len() - 1;
        let a = agents[i];
        agent_args_of(dir, agents.drop_last(), present) + if a.3 && is_present(present, i) {
            seq![agent_arg(paths::joined(dir, a.1), a.2)]
        } else {
            Seq::empty()
        }
    }
}

/// The launch arguments for the registered agents of an instance;
/// `present[i]` tells whether the JAR of agent `i` exists.
pub fn agent_jvm_args(instance_dir: &str, agents: &Vec<JavaAgentEntry>, present: &Vec<bool>) -> (r: Vec<String>)
    ensures
        r.deep_view() == agent_args_of(instance_dir@, agents_view(agents@), present@),
{
    let ghost av = agents_view(agents@);
    let mut out: Vec<String> = Vec::new();
    let mut i: usize = 0;
    assert(av.take(0) =~= Seq::<AgentView>::empty());
    while i < agents.len()
        invariant
            i <= agents@.len(),
            av == agents_view(agents@),
            out.deep_view() == agent_args_of(instance_dir@, av.take(i as int), present@),
        decreases agents@.len() - i,
    {
        let a = &agents[i];
        assert(av.take(i + 1).drop_last() =~= av.take(i as int));
        assert(av.take(i + 1)[i as int] == agent_view(agents@[i as int]));
        let here = i < present.len() && present[i];
        if a.enabled && here {
            let jar = paths::join(instance_dir, a.path.as_str());
            let mut arg = text::concat2("-javaagent:", jar.as_str());
            match &a.params {
                Some(p) => {
                    text::push_str(&mut arg, "=");
                    text::push_str(&mut arg, p.as_str());
                },
                None => {},
            }
            let ghost before = out.deep_view();
            out.push(arg);
            assert(out.deep_view() =~= before.push(agent_arg(paths::joined(instance_dir@, av[i as int].1), av[i as int].2)));
        } else {
            assert(out.deep_view() =~= out.deep_view() + Seq::<Seq<char>>::empty());
        }
        i += 1;
    }
    assert(av.take(i as int) =~= av);
    out
}

/// Registering an agent and then unregistering it by name gives back the
/// registry as it was, and hands back the registered entry.
pub proof fn law_unregister_undoes_register(v: Seq<AgentView>, e: AgentView)
    requires
        agent_index(v, e.0) is None,
    ensures
        agent_index(v.push(e), e.0) == Some(v.len() as int),
        v.push(e).remove(v.len() as int) == v,
{
    lemma_agent_index_from(v, e.0, 0);
    lemma_agent_index_from(v.push(e), e.0, 0);
    let w = v.push(e);
    match agent_index(w, e.0) {
        Some(j) => {
            if j < v.len() {
                assert(w[j] == v[j]);
            }
        },
        None => {
            assert(w[v.len() as int].0 == e.0);
        },
    }
    assert(w.remove(v.len() as int) =~= v);
}

/// Enabling or disabling an agent changes only that agent's flag.
pub proof fn law_enable_touches_only_its_agent(v: Seq<AgentView>, name: Seq<char>, enabled: bool, k: int)
    requires
        agent_index(v, name) matches Some(i) && k != i,
        0 <= k < v.len(),
    ensures
        ({
            let i = agent_index(v, name)->0;
            v.update(i, (v[i].0, v[i].1, v[i].2, enabled))[k] == v[k]
        }),
{
    lemma_agent_index_from(v, name, 0);
}

// ---------------------------------------------------------------------------
// Mods folder
// ---------------------------------------------------------------------------

/// One file of the mods folder.
#[derive(Debug, Clone)]
pub struct ModInfo {
    /// File name, without the `.disabled` suffix of a disabled mod.
    pub filename: String,
    pub size_bytes: u64,
    pub enabled: bool,
    /// `jar` (loader mod), `aje` (Aprism native mod) or `other`.
    pub kind: String,
}

/// Mods are listed by file name.
impl SortKey for ModInfo {
    open spec fn key_view(&self) -> Seq<char> {
        self.filename@
    }

    fn sort_key(&self) -> (r: &str) {
        self.filename.as_str()
    }
}

/// Kind of a mods-folder file by its extension (ASCII case ignored).
pub open spec fn mod_kind(filename: Seq<char>) -> Seq<char> {
    let l = text::ascii_lower(filename);
    if text::ends_with(l, ".jar"@) {
        "jar"@
    } else if text::ends_with(l, ".aje"@) {
        "aje"@
    } else {
        "other"@
    }
}

/// Classifies a mods-folder file.
pub fn classify_mod(filename: &str) -> (r: &'static str)
    ensures
        r@ == mod_kind(filename@),
{
    let l = text::ascii_lower_str(filename);
    let jar = text::chars_of(".jar");
    let aje = text::chars_of(".aje");
    if text::ends_with_seq(l.as_slice(), jar.as_slice()) {
        "jar"
    } else if text::ends_with_seq(l.as_slice(), aje.as_slice()) {
        "aje"
    } else {
        "other"
    }
}

/// `s` with every trailing repetition of `suffix` removed
/// (`str::trim_end_matches`).
pub open spec fn trim_end_all(s: Seq<char>, suffix: Seq<char>) -> Seq<char>
    decreases s.len(),
{
    if suffix.len() > 0 && text::ends_with(s, suffix) {
        trim_end_all(s.take(s.len() - suffix.len()), suffix)
    } else {
        s
    }
}

fn trim_end_all_seq(s: &[char], suffix: &[char]) -> (r: Vec<char>)
    ensures
        r@ == trim_end_all(s@, suffix@),
{
    let mut cur: Vec<char> = text::slice_range(s, 0, s.len());
    assert(cur@ =~= s@);
    while suffix.len() > 0 && text::ends_with_seq(cur.as_slice(), suffix)
        invariant
            trim_end_all(cur@, suffix@) == trim_end_all(s@, suffix@),
        decreases cur@.len(),
    {
        let n = cur.len() - suffix.len();
        cur = text::slice_range(cur.as_slice(), 0, n);
    }
    cur
}

/// The listing entry of a mods-folder file: a `.disabled` suffix marks a
/// disabled mod and is not part of its listed name.
pub open spec fn mod_entry_of(filename: Seq<char>) -> (Seq<char>, bool, Seq<char>) {
    let enabled = !text::ends_with(filename, ".disabled"@);
    let shown = if enabled {
        filename
    } else {
        trim_end_all(filename, ".disabled"@)
    };
    (shown, enabled, mod_kind(shown))
}

/// The listing entry of a mods-folder file of `size_bytes` bytes.
pub fn mod_entry(filename: &str, size_bytes: u64) -> (m: ModInfo)
    ensures
        (m.filename@, m.enabled, m.kind@) == mod_entry_of(filename@),
        m.size_bytes == size_bytes,
{
    let f = text::chars_of(filename);
    let suffix = text::chars_of(".disabled");
    let enabled = !text::ends_with_seq(f.as_slice(), suffix.as_slice());
    let shown: String = if enabled {
        filename.to_owned()
    } else {
        let t = trim_end_all_seq(f.as_slice(), suffix.as_slice());
        text::string_of(t.as_slice())
    };
    let kind = classify_mod(shown.as_str());
    ModInfo { filename: shown, size_bytes, enabled, kind: kind.to_owned() }
}

/// The file name of a disabled mod.
pub fn disabled_file_name(filename: &str) -> (r: String)
    ensures
        r@ == filename@ + ".disabled"@,
{
    text::concat2(filename, ".disabled")
}

/// Checks that a file can be installed as a mod: a `.jar` or `.aje` file
/// (ASCII case ignored).
pub fn check_mod_file(filename: &str) -> (r: Result<(), String>)
    ensures
        mod_kind(filename@) != "other"@ ==> r is Ok,
        mod_kind(filename@) == "other"@ ==> (r matches Err(e) && e@
            == "Mod file must be a .jar (loader mod) or .aje (Aprism native mod) file"@),
{
    let k = classify_mod(filename);
    if text::str_eq(k, "other") {
        Err("Mod file must be a .jar (loader mod) or .aje (Aprism native mod) file".to_owned())
    } else {
        Ok(())
    }
}

/// A disabled mod is listed under the name it had before it was disabled,
/// and as disabled.
pub proof fn law_disabled_mod_keeps_its_name(filename: Seq<char>)
    requires
        !text::ends_with(filename, ".disabled"@),
    ensures
        mod_entry_of(filename + ".disabled"@) == (filename, false, mod_kind(filename)),
        mod_entry_of(filename).1,
{
    reveal_strlit(".disabled");
    let d = filename + ".disabled"@;
    assert(text::ends_with(d, ".disabled"@)) by {
        assert(d.skip(filename.len() as int) =~= ".disabled"@);
    }
    assert(d.take(d.len() - 9) =~= filename);
    assert(trim_end_all(filename, ".disabled"@) == filename);
    assert(trim_end_all(d, ".disabled"@) == trim_end_all(filename, ".disabled"@));
}

// ---------------------------------------------------------------------------
// World backups
// ---------------------------------------------------------------------------

/// A world backup archive.
#[derive(Debug, Clone)]
pub struct BackupInfo {
    pub name: String,
    pub instance: String,
    pub world: String,
    pub created_at: String,
    pub size_bytes: u64,
    pub path: String,
}

/// Backups are listed by creation time.
impl SortKey for BackupInfo {
    open spec fn key_view(&self) -> Seq<char> {
        self.created_at@
    }

    fn sort_key(&self) -> (r: &str) {
        self.created_at.as_str()
    }
}

/// The listing entry of a backup archive `<name>.zip` of an instance.
pub fn backup_entry(name: String, instance: &str, created_at: String, size_bytes: u64, path: String) -> (b: BackupInfo)
    ensures
        b.name == name,
        b.instance@ == instance@,
        b.world@ == world_of(name@),
        b.created_at == created_at,
        b.size_bytes == size_bytes,
        b.path == path,
{
    let world = world_of_backup(name.as_str());
    BackupInfo { name, instance: instance.to_owned(), world, created_at, size_bytes, path }
}

/// The name of a new backup: the requested one, or `<world>_<timestamp>`.
pub open spec fn backup_name_of(world: Seq<char>, timestamp: Seq<char>, requested: Option<Seq<char>>) -> Seq<char> {
    match requested {
        Some(n) => n,
        None => world + "_"@ + timestamp,
    }
}

/// The name of a new backup of `world` taken at `timestamp`
/// (`YYYYmmdd_HHMMSS`).
pub fn backup_name_for(world: &str, timestamp: &str, requested: Option<String>) -> (r: String)
    ensures
        r@ == backup_name_of(world@, timestamp@, requested.deep_view()),
{
    match requested {
        Some(n) => n,
        None => {
            let mut s = text::concat2(world, "_");
            text::push_str(&mut s, timestamp);
            s
        },
    }
}

/// Where a backup is stored: `<backups>/<name>.zip`.
pub fn backup_path(backups_dir: &str, name: &str) -> (r: String)
    ensures
        r@ == paths::joined(backups_dir@, name@ + ".zip"@),
{
    let file = text::concat2(name, ".zip");
    paths::join(backups_dir, file.as_str())
}

/// The world a backup was taken from: its name up to the first `_`.
pub open spec fn world_of(backup_name: Seq<char>) -> Seq<char> {
    text::split_char(backup_name, '_')[0]
}

/// The world a backup was taken from.
pub fn world_of_backup(backup_name: &str) -> (r: String)
    ensures
        r@ == world_of(backup_name@),
{
    let c = text::chars_of(backup_name);
    let parts = text::split_char_seq(c.as_slice(), '_');
    proof { text::lemma_split_char_unfold(c@, '_'); }
    text::string_of(parts[0].as_slice())
}

/// The world a restore writes: the requested one, or the backup's world.
pub fn restore_target(backup_name: &str, target: Option<String>) -> (r: String)
    ensures
        r@ == match target {
            Some(t) => t@,
            None => world_of(backup_name@),
        },
{
    match target {
        Some(t) => t,
        None => world_of_backup(backup_name),
    }
}

/// The name of the automatic backup taken before a restore overwrites a
/// world.
pub fn pre_restore_name(world: &str, timestamp: &str) -> (r: String)
    ensures
        r@ == world@ + "_pre_restore_"@ + timestamp@,
{
    let mut s = text::concat2(world, "_pre_restore_");
    text::push_str(&mut s, timestamp);
    s
}

/// Restoring a backup taken under its default name writes back the world
/// it was taken from (for world names without `_`).
pub proof fn law_restore_targets_backed_up_world(world: Seq<char>, timestamp: Seq<char>)
    requires
        !world.contains('_'),
    ensures
        world_of(backup_name_of(world, timestamp, None)) == world,
{
    let n = world + "_"@ + timestamp;
    reveal_strlit("_");
    text::lemma_split_char_unfold(n, '_');
    text::lemma_first_char_from(n, '_', 0);
    assert(n[world.len() as int] == '_');
    assert forall|k: int| 0 <= k < world.len() implies n[k] != '_' by {
        assert(n[k] == world[k]);
    }
    assert(n.take(world.len() as int) =~= world);
}

// ---------------------------------------------------------------------------
// Instances
// ---------------------------------------------------------------------------

/// A managed instance.
#[derive(Debug, Clone)]
pub struct Instance {
    pub name: String,
    pub config: InstanceConfig,
    pub path: String,
}

/// The instances of a directory.
#[derive(Debug, Clone)]
pub struct InstanceManager {
    pub instances_dir: String,
}

pub open spec fn instance_not_found_msg(name: Seq<char>) -> Seq<char> {
    "Instance '"@ + name + "' not found"@
}

pub open spec fn instance_exists_msg(name: Seq<char>) -> Seq<char> {
    "Instance '"@ + name + "' already exists"@
}

impl InstanceManager {
    /// The manager of the user's instances directory (found by the caller).
    pub fn new(instances_dir: String) -> (m: Self)
        ensures
            m.instances_dir == instances_dir,
    {
        InstanceManager { instances_dir }
    }

    /// A manager rooted at a given instances directory.
    pub fn with_dir(instances_dir: String) -> (m: Self)
        ensures
            m.instances_dir == instances_dir,
    {
        InstanceManager { instances_dir }
    }

    /// The directory of instance `name`.
    pub fn instance_path(&self, name: &str) -> (r: String)
        ensures
            r@ == paths::joined(self.instances_dir@, name@),
    {
        paths::join(self.instances_dir.as_str(), name)
    }

    /// The source and destination directories of a clone or rename from
    /// `src` to `dst`, given whether each exists: the source must exist and
    /// the destination must not.
    pub fn transfer_paths(&self, src: &str, dst: &str, src_exists: bool, dst_exists: bool) -> (r: Result<(String, String), String>)
        ensures
            !src_exists ==> (r matches Err(e) && e@ == instance_not_found_msg(src@)),
            src_exists && dst_exists ==> (r matches Err(e) && e@ == instance_exists_msg(dst@)),
            src_exists && !dst_exists ==> (r matches Ok(p) && p.0@ == paths::joined(self.instances_dir@, src@) && p.1@
                == paths::joined(self.instances_dir@, dst@)),
    {
        if !src_exists {
            let mut m = text::concat2("Instance '", src);
            text::push_str(&mut m, "' not found");
            return Err(m);
        }
        if dst_exists {
            let mut m = text::concat2("Instance '", dst);
            text::push_str(&mut m, "' already exists");
            return Err(m);
        }
        Ok((self.instance_path(src), self.instance_path(dst)))
    }
}

/// The mods folder of instances.
pub struct ModManager {
    pub manager: InstanceManager,
}

impl ModManager {
    pub fn new(instances_dir: String) -> (m: Self)
        ensures
            m.manager.instances_dir == instances_dir,
    {
        ModManager { manager: InstanceManager::new(instances_dir) }
    }
}

/// World backups of instances.
pub struct BackupManager {
    pub manager: InstanceManager,
}

impl BackupManager {
    pub fn new(instances_dir: String) -> (m: Self)
        ensures
            m.manager.instances_dir == instances_dir,
    {
        BackupManager { manager: InstanceManager::new(instances_dir) }
    }
}

/// The game options of instances.
pub struct ConfigManager {
    pub manager: InstanceManager,
}

impl ConfigManager {
    pub fn new(instances_dir: String) -> (m: Self)
        ensures
            m.manager.instances_dir == instances_dir,
    {
        ConfigManager { manager: InstanceManager::new(instances_dir) }
    }
}

/// Process status of instances.
pub struct InstanceStatus {
    pub manager: InstanceManager,
}

impl InstanceStatus {
    pub fn new(instances_dir: String) -> (m: Self)
        ensures
            m.manager.instances_dir == instances_dir,
    {
        InstanceStatus { manager: InstanceManager::new(instances_dir) }
    }
}

/// The process id recorded in a pid file (surrounding whitespace ignored).
pub fn parse_pid_file(content: &str) -> (r: Result<u32, String>)
    ensures
        match text::parse_u32(text::trim(content@)) {
            Some(p) => r == Ok::<u32, String>(p),
            None => r matches Err(e) && e@ == "Invalid PID format"@,
        },
{
    let c = text::chars_of(content);
    let t = text::trim_seq(c.as_slice());
    match text::parse_u32_seq(t.as_slice()) {
        Some(p) => Ok(p),
        None => Err("Invalid PID format".to_owned()),
    }
}

/// (uptime in seconds, memory in MiB) of a running game process from the
/// current time, its start time (both in seconds since the epoch) and its
/// memory in bytes.
pub fn running_stats(now_secs: u64, start_secs: u64, memory_bytes: u64) -> (r: (u64, u64))
    ensures
        r.0 == if now_secs >= start_secs { now_secs - start_secs } else { 0 },
        r.1 == memory_bytes / 1024 / 1024,
{
    (now_secs.saturating_sub(start_secs), memory_bytes / 1024 / 1024)
}

} // verus!
