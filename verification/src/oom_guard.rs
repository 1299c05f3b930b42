//! Out-of-memory protection before a launch: the report, which processes
//! count as stale game processes, and the build-tool exclusions that keep
//! toolchain JVMs alive.
use vstd::prelude::*;
use crate::text;

verus! {

/// Result of a pre-launch protection sweep.
#[derive(Debug, Clone)]
pub struct OomGuardReport {
    /// Stale game processes terminated.
    pub killed_processes: u32,
    /// Working-set bytes freed (best effort).
    pub ws_freed_bytes: u64,
    /// Whether the system standby list was purged.
    pub standby_purged: bool,
    /// Available physical memory after the sweep, in bytes.
    pub available_after_bytes: u64,
}

impl Default for OomGuardReport {
    fn default() -> (r: Self)
        ensures
            r.killed_processes == 0,
            r.ws_freed_bytes == 0,
            !r.standby_purged,
            r.available_after_bytes == 0,
    {
        OomGuardReport { killed_processes: 0, ws_freed_bytes: 0, standby_purged: false, available_after_bytes: 0 }
    }
}

/// Command-line substrings of build-toolchain JVMs that are never killed.
pub open spec fn builtin_excludes() -> Seq<Seq<char>> {
    seq![
        "gradle"@, "org.gradle.launcher"@, "jst-cli"@, "javac"@, "forgeflower"@, "vineflower"@, "cfr"@,
        "fernflower"@, "net.neoforged"@, "net.minecraftforge"@,
    ]
}

/// Whether a lower-cased command line holds one of the exclusions (built-in
/// first, then the user's).
pub open spec fn excluded(cmd_lower: Seq<char>, user: Seq<Seq<char>>) -> bool {
    (exists|i: int| 0 <= i < builtin_excludes().len() && text::contains(cmd_lower, #[trigger] builtin_excludes()[i]))
        || (exists|i: int| 0 <= i < user.len() && text::contains(cmd_lower, #[trigger] user[i]))
}

/// Whether a lower-cased command line matches a built-in or user exclusion.
pub fn is_excluded_command(cmd_lower: &str, user_excludes: &[String]) -> (r: bool)
    ensures
        r == excluded(cmd_lower@, user_excludes@.map_values(|s: String| s@)),
{
    let cmd = text::chars_of(cmd_lower);
    let c = cmd.as_slice();
    let builtin: [&str; 10] = [
        "gradle", "org.gradle.launcher", "jst-cli", "javac", "forgeflower", "vineflower", "cfr", "fernflower",
        "net.neoforged", "net.minecraftforge",
    ];
    proof {
        assert(builtin@.map_values(|s: &str| s@) =~= builtin_excludes());
    }
    let mut i: usize = 0;
    while i < 10
        invariant
            i <= 10,
            builtin@.map_values(|s: &str| s@) == builtin_excludes(),
            c@ == cmd_lower@,
            forall|k: int| 0 <= k < i ==> !text::contains(c@, #[trigger] builtin_excludes()[k]),
        decreases 10 - i,
    {
        assert(builtin_excludes()[i as int] == builtin@[i as int]@);
        let p = text::chars_of(builtin[i]);
        if text::contains_seq(c, p.as_slice()) {
            return true;
        }
        i += 1;
    }
    let ghost uv = user_excludes@.map_values(|s: String| s@);
    let mut j: usize = 0;
    while j < user_excludes.len()
        invariant
            j <= user_excludes@.len(),
            uv == user_excludes@.map_values(|s: String| s@),
            c@ == cmd_lower@,
            forall|k: int| 0 <= k < builtin_excludes().len() ==> !text::contains(c@, #[trigger] builtin_excludes()[k]),
            forall|k: int| 0 <= k < j ==> !text::contains(c@, #[trigger] uv[k]),
        decreases user_excludes@.len() - j,
    {
        assert(uv[j as int] == user_excludes@[j as int]@);
        let p = text::chars_of(user_excludes[j].as_str());
        if text::contains_seq(c, p.as_slice()) {
            return true;
        }
        j += 1;
    }
    false
}

/// The user exclusions a file holds: its trimmed lines that are neither
/// blank nor `#` comments, Unicode lower-cased.
pub open spec fn user_exclusions(content: Seq<char>) -> Seq<Seq<char>> {
    exclusion_lines(text::lines(content))
}

pub open spec fn exclusion_lines(ls: Seq<Seq<char>>) -> Seq<Seq<char>>
    decreases ls.len(),
{
    if ls.len() == 0 {
        Seq::empty()
    } else {
        let t = text::trim(ls.last());
        if t.len() == 0 || t[0] == '#' {
            exclusion_lines(ls.drop_last())
        } else {
            exclusion_lines(ls.drop_last()).push(text::spec_to_lowercase(t))
        }
    }
}

/// Parses the user exclusion file's content.
pub fn parse_user_exclusions(content: &str) -> (r: Vec<String>)
    ensures
        r.deep_view() == user_exclusions(content@),
{
    let ls = text::lines_str(content);
    let ghost lv = text::lines(content@);
    let mut out: Vec<String> = Vec::new();
    let mut i: usize = 0;
    assert(lv.take(0) =~= Seq::<Seq<char>>::empty());
    while i < ls.len()
        invariant
            i <= ls@.len(),
            lv == text::lines(content@),
            ls@.len() == lv.len(),
            forall|k: int| 0 <= k < ls@.len() ==> #[trigger] ls@[k]@ == lv[k],
            out.deep_view() == exclusion_lines(lv.take(i as int)),
        decreases ls@.len() - i,
    {
        assert(lv.take(i + 1).drop_last() =~= lv.take(i as int));
        assert(lv.take(i + 1).last() == ls@[i as int]@);
        let t = text::trim_str(ls[i].as_str());
        let tc = text::chars_of(t.as_str());
        if !(tc.len() == 0 || tc[0] == '#') {
            let ghost before = out.deep_view();
            out.push(text::to_lowercase(t.as_str()));
            assert(out.deep_view() =~= before.push(text::spec_to_lowercase(t@)));
        }
        i += 1;
    }
    assert(lv.take(i as int) =~= lv);
    out
}

/// Process names that count as game processes (compared ASCII
/// case-insensitively).
pub open spec fn game_process_names() -> Seq<Seq<char>> {
    seq!["java.exe"@, "javaw.exe"@, "minecraft.exe"@, "minecraft.windows.exe"@, "minecraftlauncher.exe"@]
}

/// Whether a running process is a stale-game candidate: a known game
/// process name (or plain `java`/`javaw`); for Java-like or `.exe` names,
/// its lower-cased command line must also mention Minecraft and match no
/// exclusion.
pub open spec fn sweep_candidate(name: Seq<char>, cmd_line: Seq<char>, user: Seq<Seq<char>>) -> bool {
    let lower = text::spec_to_lowercase(name);
    let is_mc = game_process_names().contains(text::ascii_lower(name));
    let is_java = lower == "java"@ || lower == "javaw"@;
    if !is_mc && !is_java {
        false
    } else if is_java || text::ends_with(lower, ".exe"@) {
        let cmd = text::spec_to_lowercase(cmd_line);
        (text::contains(cmd, "minecraft"@) || text::contains(cmd, "net.minecraft"@) || text::contains(cmd, "mcp"@)
            || text::contains(cmd, "mdriven"@)) && !excluded(cmd, user)
    } else {
        true
    }
}

/// Whether a process (name, command line joined by spaces) is one the
/// stale-process sweep may terminate.
pub fn is_sweep_candidate(name: &str, cmd_line: &str, user_excludes: &[String]) -> (r: bool)
    ensures
        r == sweep_candidate(name@, cmd_line@, user_excludes@.map_values(|s: String| s@)),
{
    let lower = text::to_lowercase(name);
    let ascii = text::ascii_lower_str(name);
    let a = ascii.as_slice();
    let names: [&str; 5] = ["java.exe", "javaw.exe", "minecraft.exe", "minecraft.windows.exe", "minecraftlauncher.exe"];
    proof {
        assert(names@.map_values(|s: &str| s@) =~= game_process_names());
    }
    let mut is_mc = false;
    let mut i: usize = 0;
    while i < 5
        invariant
            i <= 5,
            names@.map_values(|s: &str| s@) == game_process_names(),
            a@ == text::ascii_lower(name@),
            is_mc == exists|k: int| 0 <= k < i && game_process_names()[k] == a@,
        decreases 5 - i,
    {
        assert(game_process_names()[i as int] == names@[i as int]@);
        let p = text::chars_of(names[i]);
        if text::seq_eq(a, p.as_slice()) {
            is_mc = true;
        }
        i += 1;
    }
    assert(is_mc == game_process_names().contains(text::ascii_lower(name@)));
    let is_java = text::str_eq(lower.as_str(), "java") || text::str_eq(lower.as_str(), "javaw");
    if !is_mc && !is_java {
        return false;
    }
    let lc = text::chars_of(lower.as_str());
    let exe = text::chars_of(".exe");
    if is_java || text::ends_with_seq(lc.as_slice(), exe.as_slice()) {
        let cmd = text::to_lowercase(cmd_line);
        let mentions = text::str_contains(cmd.as_str(), "minecraft") || text::str_contains(cmd.as_str(), "net.minecraft")
            || text::str_contains(cmd.as_str(), "mcp") || text::str_contains(cmd.as_str(), "mdriven");
        mentions && !is_excluded_command(cmd.as_str(), user_excludes)
    } else {
        true
    }
}

/// PIDs the sweep terminates among the candidates: all but this launcher's
/// own and the one the launch lock protects.
pub open spec fn sweep_targets(pids: Seq<u32>, own: u32, protected: Option<u32>) -> Seq<u32>
    decreases pids.len(),
{
    if pids.len() == 0 {
        Seq::empty()
    } else {
        let p = pids.last();
        if p == own || protected == Some(p) {
            sweep_targets(pids.drop_last(), own, protected)
        } else {
            sweep_targets(pids.drop_last(), own, protected).push(p)
        }
    }
}

/// The candidate PIDs to terminate.
pub fn stale_targets(pids: &[u32], own_pid: u32, protected_pid: Option<u32>) -> (r: Vec<u32>)
    ensures
        r@ == sweep_targets(pids@, own_pid, protected_pid),
{
    let mut out: Vec<u32> = Vec::new();
    let mut i: usize = 0;
    assert(pids@.take(0) =~= Seq::<u32>::empty());
    while i < pids.len()
        invariant
            i <= pids@.len(),
            out@ == sweep_targets(pids@.take(i as int), own_pid, protected_pid),
        decreases pids@.len() - i,
    {
        assert(pids@.take(i + 1).drop_last() =~= pids@.take(i as int));
        let p = pids[i];
        let protected = match protected_pid {
            Some(q) => q == p,
            None => false,
        };
        if !(p == own_pid || protected) {
            out.push(p);
        }
        i += 1;
    }
    assert(pids@.take(i as int) =~= pids@);
    out
}

/// The sweep never targets this launcher or the protected game.
pub proof fn law_sweep_spares_own_and_protected(pids: Seq<u32>, own: u32, protected: Option<u32>)
    ensures
        !sweep_targets(pids, own, protected).contains(own),
        protected matches Some(p) ==> !sweep_targets(pids, own, protected).contains(p),
    decreases pids.len(),
{
    if pids.len() > 0 {
        law_sweep_spares_own_and_protected(pids.drop_last(), own, protected);
        let prev = sweep_targets(pids.drop_last(), own, protected);
        let p = pids.last();
        if !(p == own || protected == Some(p)) {
            assert forall|x: u32| prev.push(p).contains(x) implies prev.contains(x) || x == p by {
                if prev.push(p).contains(x) {
                    let k = choose|k: int| 0 <= k < prev.push(p).len() && prev.push(p)[k] == x;
                    if k < prev.len() {
                        assert(prev[k] == x);
                    }
                }
            }
        }
    }
}

} // verus!
