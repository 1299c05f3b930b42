//! Loader arguments from a version file, the JVM command line, and the
//! class path of a launch.
use vstd::prelude::*;
use crate::text;

verus! {

/// A platform rule of a version file argument or library.
#[derive(Debug, Clone)]
pub struct Rule {
    /// `allow` or `disallow`.
    pub action: String,
    /// OS the rule is limited to (`windows`, `linux`, `osx`), if any.
    pub os_name: Option<String>,
}

/// One argument entry of a version file: a plain string, or values that
/// apply only when the rules allow them.
#[derive(Debug, Clone)]
pub enum ArgumentValue {
    Plain(String),
    Ruled { rules: Vec<Rule>, values: Vec<String> },
}

/// Whether a rule's OS constraint holds on `os` (`windows`, `linux` or
/// `macos`).
pub open spec fn os_matches(os_name: Option<Seq<char>>, os: Seq<char>) -> bool {
    match os_name {
        Some(n) => if n == "windows"@ {
            os == "windows"@
        } else if n == "linux"@ {
            os == "linux"@
        } else if n == "osx"@ {
            os == "macos"@
        } else {
            false
        },
        None => true,
    }
}

pub open spec fn rule_view(r: Rule) -> (Seq<char>, Option<Seq<char>>) {
    (r.action@, r.os_name.deep_view())
}

/// Rules allow an entry unless a rule that matches `os` disallows it.
pub open spec fn rules_allow(rules: Seq<(Seq<char>, Option<Seq<char>>)>, os: Seq<char>) -> bool {
    forall|i: int| 0 <= i < rules.len() ==> !(os_matches(rules[i].1, os) && rules[i].0 == "disallow"@)
}

/// How platform rules decide, on `os` (`windows`, `linux` or `macos`):
/// a `disallow` rule without an OS constraint excludes the entry anywhere;
/// a `disallow` rule naming `windows`, `linux` or `osx` excludes it on
/// Windows, Linux or macOS respectively; `allow` rules, and `disallow`
/// rules naming another OS or an unknown one, change nothing; without any
/// `disallow` rule the entry is kept.
pub proof fn law_platform_rules(rules: Seq<(Seq<char>, Option<Seq<char>>)>, os: Seq<char>, name: Option<Seq<char>>)
    ensures
        !rules_allow(rules.push(("disallow"@, None)), os),
        os == "windows"@ ==> !rules_allow(rules.push(("disallow"@, Some("windows"@))), os),
        os == "linux"@ ==> !rules_allow(rules.push(("disallow"@, Some("linux"@))), os),
        os == "macos"@ ==> !rules_allow(rules.push(("disallow"@, Some("osx"@))), os),
        rules_allow(rules.push(("allow"@, name)), os) == rules_allow(rules, os),
        (name matches Some(n) && !(n == "windows"@ && os == "windows"@) && !(n == "linux"@ && os == "linux"@) && !(n
            == "osx"@ && os == "macos"@)) ==> rules_allow(rules.push(("disallow"@, name)), os) == rules_allow(rules, os),
        (forall|i: int| 0 <= i < rules.len() ==> rules[i].0 != "disallow"@) ==> rules_allow(rules, os),
{
    reveal_strlit("allow");
    reveal_strlit("disallow");
    reveal_strlit("windows");
    reveal_strlit("linux");
    reveal_strlit("osx");
    reveal_strlit("macos");
    assert("allow"@ != "disallow"@) by {
        assert("allow"@.len() != "disallow"@.len());
    }
    assert("osx"@ != "windows"@ && "osx"@ != "linux"@ && "linux"@ != "windows"@) by {
        assert("osx"@.len() == 3 && "windows"@.len() == 7 && "linux"@.len() == 5);
    }
    let d = ("disallow"@, None::<Seq<char>>);
    assert(rules.push(d)[rules.len() as int] == d);
    let w = ("disallow"@, Some("windows"@));
    assert(rules.push(w)[rules.len() as int] == w);
    let l = ("disallow"@, Some("linux"@));
    assert(rules.push(l)[rules.len() as int] == l);
    let m = ("disallow"@, Some("osx"@));
    assert(rules.push(m)[rules.len() as int] == m);
    let a = ("allow"@, name);
    assert forall|i: int| 0 <= i < rules.len() implies rules.push(a)[i] == rules[i] by {}
    assert(rules.push(a)[rules.len() as int] == a);
    let x = ("disallow"@, name);
    assert forall|i: int| 0 <= i < rules.len() implies rules.push(x)[i] == rules[i] by {}
    assert(rules.push(x)[rules.len() as int] == x);
}

/// Whether `rules` allow an entry on `os`.
pub fn check_rules(rules: &Vec<Rule>, os: &str) -> (r: bool)
    ensures
        r == rules_allow(rules@.map_values(|x: Rule| rule_view(x)), os@),
{
    let ghost rv = rules@.map_values(|x: Rule| rule_view(x));
    let mut i: usize = 0;
    while i < rules.len()
        invariant
            i <= rules@.len(),
            rv == rules@.map_values(|x: Rule| rule_view(x)),
            forall|k: int| 0 <= k < i ==> !(os_matches(rv[k].1, os@) && rv[k].0 == "disallow"@),
        decreases rules@.len() - i,
    {
        assert(rv[i as int] == rule_view(rules@[i as int]));
        let matches = match &rules[i].os_name {
            Some(n) => {
                let ns = n.as_str();
                if text::str_eq(ns, "windows") {
                    text::str_eq(os, "windows")
                } else if text::str_eq(ns, "linux") {
                    text::str_eq(os, "linux")
                } else if text::str_eq(ns, "osx") {
                    text::str_eq(os, "macos")
                } else {
                    false
                }
            },
            None => true,
        };
        if matches && text::str_eq(rules[i].action.as_str(), "disallow") {
            return false;
        }
        i += 1;
    }
    true
}

/// Placeholder values of the version file.
pub struct Substitution {
    pub library_directory: String,
    pub classpath_separator: String,
    pub version_name: String,
}

/// `${library_directory}`, `${classpath_separator}` and `${version_name}`
/// replaced, in that order.
pub open spec fn substituted(s: Seq<char>, lib: Seq<char>, sep: Seq<char>, ver: Seq<char>) -> Seq<char> {
    text::replace_str(
        text::replace_str(text::replace_str(s, "${library_directory}"@, lib), "${classpath_separator}"@, sep),
        "${version_name}"@,
        ver,
    )
}

fn substitute(s: &str, sub: &Substitution) -> (r: String)
    ensures
        r@ == substituted(s@, sub.library_directory@, sub.classpath_separator@, sub.version_name@),
{
    let v = text::chars_of(s);
    let p1 = text::chars_of("${library_directory}");
    let p2 = text::chars_of("${classpath_separator}");
    let p3 = text::chars_of("${version_name}");
    proof {
        reveal_strlit("${library_directory}");
        reveal_strlit("${classpath_separator}");
        reveal_strlit("${version_name}");
    }
    let lib = text::chars_of(sub.library_directory.as_str());
    let sep = text::chars_of(sub.classpath_separator.as_str());
    let ver = text::chars_of(sub.version_name.as_str());
    let a = text::replace_str_seq(v.as_slice(), p1.as_slice(), lib.as_slice());
    let b = text::replace_str_seq(a.as_slice(), p2.as_slice(), sep.as_slice());
    let c = text::replace_str_seq(b.as_slice(), p3.as_slice(), ver.as_slice());
    text::string_of(c.as_slice())
}

/// Model of an argument entry.
pub enum ArgView {
    Plain(Seq<char>),
    Ruled(Seq<(Seq<char>, Option<Seq<char>>)>, Seq<Seq<char>>),
}

pub open spec fn arg_view(a: ArgumentValue) -> ArgView {
    match a {
        ArgumentValue::Plain(s) => ArgView::Plain(s@),
        ArgumentValue::Ruled { rules, values } => ArgView::Ruled(
            rules@.map_values(|x: Rule| rule_view(x)),
            values.deep_view(),
        ),
    }
}

pub open spec fn args_view(v: Seq<ArgumentValue>) -> Seq<ArgView> {
    v.map_values(|a: ArgumentValue| arg_view(a))
}

/// The arguments that apply on `os`, substituted, in order.
pub open spec fn applied(args: Seq<ArgView>, os: Seq<char>, lib: Seq<char>, sep: Seq<char>, ver: Seq<char>) -> Seq<Seq<char>>
    decreases args.len(),
{
    if args.len() == 0 {
        Seq::empty()
    } else {
        applied(args.drop_last(), os, lib, sep, ver) + match args.last() {
            ArgView::Plain(s) => seq![substituted(s, lib, sep, ver)],
            ArgView::Ruled(rules, values) => if rules_allow(rules, os) {
                values.map_values(|s: Seq<char>| substituted(s, lib, sep, ver))
            } else {
                Seq::empty()
            },
        }
    }
}

/// The arguments of a version file section that apply on `os`, with the
/// placeholders substituted.
pub fn apply_arguments(args: &Vec<ArgumentValue>, os: &str, sub: &Substitution) -> (r: Vec<String>)
    ensures
        r.deep_view() == applied(
            args_view(args@),
            os@,
            sub.library_directory@,
            sub.classpath_separator@,
            sub.version_name@,
        ),
{
    let ghost av = args_view(args@);
    let ghost lib = sub.library_directory@;
    let ghost sep = sub.classpath_separator@;
    let ghost ver = sub.version_name@;
    let mut out: Vec<String> = Vec::new();
    let mut i: usize = 0;
    assert(av.take(0) =~= Seq::<ArgView>::empty());
    while i < args.len()
        invariant
            i <= args@.len(),
            av == args_view(args@),
            lib == sub.library_directory@,
            sep == sub.classpath_separator@,
            ver == sub.version_name@,
            out.deep_view() == applied(av.take(i as int), os@, lib, sep, ver),
        decreases args@.len() - i,
    {
        assert(av.take(i + 1).drop_last() =~= av.take(i as int));
        assert(av.take(i + 1).last() == arg_view(args@[i as int]));
        let ghost before = out.deep_view();
        match &args[i] {
            ArgumentValue::Plain(s) => {
                out.push(substitute(s.as_str(), sub));
                assert(out.deep_view() =~= before + seq![substituted(s@, lib, sep, ver)]);
            },
            ArgumentValue::Ruled { rules, values } => {
                if check_rules(rules, os) {
                    let mut j: usize = 0;
                    let ghost vv = values.deep_view();
                    while j < values.len()
                        invariant
                            j <= values@.len(),
                            vv == values.deep_view(),
                            lib == sub.library_directory@,
                            sep == sub.classpath_separator@,
                            ver == sub.version_name@,
                            out.deep_view() == before + vv.take(j as int).map_values(
                                |s: Seq<char>| substituted(s, lib, sep, ver),
                            ),
                        decreases values@.len() - j,
                    {
                        let ghost cur = out.deep_view();
                        out.push(substitute(values[j].as_str(), sub));
                        assert(vv.take(j + 1).map_values(|s: Seq<char>| substituted(s, lib, sep, ver)) =~= vv.take(
                            j as int,
                        ).map_values(|s: Seq<char>| substituted(s, lib, sep, ver)).push(substituted(vv[j as int], lib, sep, ver)));
                        assert(out.deep_view() =~= cur.push(substituted(vv[j as int], lib, sep, ver)));
                        j += 1;
                    }
                    assert(vv.take(j as int) =~= vv);
                } else {
                    assert(out.deep_view() =~= before + Seq::<Seq<char>>::empty());
                }
            },
        }
        i += 1;
    }
    assert(av.take(i as int) =~= av);
    out
}

// ---------------------------------------------------------------------------
// NeoForge ignore list
// ---------------------------------------------------------------------------

/// Index of the first argument at or after `i` that sets `-DignoreList=`.
pub open spec fn ignore_list_from(args: Seq<Seq<char>>, i: int) -> Option<int>
    decreases args.len() - i,
{
    if i < 0 || i >= args.len() {
        None
    } else if text::starts_with(args[i], "-DignoreList="@) {
        Some(i)
    } else {
        ignore_list_from(args, i + 1)
    }
}

/// Whether a comma-separated list names `neoforge-` (entries trimmed).
pub open spec fn lists_neoforge(list: Seq<char>) -> bool {
    exists|k: int| 0 <= k < text::split_char(list, ',').len() && text::trim(#[trigger] text::split_char(list, ',')[k]) == "neoforge-"@
}

/// NeoForge's JVM arguments with `neoforge-` in the boot ignore list: the
/// first `-DignoreList=` gets `,neoforge-` appended unless it lists it;
/// without one, `-DignoreList=neoforge-` is added.
pub open spec fn with_neoforge_ignored(args: Seq<Seq<char>>) -> Seq<Seq<char>> {
    match ignore_list_from(args, 0) {
        Some(i) => if lists_neoforge(args[i].skip(13)) {
            args
        } else {
            args.update(i, args[i] + ",neoforge-"@)
        },
        None => args.push("-DignoreList=neoforge-"@),
    }
}

fn lists_neoforge_exec(list: &[char]) -> (r: bool)
    ensures
        r == lists_neoforge(list@),
{
    let parts = text::split_char_seq(list, ',');
    let ghost pv = text::split_char(list@, ',');
    let target = text::chars_of("neoforge-");
    let mut k: usize = 0;
    while k < parts.len()
        invariant
            k <= parts@.len(),
            pv == text::split_char(list@, ','),
            parts@.len() == pv.len(),
            forall|m: int| 0 <= m < parts@.len() ==> #[trigger] parts@[m]@ == pv[m],
            target@ == "neoforge-"@,
            forall|m: int| 0 <= m < k ==> text::trim(#[trigger] pv[m]) != "neoforge-"@,
        decreases parts@.len() - k,
    {
        let t = text::trim_seq(parts[k].as_slice());
        if text::seq_eq(t.as_slice(), target.as_slice()) {
            assert(text::trim(pv[k as int]) == "neoforge-"@);
            return true;
        }
        k += 1;
    }
    false
}

/// Puts `neoforge-` into NeoForge's boot ignore list.
pub fn ensure_neoforge_ignored(args: &mut Vec<String>)
    ensures
        final(args).deep_view() == with_neoforge_ignored(old(args).deep_view()),
{
    let ghost av = args.deep_view();
    let prefix = text::chars_of("-DignoreList=");
    proof { reveal_strlit("-DignoreList="); }
    let mut i: usize = 0;
    while i < args.len()
        invariant
            i <= args@.len(),
            av == args.deep_view(),
            av == old(args).deep_view(),
            prefix@ == "-DignoreList="@,
            prefix@.len() == 13,
            ignore_list_from(av, 0) == ignore_list_from(av, i as int),
        decreases args@.len() - i,
    {
        assert(av[i as int] == args@[i as int]@);
        let a = text::chars_of(args[i].as_str());
        if text::starts_with_seq(a.as_slice(), prefix.as_slice()) {
            let list = text::slice_range(a.as_slice(), 13, a.len());
            assert(list@ =~= av[i as int].skip(13));
            if !lists_neoforge_exec(list.as_slice()) {
                let updated = text::concat2(args[i].as_str(), ",neoforge-");
                args.set(i, updated);
                assert(args.deep_view() =~= av.update(i as int, av[i as int] + ",neoforge-"@));
            }
            return;
        }
        i += 1;
    }
    args.push("-DignoreList=neoforge-".to_owned());
    assert(args.deep_view() =~= av.push("-DignoreList=neoforge-"@));
}

// ---------------------------------------------------------------------------
// NeoForm version and class path
// ---------------------------------------------------------------------------

/// All values of argument entries, rules ignored, in order.
pub open spec fn flat_values(args: Seq<ArgView>) -> Seq<Seq<char>>
    decreases args.len(),
{
    if args.len() == 0 {
        Seq::empty()
    } else {
        flat_values(args.drop_last()) + match args.last() {
            ArgView::Plain(s) => seq![s],
            ArgView::Ruled(_, values) => values,
        }
    }
}

/// Index of the first occurrence of `flag` in `flat` at or after `i`.
pub open spec fn position_from(flat: Seq<Seq<char>>, flag: Seq<char>, i: int) -> Option<int>
    decreases flat.len() - i,
{
    if i < 0 || i >= flat.len() {
        None
    } else if flat[i] == flag {
        Some(i)
    } else {
        position_from(flat, flag, i + 1)
    }
}

/// The value following the first `flag` in `flat`.
pub open spec fn flag_value(flat: Seq<Seq<char>>, flag: Seq<char>) -> Option<Seq<char>> {
    match position_from(flat, flag, 0) {
        Some(i) => if i + 1 < flat.len() {
            Some(flat[i + 1])
        } else {
            None
        },
        None => None,
    }
}

/// `<mcVersion>-<neoFormVersion>` from NeoForge's game arguments.
pub open spec fn neoform_version(game: Seq<ArgView>) -> Option<Seq<char>> {
    let flat = flat_values(game);
    match (flag_value(flat, "--fml.mcVersion"@), flag_value(flat, "--fml.neoFormVersion"@)) {
        (Some(mc), Some(nf)) => Some(mc + "-"@ + nf),
        _ => None,
    }
}

fn flatten(args: &Vec<ArgumentValue>) -> (r: Vec<String>)
    ensures
        r.deep_view() == flat_values(args_view(args@)),
{
    let ghost av = args_view(args@);
    let mut out: Vec<String> = Vec::new();
    let mut i: usize = 0;
    assert(av.take(0) =~= Seq::<ArgView>::empty());
    while i < args.len()
        invariant
            i <= args@.len(),
            av == args_view(args@),
            out.deep_view() == flat_values(av.take(i as int)),
        decreases args@.len() - i,
    {
        assert(av.take(i + 1).drop_last() =~= av.take(i as int));
        assert(av.take(i + 1).last() == arg_view(args@[i as int]));
        let ghost before = out.deep_view();
        match &args[i] {
            ArgumentValue::Plain(s) => {
                out.push(s.clone());
                assert(out.deep_view() =~= before + seq![s@]);
            },
            ArgumentValue::Ruled { values, .. } => {
                let mut j: usize = 0;
                while j < values.len()
                    invariant
                        j <= values@.len(),
                        out.deep_view() == before + values.deep_view().take(j as int),
                    decreases values@.len() - j,
                {
                    out.push(values[j].clone());
                    assert(before + values.deep_view().take(j + 1) =~= (before + values.deep_view().take(j as int)).push(
                        values@[j as int]@,
                    ));
                    j += 1;
                }
                assert(values.deep_view().take(j as int) =~= values.deep_view());
            },
        }
        i += 1;
    }
    assert(av.take(i as int) =~= av);
    out
}

fn find_flag_value(flat: &Vec<String>, flag: &str) -> (r: Option<String>)
    ensures
        r.deep_view() == flag_value(flat.deep_view(), flag@),
{
    let ghost fv = flat.deep_view();
    let mut i: usize = 0;
    while i < flat.len()
        invariant
            i <= flat@.len(),
            fv == flat.deep_view(),
            position_from(fv, flag@, 0) == position_from(fv, flag@, i as int),
        decreases flat@.len() - i,
    {
        assert(fv[i as int] == flat@[i as int]@);
        if text::str_eq(flat[i].as_str(), flag) {
            if i + 1 < flat.len() {
                assert(fv[i + 1] == flat@[i + 1]@);
                return Some(flat[i + 1].clone());
            }
            return None;
        }
        i += 1;
    }
    None
}

/// The NeoForm-qualified Minecraft version (`<mc>-<neoform>`) named by
/// NeoForge's `--fml.mcVersion` and `--fml.neoFormVersion` game arguments.
pub fn neoform_version_from_args(game: &Vec<ArgumentValue>) -> (r: Option<String>)
    ensures
        r.deep_view() == neoform_version(args_view(game@)),
{
    let flat = flatten(game);
    let mc = find_flag_value(&flat, "--fml.mcVersion");
    let nf = find_flag_value(&flat, "--fml.neoFormVersion");
    match (mc, nf) {
        (Some(m), Some(n)) => {
            let mut s = m;
            text::push_str(&mut s, "-");
            text::push_str(&mut s, n.as_str());
            Some(s)
        },
        _ => None,
    }
}

/// The parent of a `/`-separated path (`None` for an empty path or `/`).
pub open spec fn parent_of(p: Seq<char>) -> Option<Seq<char>> {
    if p.len() == 0 || p == "/"@ {
        None
    } else {
        match text::rsplit_once(p, '/') {
            Some(q) => if q.0.len() == 0 {
                Some("/"@)
            } else {
                Some(q.0)
            },
            None => Some(Seq::empty()),
        }
    }
}

/// The coordinate key of a class path entry: its artifact directory (the
/// parent of its version directory), or the entry itself.
pub open spec fn coordinate_key(entry: Seq<char>) -> Seq<char> {
    match parent_of(entry) {
        Some(v) => match parent_of(v) {
            Some(a) => a,
            None => entry,
        },
        None => entry,
    }
}

/// The entries whose coordinate key no earlier entry has, in order.
pub open spec fn first_per_coordinate(entries: Seq<Seq<char>>) -> Seq<Seq<char>>
    decreases entries.len(),
{
    if entries.len() == 0 {
        Seq::empty()
    } else {
        let prev = entries.drop_last();
        if exists|j: int| 0 <= j < prev.len() && coordinate_key(prev[j]) == coordinate_key(entries.last()) {
            first_per_coordinate(prev)
        } else {
            first_per_coordinate(prev).push(entries.last())
        }
    }
}

fn parent_exec(p: &[char]) -> (r: Option<Vec<char>>)
    ensures
        text::opt_view(r) == parent_of(p@),
{
    let root = text::chars_of("/");
    if p.len() == 0 || text::seq_eq(p, root.as_slice()) {
        return None;
    }
    match text::rsplit_once_seq(p, '/') {
        Some((a, _)) => {
            if a.len() == 0 {
                Some(root)
            } else {
                Some(a)
            }
        },
        None => Some(Vec::new()),
    }
}

fn key_of(entry: &str) -> (r: Vec<char>)
    ensures
        r@ == coordinate_key(entry@),
{
    let e = text::chars_of(entry);
    match parent_exec(e.as_slice()) {
        Some(v) => match parent_exec(v.as_slice()) {
            Some(a) => a,
            None => e,
        },
        None => e,
    }
}

/// Keeps the first class path entry of each Maven coordinate (so the
/// loader's version of a library, listed first, wins), in order.
pub fn dedup_by_coordinate(entries: &Vec<String>) -> (r: Vec<String>)
    ensures
        r.deep_view() == first_per_coordinate(entries.deep_view()),
{
    let ghost ev = entries.deep_view();
    let mut out: Vec<String> = Vec::new();
    let mut keys: Vec<Vec<char>> = Vec::new();
    let mut i: usize = 0;
    assert(ev.take(0) =~= Seq::<Seq<char>>::empty());
    while i < entries.len()
        invariant
            i <= entries@.len(),
            ev == entries.deep_view(),
            keys@.len() == i,
            forall|k: int| 0 <= k < i ==> (#[trigger] keys@[k])@ == coordinate_key(ev[k]),
            out.deep_view() == first_per_coordinate(ev.take(i as int)),
        decreases entries@.len() - i,
    {
        let k = key_of(entries[i].as_str());
        assert(ev[i as int] == entries@[i as int]@);
        let mut seen = false;
        let mut j: usize = 0;
        while j < keys.len()
            invariant
                j <= keys@.len(),
                keys@.len() == i,
                forall|m: int| 0 <= m < i ==> (#[trigger] keys@[m])@ == coordinate_key(ev[m]),
                seen == exists|m: int| 0 <= m < j && coordinate_key(ev[m]) == k@,
            decreases keys@.len() - j,
        {
            if text::seq_eq(keys[j].as_slice(), k.as_slice()) {
                seen = true;
            }
            j += 1;
        }
        let ghost prev = ev.take(i as int);
        assert(ev.take(i + 1).drop_last() =~= prev);
        assert(ev.take(i + 1).last() == ev[i as int]);
        assert(seen == exists|m: int| 0 <= m < prev.len() && coordinate_key(prev[m]) == coordinate_key(ev[i as int])) by {
            if seen {
                let m = choose|m: int| 0 <= m < i && coordinate_key(ev[m]) == k@;
                assert(prev[m] == ev[m]);
            }
            if exists|m: int| 0 <= m < prev.len() && coordinate_key(prev[m]) == coordinate_key(ev[i as int]) {
                let m = choose|m: int| 0 <= m < prev.len() && coordinate_key(prev[m]) == coordinate_key(ev[i as int]);
                assert(prev[m] == ev[m]);
            }
        }
        let ghost before = out.deep_view();
        if !seen {
            out.push(entries[i].clone());
            assert(out.deep_view() =~= before.push(ev[i as int]));
        }
        keys.push(k);
        i += 1;
    }
    assert(ev.take(i as int) =~= ev);
    out
}

/// No two entries kept by the coordinate dedup share a coordinate.
pub proof fn law_dedup_keeps_one_per_coordinate(entries: Seq<Seq<char>>)
    ensures
        forall|a: int, b: int|
            0 <= a < b < first_per_coordinate(entries).len() ==> coordinate_key(first_per_coordinate(entries)[a])
                != coordinate_key(first_per_coordinate(entries)[b]),
        forall|a: int|
            0 <= a < first_per_coordinate(entries).len() ==> entries.contains(#[trigger] first_per_coordinate(entries)[a]),
    decreases entries.len(),
{
    if entries.len() > 0 {
        let prev = entries.drop_last();
        law_dedup_keeps_one_per_coordinate(prev);
        let fp = first_per_coordinate(prev);
        assert forall|a: int| 0 <= a < fp.len() implies entries.contains(#[trigger] fp[a]) by {
            let j = choose|j: int| 0 <= j < prev.len() && prev[j] == fp[a];
            assert(entries[j] == prev[j]);
        }
        if !(exists|j: int| 0 <= j < prev.len() && coordinate_key(prev[j]) == coordinate_key(entries.last())) {
            let r = fp.push(entries.last());
            assert forall|a: int, b: int| 0 <= a < b < r.len() implies coordinate_key(r[a]) != coordinate_key(r[b]) by {
                if b == fp.len() {
                    let j = choose|j: int| 0 <= j < prev.len() && prev[j] == fp[a];
                    assert(coordinate_key(prev[j]) != coordinate_key(entries.last()));
                }
            }
            assert(entries[entries.len() - 1] == entries.last());
            assert forall|a: int| 0 <= a < r.len() implies entries.contains(#[trigger] r[a]) by {
                if a == fp.len() {
                    assert(entries[entries.len() - 1] == r[a]);
                }
            }
        }
    }
}

/// The class path: entries deduplicated by coordinate, then the deferred
/// jars, joined by the platform separator.
pub fn finish_classpath(entries: &Vec<String>, deferred: &Vec<String>, sep: &str) -> (r: String)
    ensures
        r@ == text::join(first_per_coordinate(entries.deep_view()) + deferred.deep_view(), sep@),
{
    let mut all = dedup_by_coordinate(entries);
    let ghost kept = all.deep_view();
    let mut i: usize = 0;
    while i < deferred.len()
        invariant
            i <= deferred@.len(),
            all.deep_view() == kept + deferred.deep_view().take(i as int),
        decreases deferred@.len() - i,
    {
        all.push(deferred[i].clone());
        assert(kept + deferred.deep_view().take(i + 1) =~= (kept + deferred.deep_view().take(i as int)).push(
            deferred@[i as int]@,
        ));
        i += 1;
    }
    assert(deferred.deep_view().take(i as int) =~= deferred.deep_view());
    let r = text::join_strings(&all, sep);
    assert(all@.map_values(|p: String| p@) =~= all.deep_view());
    r
}

/// The version a NeoForge version file id names (`neoforge-21.1.1` gives
/// `21.1.1`).
pub open spec fn neoforge_version_of(id: Seq<char>) -> Seq<char> {
    match text::strip_prefix(id, "neoforge-"@) {
        Some(v) => v,
        None => id,
    }
}

pub open spec fn mismatch_msg(expected: Seq<char>, found: Seq<char>) -> Seq<char> {
    "NeoForge version mismatch: expected "@ + expected + " but found "@ + found
        + ". Please recreate the instance with the correct version."@
}

/// The installed NeoForge version from a version file id, checked against
/// the version the instance asks for (`latest` accepts any).
pub fn installed_neoforge_version(id: &str, expected: &str) -> (r: Result<String, String>)
    ensures
        ({
            let found = neoforge_version_of(id@);
            if expected@ == "latest"@ || expected@ == found {
                r matches Ok(v) && v@ == found
            } else {
                r matches Err(e) && e@ == mismatch_msg(expected@, found)
            }
        }),
{
    let c = text::chars_of(id);
    let p = text::chars_of("neoforge-");
    let found = match text::strip_prefix_seq(c.as_slice(), p.as_slice()) {
        Some(v) => text::string_of(v.as_slice()),
        None => id.to_owned(),
    };
    if text::str_eq(expected, "latest") || text::str_eq(expected, found.as_str()) {
        Ok(found)
    } else {
        let mut m = text::concat2("NeoForge version mismatch: expected ", expected);
        text::push_str(&mut m, " but found ");
        text::push_str(&mut m, found.as_str());
        text::push_str(&mut m, ". Please recreate the instance with the correct version.");
        Err(m)
    }
}

} // verus!
