//! AprismJDK runtimes: archive-name parsing, the choice of a release
//! archive for a platform, and resolution of an installed runtime.
//!
//! Runtime archives are named `AprismJDK-<version>-<os>-<arch>-jdk.<zip|tar.gz>`.
use vstd::prelude::*;
use crate::text;

verus! {

pub const APRISM_JDK_OWNER: &'static str = "AprismLab";
pub const APRISM_JDK_REPO: &'static str = "AprismJDK";

#[derive(Debug, Clone)]
pub struct AprismJdkAsset {
    pub name: String,
    pub url: String,
    pub size: u64,
}

#[derive(Debug, Clone)]
pub struct AprismJdkRelease {
    pub tag: String,
    pub prerelease: bool,
    pub html_url: String,
    pub assets: Vec<AprismJdkAsset>,
}

/// Components of a runtime archive name.
#[derive(Debug, Clone, PartialEq, Eq)]
pub struct ParsedJdkAsset {
    /// Version, without a leading `v`, e.g. `26.2`.
    pub version: String,
    /// `windows`, `linux` or `macos`.
    pub os: &'static str,
    /// `x64` or `aarch64`.
    pub arch: &'static str,
    /// `zip` or `tar.gz`.
    pub ext: &'static str,
}

/// Model of a parsed name: (version, os, arch, ext).
pub type ParsedView = (Seq<char>, Seq<char>, Seq<char>, Seq<char>);

impl View for ParsedJdkAsset {
    type V = ParsedView;

    open spec fn view(&self) -> ParsedView {
        (self.version@, self.os@, self.arch@, self.ext@)
    }
}

/// The canonical OS name for an OS segment (ASCII case-insensitive).
pub open spec fn os_of(s: Seq<char>) -> Option<Seq<char>> {
    let l = text::ascii_lower(s);
    if l == "windows"@ {
        Some("windows"@)
    } else if l == "linux"@ {
        Some("linux"@)
    } else if l == "macos"@ || l == "darwin"@ || l == "mac"@ {
        Some("macos"@)
    } else {
        None
    }
}

/// The canonical architecture for an arch segment (ASCII case-insensitive).
pub open spec fn arch_of(s: Seq<char>) -> Option<Seq<char>> {
    let l = text::ascii_lower(s);
    if l == "x64"@ || l == "x86_64"@ || l == "amd64"@ {
        Some("x64"@)
    } else if l == "aarch64"@ || l == "arm64"@ {
        Some("aarch64"@)
    } else {
        None
    }
}

/// The name without its `-jdk.<ext>` suffix, and the extension.
pub open spec fn stem_and_ext(name: Seq<char>) -> Option<(Seq<char>, Seq<char>)> {
    match text::strip_suffix(name, "-jdk.tar.gz"@) {
        Some(s) => Some((s, "tar.gz"@)),
        None => match text::strip_suffix(name, "-jdk.zip"@) {
            Some(s) => Some((s, "zip"@)),
            None => None,
        },
    }
}

/// The parts of a runtime archive name: the dash-separated fields of the
/// stem are `AprismJDK`, the version (which may hold dashes; leading `v`s
/// dropped), the OS and the architecture.
pub open spec fn parsed_name(name: Seq<char>) -> Option<ParsedView> {
    match stem_and_ext(name) {
        Some(se) => {
            let parts = text::split_char(se.0, '-');
            if parts.len() < 4 || parts[0] != "AprismJDK"@ {
                None
            } else {
                let version = text::trim_start_char(
                    text::join(parts.subrange(1, parts.len() - 2), "-"@),
                    'v',
                );
                match (os_of(parts[parts.len() - 2]), arch_of(parts[parts.len() - 1])) {
                    (Some(os), Some(arch)) => Some((version, os, arch, se.1)),
                    _ => None,
                }
            }
        },
        None => None,
    }
}

fn os_name(s: &[char]) -> (r: Option<&'static str>)
    ensures
        match r {
            Some(o) => os_of(s@) == Some(o@),
            None => os_of(s@) is None,
        },
{
    let l = text::ascii_lower_seq(s);
    let l = l.as_slice();
    let w = text::chars_of("windows");
    let li = text::chars_of("linux");
    let m = text::chars_of("macos");
    let d = text::chars_of("darwin");
    let mc = text::chars_of("mac");
    if text::seq_eq(l, w.as_slice()) {
        Some("windows")
    } else if text::seq_eq(l, li.as_slice()) {
        Some("linux")
    } else if text::seq_eq(l, m.as_slice()) || text::seq_eq(l, d.as_slice()) || text::seq_eq(l, mc.as_slice()) {
        Some("macos")
    } else {
        None
    }
}

fn arch_name(s: &[char]) -> (r: Option<&'static str>)
    ensures
        match r {
            Some(a) => arch_of(s@) == Some(a@),
            None => arch_of(s@) is None,
        },
{
    let l = text::ascii_lower_seq(s);
    let l = l.as_slice();
    let x = text::chars_of("x64");
    let x86 = text::chars_of("x86_64");
    let amd = text::chars_of("amd64");
    let a64 = text::chars_of("aarch64");
    let arm = text::chars_of("arm64");
    if text::seq_eq(l, x.as_slice()) || text::seq_eq(l, x86.as_slice()) || text::seq_eq(l, amd.as_slice()) {
        Some("x64")
    } else if text::seq_eq(l, a64.as_slice()) || text::seq_eq(l, arm.as_slice()) {
        Some("aarch64")
    } else {
        None
    }
}

/// Parses a runtime archive name; `None` for other assets (agent jars,
/// checksum lists) and for unknown platforms.
pub fn parse_asset_name(name: &str) -> (r: Option<ParsedJdkAsset>)
    ensures
        match r {
            Some(p) => parsed_name(name@) == Some(p@),
            None => parsed_name(name@) is None,
        },
{
    let chars = text::chars_of(name);
    let tgz = text::chars_of("-jdk.tar.gz");
    let zip = text::chars_of("-jdk.zip");
    let (stem, ext): (Vec<char>, &'static str) = match text::strip_suffix_seq(chars.as_slice(), tgz.as_slice()) {
        Some(s) => (s, "tar.gz"),
        None => match text::strip_suffix_seq(chars.as_slice(), zip.as_slice()) {
            Some(s) => (s, "zip"),
            None => return None,
        },
    };
    let parts = text::split_char_seq(stem.as_slice(), '-');
    let head = text::chars_of("AprismJDK");
    if parts.len() < 4 || !text::seq_eq(parts[0].as_slice(), head.as_slice()) {
        return None;
    }
    let n = parts.len();
    let mut mid: Vec<String> = Vec::new();
    let mut i: usize = 1;
    while i < n - 2
        invariant
            1 <= i <= n - 2,
            n == parts@.len(),
            n >= 4,
            mid@.len() == i - 1,
            forall|k: int| 0 <= k < i - 1 ==> (#[trigger] mid@[k])@ == parts@[k + 1]@,
        decreases n - 2 - i,
    {
        mid.push(text::string_of(parts[i].as_slice()));
        i += 1;
    }
    let joined = text::join_strings(&mid, "-");
    let jv = text::chars_of(joined.as_str());
    let version = text::trim_start_char_seq(jv.as_slice(), 'v');
    let ghost pv = text::split_char(stem@, '-');
    proof {
        assert(parts@.len() == pv.len());
        assert forall|k: int| 0 <= k < pv.len() implies parts@[k]@ == pv[k] by {}
        assert(mid@.map_values(|p: String| p@) =~= pv.subrange(1, pv.len() - 2));
    }
    let os = match os_name(parts[n - 2].as_slice()) {
        Some(o) => o,
        None => return None,
    };
    let arch = match arch_name(parts[n - 1].as_slice()) {
        Some(a) => a,
        None => return None,
    };
    Some(ParsedJdkAsset { version: text::string_of(version.as_slice()), os, arch, ext })
}

// ---------------------------------------------------------------------------
// Release selection
// ---------------------------------------------------------------------------

/// Model of an asset: (name, url, size).
pub type AssetView = (Seq<char>, Seq<char>, u64);

/// Model of a release: (tag, prerelease, html url, assets).
pub type ReleaseView = (Seq<char>, bool, Seq<char>, Seq<AssetView>);

impl View for AprismJdkAsset {
    type V = AssetView;

    open spec fn view(&self) -> AssetView {
        (self.name@, self.url@, self.size)
    }
}

impl View for AprismJdkRelease {
    type V = ReleaseView;

    open spec fn view(&self) -> ReleaseView {
        (self.tag@, self.prerelease, self.html_url@, self.assets@.map_values(|a: AprismJdkAsset| a@))
    }
}

pub open spec fn releases_view(rs: Seq<AprismJdkRelease>) -> Seq<ReleaseView> {
    rs.map_values(|r: AprismJdkRelease| r@)
}

/// The archive chosen among `a` for a platform: the first one built for
/// that OS and architecture, replaced by a later one only when the later
/// one has the preferred extension and the kept one has not. Gives its
/// index and parsed name.
pub open spec fn pick(a: Seq<AssetView>, os: Seq<char>, arch: Seq<char>, ext: Seq<char>) -> Option<(int, ParsedView)>
    decreases a.len(),
{
    if a.len() == 0 {
        None
    } else {
        let prev = pick(a.drop_last(), os, arch, ext);
        match parsed_name(a.last().0) {
            Some(p) => if p.1 == os && p.2 == arch {
                match prev {
                    None => Some((a.len() - 1, p)),
                    Some(b) => if p.3 == ext && b.1.3 != ext {
                        Some((a.len() - 1, p))
                    } else {
                        prev
                    },
                }
            } else {
                prev
            },
            None => prev,
        }
    }
}

/// Whether a release is a candidate: with a hint, its tag (leading `v`s
/// dropped) equals the hint (same) or holds it; without one, it is stable
/// unless pre-releases are admitted.
pub open spec fn eligible(r: ReleaseView, hint: Option<Seq<char>>, prerelease: bool) -> bool {
    match hint {
        Some(h) => {
            let hv = text::trim_start_char(h, 'v');
            text::trim_start_char(r.0, 'v') == hv || text::contains(r.0, hv)
        },
        None => !(r.1 && !prerelease),
    }
}

/// The first eligible release at or after `i` with an archive for the
/// platform: its index, and the archive's index and parsed name.
pub open spec fn choice_from(
    rs: Seq<ReleaseView>,
    hint: Option<Seq<char>>,
    prerelease: bool,
    os: Seq<char>,
    arch: Seq<char>,
    ext: Seq<char>,
    i: int,
) -> Option<(int, (int, ParsedView))>
    decreases rs.len() - i,
{
    if i < 0 || i >= rs.len() {
        None
    } else if eligible(rs[i], hint, prerelease) && pick(rs[i].3, os, arch, ext) is Some {
        Some((i, pick(rs[i].3, os, arch, ext).unwrap()))
    } else {
        choice_from(rs, hint, prerelease, os, arch, ext, i + 1)
    }
}

/// The release chosen for a platform: with a hint, the first matching
/// release with an archive for the platform; without one, the newest (first
/// listed) stable release with such an archive, and only when there is none
/// and pre-releases are wanted, the first release of any kind with one.
pub open spec fn choice(
    rs: Seq<ReleaseView>,
    hint: Option<Seq<char>>,
    prerelease: bool,
    os: Seq<char>,
    arch: Seq<char>,
    ext: Seq<char>,
) -> Option<(int, (int, ParsedView))> {
    match hint {
        Some(_) => choice_from(rs, hint, prerelease, os, arch, ext, 0),
        None => match choice_from(rs, None, false, os, arch, ext, 0) {
            Some(c) => Some(c),
            None => if prerelease {
                choice_from(rs, None, true, os, arch, ext, 0)
            } else {
                None
            },
        },
    }
}

pub proof fn lemma_pick(a: Seq<AssetView>, os: Seq<char>, arch: Seq<char>, ext: Seq<char>)
    ensures
        pick(a, os, arch, ext) matches Some(p) ==> 0 <= p.0 < a.len(),
    decreases a.len(),
{
    if a.len() > 0 {
        lemma_pick(a.drop_last(), os, arch, ext);
    }
}

pub proof fn lemma_choice_from(
    rs: Seq<ReleaseView>,
    hint: Option<Seq<char>>,
    prerelease: bool,
    os: Seq<char>,
    arch: Seq<char>,
    ext: Seq<char>,
    i: int,
)
    requires
        0 <= i,
    ensures
        choice_from(rs, hint, prerelease, os, arch, ext, i) matches Some(p) ==> i <= p.0 < rs.len()
            && pick(rs[p.0].3, os, arch, ext) == Some(p.1),
    decreases rs.len() - i,
{
    if i < rs.len() && !(eligible(rs[i], hint, prerelease) && pick(rs[i].3, os, arch, ext) is Some) {
        lemma_choice_from(rs, hint, prerelease, os, arch, ext, i + 1);
    }
}

fn pick_asset(release: &AprismJdkRelease, want_os: &str, want_arch: &str, want_ext: &str) -> (r: Option<(usize, ParsedJdkAsset)>)
    ensures
        match r {
            Some(p) => pick(release@.3, want_os@, want_arch@, want_ext@) == Some((p.0 as int, p.1@)),
            None => pick(release@.3, want_os@, want_arch@, want_ext@) is None,
        },
{
    let ghost a = release@.3;
    let mut best: Option<(usize, ParsedJdkAsset)> = None;
    let mut j: usize = 0;
    assert(a.take(0) =~= Seq::<AssetView>::empty());
    while j < release.assets.len()
        invariant
            j <= release.assets@.len(),
            a == release@.3,
            a.len() == release.assets@.len(),
            match best {
                Some(p) => pick(a.take(j as int), want_os@, want_arch@, want_ext@) == Some((p.0 as int, p.1@)),
                None => pick(a.take(j as int), want_os@, want_arch@, want_ext@) is None,
            },
        decreases release.assets@.len() - j,
    {
        assert(a.take(j + 1).drop_last() =~= a.take(j as int));
        assert(a.take(j + 1).last() == a[j as int]);
        assert(a[j as int] == release.assets@[j as int]@);
        match parse_asset_name(release.assets[j].name.as_str()) {
            Some(parsed) => {
                if text::str_eq(parsed.os, want_os) && text::str_eq(parsed.arch, want_arch) {
                    let better = match &best {
                        None => true,
                        Some(b) => text::str_eq(parsed.ext, want_ext) && !text::str_eq(b.1.ext, want_ext),
                    };
                    if better {
                        best = Some((j, parsed));
                    }
                }
            },
            None => {},
        }
        j += 1;
    }
    assert(a.take(j as int) =~= a);
    best
}

fn first_choice<'a>(
    releases: &'a [AprismJdkRelease],
    version_hint: Option<&str>,
    prerelease: bool,
    want_os: &str,
    want_arch: &str,
    want_ext: &str,
) -> (r: Option<(&'a AprismJdkRelease, (&'a AprismJdkAsset, ParsedJdkAsset))>)
    ensures
        match choice_from(
            releases_view(releases@),
            match version_hint {
                Some(h) => Some(h@),
                None => None,
            },
            prerelease,
            want_os@,
            want_arch@,
            want_ext@,
            0,
        ) {
            Some(c) => r matches Some(x) && x.0@ == releases_view(releases@)[c.0] && x.1.0@
                == releases_view(releases@)[c.0].3[c.1.0] && x.1.1@ == c.1.1,
            None => r is None,
        },
{
    let ghost v = releases_view(releases@);
    let ghost hv: Option<Seq<char>> = match version_hint {
        Some(h) => Some(h@),
        None => None,
    };
    let mut i: usize = 0;
    while i < releases.len()
        invariant
            i <= releases@.len(),
            v == releases_view(releases@),
            hv == match version_hint {
                Some(h) => Some(h@),
                None => None::<Seq<char>>,
            },
            choice_from(v, hv, prerelease, want_os@, want_arch@, want_ext@, 0) == choice_from(
                v,
                hv,
                prerelease,
                want_os@,
                want_arch@,
                want_ext@,
                i as int,
            ),
        decreases releases@.len() - i,
    {
        let rel = &releases[i];
        assert(v[i as int] == rel@);
        let ok = match version_hint {
            Some(hint) => {
                let hc = text::chars_of(hint);
                let h = text::trim_start_char_seq(hc.as_slice(), 'v');
                let tc = text::chars_of(rel.tag.as_str());
                let t = text::trim_start_char_seq(tc.as_slice(), 'v');
                text::seq_eq(t.as_slice(), h.as_slice()) || text::contains_seq(tc.as_slice(), h.as_slice())
            },
            None => !(rel.prerelease && !prerelease),
        };
        if ok {
            match pick_asset(rel, want_os, want_arch, want_ext) {
                Some((j, parsed)) => {
                    proof {
                        lemma_pick(v[i as int].3, want_os@, want_arch@, want_ext@);
                    }
                    assert(v[i as int].3[j as int] == rel.assets@[j as int]@);
                    return Some((rel, (&rel.assets[j], parsed)));
                },
                None => {},
            }
        }
        i += 1;
    }
    None
}

/// The (release, (archive, parsed name)) for a platform, preferring
/// `want_ext` archives: with a version hint, the first release whose tag
/// matches it; without one, the newest stable release, pre-releases being
/// the fallback when `prerelease` is set and no stable release applies.
pub fn select_release<'a>(
    releases: &'a [AprismJdkRelease],
    version_hint: Option<&str>,
    prerelease: bool,
    want_os: &str,
    want_arch: &str,
    want_ext: &str,
) -> (r: Option<(&'a AprismJdkRelease, (&'a AprismJdkAsset, ParsedJdkAsset))>)
    ensures
        match choice(
            releases_view(releases@),
            match version_hint {
                Some(h) => Some(h@),
                None => None,
            },
            prerelease,
            want_os@,
            want_arch@,
            want_ext@,
        ) {
            Some(c) => r matches Some(x) && x.0@ == releases_view(releases@)[c.0] && x.1.0@
                == releases_view(releases@)[c.0].3[c.1.0] && x.1.1@ == c.1.1,
            None => r is None,
        },
{
    match version_hint {
        Some(_) => first_choice(releases, version_hint, prerelease, want_os, want_arch, want_ext),
        None => match first_choice(releases, None, false, want_os, want_arch, want_ext) {
            Some(c) => Some(c),
            None => if prerelease {
                first_choice(releases, None, true, want_os, want_arch, want_ext)
            } else {
                None
            },
        },
    }
}

// ---------------------------------------------------------------------------
// Installed runtimes
// ---------------------------------------------------------------------------

/// The message for an empty runtime store.
pub open spec fn none_installed_msg() -> Seq<char> {
    "No AprismJDK installed. Run 'mdl jdk install' first."@
}

/// The tags of installed runtimes, `none` when there is none.
pub open spec fn installed_list(tags: Seq<Seq<char>>) -> Seq<char> {
    if tags.len() == 0 {
        "none"@
    } else {
        text::join(tags, ", "@)
    }
}

/// The message for a hint that matches no installed runtime.
pub open spec fn no_match_msg(hint: Seq<char>, tags: Seq<Seq<char>>) -> Seq<char> {
    "No AprismJDK matching '"@ + hint + "'. Installed: "@ + installed_list(tags) + "."@
}

/// What a hint names: `aprism@` prefixes and surrounding white space dropped.
pub open spec fn needle_of(h: Seq<char>) -> Seq<char> {
    text::trim(text::trim_start_str(h, "aprism@"@))
}

/// Whether an installed tag matches a non-empty needle: equal with leading
/// `v`s dropped on both sides, or holding the needle without its `v`s.
pub open spec fn tag_matches(tag: Seq<char>, needle: Seq<char>) -> bool {
    let n = text::trim_start_char(needle, 'v');
    text::trim_start_char(tag, 'v') == n || text::contains(tag, n)
}

/// Index of the first tag at or after `i` that matches.
pub open spec fn first_match_from(tags: Seq<Seq<char>>, needle: Seq<char>, i: int) -> Option<int>
    decreases tags.len() - i,
{
    if i < 0 || i >= tags.len() {
        None
    } else if tag_matches(tags[i], needle) {
        Some(i)
    } else {
        first_match_from(tags, needle, i + 1)
    }
}

pub open spec fn tags_of(installed: Seq<(String, String)>) -> Seq<Seq<char>> {
    installed.map_values(|p: (String, String)| p.0@)
}

/// Which installed runtime a hint resolves to (`Ok` with its index), or
/// the error message: the first (newest) runtime for no hint, an empty one
/// or `aprism` alone, else the first whose tag matches.
pub open spec fn resolution(tags: Seq<Seq<char>>, hint: Option<Seq<char>>) -> Result<int, Seq<char>> {
    let first = if tags.len() > 0 {
        Ok(0int)
    } else {
        Err(none_installed_msg())
    };
    match hint {
        None => first,
        Some(h) => if needle_of(h).len() == 0 || needle_of(h) == "aprism"@ {
            first
        } else {
            match first_match_from(tags, needle_of(h), 0) {
                Some(i) => Ok(i),
                None => Err(no_match_msg(h, tags)),
            }
        },
    }
}

pub proof fn lemma_first_match_from(tags: Seq<Seq<char>>, needle: Seq<char>, i: int)
    requires
        0 <= i,
    ensures
        first_match_from(tags, needle, i) matches Some(j) ==> i <= j < tags.len(),
    decreases tags.len() - i,
{
    if i < tags.len() && !tag_matches(tags[i], needle) {
        lemma_first_match_from(tags, needle, i + 1);
    }
}

fn tag_list(installed: &[(String, String)]) -> (r: String)
    ensures
        r@ == installed_list(tags_of(installed@)),
{
    if installed.len() == 0 {
        return "none".to_owned();
    }
    let mut tags: Vec<String> = Vec::new();
    let mut i: usize = 0;
    while i < installed.len()
        invariant
            i <= installed@.len(),
            tags@.len() == i,
            forall|k: int| 0 <= k < i ==> (#[trigger] tags@[k])@ == installed@[k].0@,
        decreases installed@.len() - i,
    {
        tags.push(installed[i].0.clone());
        i += 1;
    }
    assert(tags@.map_values(|p: String| p@) =~= tags_of(installed@));
    text::join_strings(&tags, ", ")
}

fn copy_pair(p: &(String, String)) -> (r: (String, String))
    ensures
        r.0@ == p.0@,
        r.1@ == p.1@,
{
    (p.0.clone(), p.1.clone())
}

/// Resolves an installed runtime (tag, java executable path) from a hint
/// such as `aprism`, `aprism@26.2` or `26.2`, among the installed runtimes
/// newest first.
pub fn resolve(installed: &[(String, String)], hint: Option<&str>) -> (r: Result<(String, String), String>)
    ensures
        match resolution(
            tags_of(installed@),
            match hint {
                Some(h) => Some(h@),
                None => None,
            },
        ) {
            Ok(i) => r matches Ok(p) && p.0@ == installed@[i].0@ && p.1@ == installed@[i].1@,
            Err(m) => r matches Err(e) && e@ == m,
        },
{
    let ghost tags = tags_of(installed@);
    let needle: Option<Vec<char>> = match hint {
        Some(h) => {
            let hc = text::chars_of(h);
            let pat = text::chars_of("aprism@");
            proof { reveal_strlit("aprism@"); }
            let t = text::trim_start_str_seq(hc.as_slice(), pat.as_slice());
            let n = text::trim_seq(t.as_slice());
            let bare = text::chars_of("aprism");
            if n.len() == 0 || text::seq_eq(n.as_slice(), bare.as_slice()) {
                None
            } else {
                Some(n)
            }
        },
        None => None,
    };
    match needle {
        None => {
            if installed.len() > 0 {
                Ok(copy_pair(&installed[0]))
            } else {
                Err("No AprismJDK installed. Run 'mdl jdk install' first.".to_owned())
            }
        },
        Some(n) => {
            assert(hint matches Some(h) && n@ == needle_of(h@));
            let nv = text::trim_start_char_seq(n.as_slice(), 'v');
            let mut i: usize = 0;
            while i < installed.len()
                invariant
                    i <= installed@.len(),
                    tags == tags_of(installed@),
                    n@.len() > 0,
                    n@ != "aprism"@,
                    hint matches Some(h) && n@ == needle_of(h@),
                    nv@ == text::trim_start_char(n@, 'v'),
                    first_match_from(tags, n@, 0) == first_match_from(tags, n@, i as int),
                decreases installed@.len() - i,
            {
                assert(tags[i as int] == installed@[i as int].0@);
                let tc = text::chars_of(installed[i].0.as_str());
                let t = text::trim_start_char_seq(tc.as_slice(), 'v');
                if text::seq_eq(t.as_slice(), nv.as_slice()) || text::contains_seq(tc.as_slice(), nv.as_slice()) {
                    proof { lemma_first_match_from(tags, n@, 0); }
                    return Ok(copy_pair(&installed[i]));
                }
                i += 1;
            }
            let h = match hint {
                Some(h) => h,
                None => "",
            };
            let mut msg = "No AprismJDK matching '".to_owned();
            text::push_str(&mut msg, h);
            text::push_str(&mut msg, "'. Installed: ");
            let list = tag_list(installed);
            text::push_str(&mut msg, list.as_str());
            text::push_str(&mut msg, ".");
            Err(msg)
        },
    }
}

/// The (os, arch) names of runtime archives for a target, from Rust's
/// `target_os` and `target_arch` names; `None` for targets without builds.
pub fn current_platform(target_os: &str, target_arch: &str) -> (r: Option<(&'static str, &'static str)>)
    ensures
        r == if (target_os@ == "windows"@ || target_os@ == "linux"@ || target_os@ == "macos"@) && (target_arch@
            == "x86_64"@ || target_arch@ == "aarch64"@) {
            Some(
                (
                    if target_os@ == "windows"@ {
                        "windows"
                    } else if target_os@ == "linux"@ {
                        "linux"
                    } else {
                        "macos"
                    },
                    if target_arch@ == "x86_64"@ {
                        "x64"
                    } else {
                        "aarch64"
                    },
                ),
            )
        } else {
            None
        },
{
    let os: &'static str = if text::str_eq(target_os, "windows") {
        "windows"
    } else if text::str_eq(target_os, "linux") {
        "linux"
    } else if text::str_eq(target_os, "macos") {
        "macos"
    } else {
        return None;
    };
    let arch: &'static str = if text::str_eq(target_arch, "x86_64") {
        "x64"
    } else if text::str_eq(target_arch, "aarch64") {
        "aarch64"
    } else {
        return None;
    };
    Some((os, arch))
}

} // verus!
