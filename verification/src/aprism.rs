//! Aprism JE loader artifacts: asset-name parsing, the stable-first choice
//! of a release artifact, and the `-javaagent` launch argument.
//!
//! Artifacts are named `Aprism-<tag>-JE-<mcver>.jar`.
use vstd::prelude::*;
use crate::text;

verus! {

pub const APRISM_OWNER: &'static str = "NDBlockConnect";
pub const APRISM_REPO: &'static str = "Aprism";
pub const APRISM_JAR_PREFIX: &'static str = "Aprism-";

#[derive(Debug, Clone)]
pub struct AprismAsset {
    pub name: String,
    pub url: String,
    pub digest: Option<String>,
    pub size: u64,
}

#[derive(Debug, Clone)]
pub struct AprismRelease {
    pub tag: String,
    pub prerelease: bool,
    pub assets: Vec<AprismAsset>,
}

/// Model of an asset: (name, url, digest, size).
pub type AssetView = (Seq<char>, Seq<char>, Option<Seq<char>>, u64);

/// Model of a release: (tag, prerelease, assets).
pub type ReleaseView = (Seq<char>, bool, Seq<AssetView>);

pub open spec fn rel_pre(r: ReleaseView) -> bool {
    r.1
}

pub open spec fn rel_assets(r: ReleaseView) -> Seq<AssetView> {
    r.2
}

impl View for AprismAsset {
    type V = AssetView;

    open spec fn view(&self) -> AssetView {
        (self.name@, self.url@, self.digest.deep_view(), self.size)
    }
}

impl View for AprismRelease {
    type V = ReleaseView;

    open spec fn view(&self) -> ReleaseView {
        (self.tag@, self.prerelease, self.assets@.map_values(|a: AprismAsset| a@))
    }
}

pub open spec fn releases_view(rs: Seq<AprismRelease>) -> Seq<ReleaseView> {
    rs.map_values(|r: AprismRelease| r@)
}

impl AprismAsset {
    /// A copy of this asset.
    pub fn copy(&self) -> (r: AprismAsset)
        ensures
            r@ == self@,
    {
        AprismAsset {
            name: self.name.clone(),
            url: self.url.clone(),
            digest: match &self.digest {
                Some(d) => Some(d.clone()),
                None => None,
            },
            size: self.size,
        }
    }
}

impl AprismRelease {
    /// A copy of this release.
    pub fn copy(&self) -> (r: AprismRelease)
        ensures
            r@ == self@,
    {
        let mut assets: Vec<AprismAsset> = Vec::new();
        let mut i: usize = 0;
        while i < self.assets.len()
            invariant
                i <= self.assets@.len(),
                assets@.len() == i,
                forall|k: int| 0 <= k < i ==> (#[trigger] assets@[k])@ == self.assets@[k]@,
            decreases self.assets@.len() - i,
        {
            assets.push(self.assets[i].copy());
            i += 1;
        }
        assert(assets@.map_values(|a: AprismAsset| a@) =~= self.assets@.map_values(|a: AprismAsset| a@));
        AprismRelease { tag: self.tag.clone(), prerelease: self.prerelease, assets }
    }
}

/// (tag, edition, mc version) of `Aprism-<tag>-<edit>-<mc>.jar`, split at
/// the last two dashes (the tag may hold dashes).
pub open spec fn parsed_name(name: Seq<char>) -> Option<(Seq<char>, Seq<char>, Seq<char>)> {
    match text::strip_suffix(name, ".jar"@) {
        Some(stem) => match text::strip_prefix(stem, APRISM_JAR_PREFIX@) {
            Some(rest) => match text::rsplit_once(rest, '-') {
                Some(p) => match text::rsplit_once(p.0, '-') {
                    Some(q) => Some((q.0, q.1, p.1)),
                    None => None,
                },
                None => None,
            },
            None => None,
        },
        None => None,
    }
}

fn name_parts(name: &str) -> (r: Option<(Vec<char>, Vec<char>, Vec<char>)>)
    ensures
        match r {
            Some(t) => parsed_name(name@) == Some((t.0@, t.1@, t.2@)),
            None => parsed_name(name@) is None,
        },
{
    let chars = text::chars_of(name);
    let jar = text::chars_of(".jar");
    let prefix = text::chars_of(APRISM_JAR_PREFIX);
    let stem = match text::strip_suffix_seq(chars.as_slice(), jar.as_slice()) {
        Some(s) => s,
        None => return None,
    };
    let rest = match text::strip_prefix_seq(stem.as_slice(), prefix.as_slice()) {
        Some(s) => s,
        None => return None,
    };
    let (te, mc) = match text::rsplit_once_seq(rest.as_slice(), '-') {
        Some(p) => p,
        None => return None,
    };
    let (tag, edit) = match text::rsplit_once_seq(te.as_slice(), '-') {
        Some(p) => p,
        None => return None,
    };
    Some((tag, edit, mc))
}

/// Parses an artifact name into (tag, edition, Minecraft version).
pub fn parse_asset_name(name: &str) -> (r: Option<(String, String, String)>)
    ensures
        match r {
            Some(t) => parsed_name(name@) == Some((t.0@, t.1@, t.2@)),
            None => parsed_name(name@) is None,
        },
{
    match name_parts(name) {
        Some(t) => Some(
            (text::string_of(t.0.as_slice()), text::string_of(t.1.as_slice()), text::string_of(t.2.as_slice())),
        ),
        None => None,
    }
}

/// An artifact applies to a Minecraft version when its name parses with a
/// non-empty tag, the `JE` edition and that version.
pub open spec fn applicable(name: Seq<char>, mc: Seq<char>) -> bool {
    match parsed_name(name) {
        Some(p) => p.1 == "JE"@ && p.2 == mc && p.0.len() != 0,
        None => false,
    }
}

fn is_applicable(asset: &AprismAsset, mc_version: &str) -> (r: bool)
    ensures
        r == applicable(asset.name@, mc_version@),
{
    match name_parts(asset.name.as_str()) {
        Some(t) => {
            let mc = text::chars_of(mc_version);
            let je = text::chars_of("JE");
            text::seq_eq(t.1.as_slice(), je.as_slice()) && text::seq_eq(t.2.as_slice(), mc.as_slice())
                && t.0.len() != 0
        },
        None => false,
    }
}

/// Index of the first asset at or after `i` that applies.
pub open spec fn first_asset_from(a: Seq<AssetView>, mc: Seq<char>, i: int) -> Option<int>
    decreases a.len() - i,
{
    if i < 0 || i >= a.len() {
        None
    } else if applicable(a[i].0, mc) {
        Some(i)
    } else {
        first_asset_from(a, mc, i + 1)
    }
}

/// (release, asset) indices of the first release at or after `i` with the
/// given pre-release flag that has an applicable asset.
pub open spec fn first_release_from(
    rs: Seq<ReleaseView>,
    pre: bool,
    mc: Seq<char>,
    i: int,
) -> Option<(int, int)>
    decreases rs.len() - i,
{
    if i < 0 || i >= rs.len() {
        None
    } else if rel_pre(rs[i]) == pre && first_asset_from(rel_assets(rs[i]), mc, 0) is Some {
        Some((i, first_asset_from(rel_assets(rs[i]), mc, 0).unwrap()))
    } else {
        first_release_from(rs, pre, mc, i + 1)
    }
}

/// The stable-first choice: the first stable release with an applicable
/// asset; failing that, when allowed, the first such pre-release.
pub open spec fn choice(rs: Seq<ReleaseView>, mc: Seq<char>, allow_pre: bool) -> Option<(int, int)> {
    match first_release_from(rs, false, mc, 0) {
        Some(p) => Some(p),
        None => if allow_pre {
            first_release_from(rs, true, mc, 0)
        } else {
            None
        },
    }
}

pub proof fn lemma_first_asset_from(a: Seq<AssetView>, mc: Seq<char>, i: int)
    requires
        0 <= i,
    ensures
        first_asset_from(a, mc, i) matches Some(j) ==> i <= j < a.len() && applicable(a[j].0, mc),
    decreases a.len() - i,
{
    if i < a.len() && !applicable(a[i].0, mc) {
        lemma_first_asset_from(a, mc, i + 1);
    }
}

pub proof fn lemma_first_release_from(rs: Seq<ReleaseView>, pre: bool, mc: Seq<char>, i: int)
    requires
        0 <= i,
    ensures
        first_release_from(rs, pre, mc, i) matches Some(p) ==> i <= p.0 < rs.len() && rel_pre(rs[p.0]) == pre
            && first_asset_from(rel_assets(rs[p.0]), mc, 0) == Some(p.1),
    decreases rs.len() - i,
{
    if i < rs.len() && !(rel_pre(rs[i]) == pre && first_asset_from(rel_assets(rs[i]), mc, 0) is Some) {
        lemma_first_release_from(rs, pre, mc, i + 1);
    }
}

fn find_asset(r: &AprismRelease, mc_version: &str) -> (res: Option<usize>)
    ensures
        match res {
            Some(j) => first_asset_from(rel_assets(r@), mc_version@, 0) == Some(j as int),
            None => first_asset_from(rel_assets(r@), mc_version@, 0) is None,
        },
{
    let ghost a = rel_assets(r@);
    let mut j: usize = 0;
    while j < r.assets.len()
        invariant
            j <= r.assets@.len(),
            a == rel_assets(r@),
            a.len() == r.assets@.len(),
            first_asset_from(a, mc_version@, 0) == first_asset_from(
                a,
                mc_version@,
                j as int,
            ),
        decreases r.assets@.len() - j,
    {
        assert(a[j as int] == r.assets@[j as int]@);
        if is_applicable(&r.assets[j], mc_version) {
            return Some(j);
        }
        j += 1;
    }
    None
}

fn find_release(rs: &[AprismRelease], pre: bool, mc_version: &str) -> (res: Option<(usize, usize)>)
    ensures
        match res {
            Some(p) => first_release_from(releases_view(rs@), pre, mc_version@, 0) == Some(
                (p.0 as int, p.1 as int),
            ),
            None => first_release_from(releases_view(rs@), pre, mc_version@, 0) is None,
        },
{
    let ghost v = releases_view(rs@);
    let mut i: usize = 0;
    while i < rs.len()
        invariant
            i <= rs@.len(),
            v == releases_view(rs@),
            first_release_from(v, pre, mc_version@, 0) == first_release_from(
                v,
                pre,
                mc_version@,
                i as int,
            ),
        decreases rs@.len() - i,
    {
        assert(v[i as int] == rs@[i as int]@);
        if rs[i].prerelease == pre {
            match find_asset(&rs[i], mc_version) {
                Some(j) => {
                    return Some((i, j));
                },
                None => {},
            }
        }
        i += 1;
    }
    None
}

/// The JE artifact for a Minecraft version: from the newest stable release
/// that has one, else (when `allow_prerelease`) from the newest such
/// pre-release; releases are listed newest first.
pub fn select_release(
    releases: &[AprismRelease],
    mc_version: &str,
    allow_prerelease: bool,
) -> (r: Option<(AprismRelease, AprismAsset)>)
    ensures
        match choice(releases_view(releases@), mc_version@, allow_prerelease) {
            Some(p) => r matches Some(ra) && ra.0@ == releases_view(releases@)[p.0] && ra.1@
                == rel_assets(releases_view(releases@)[p.0])[p.1],
            None => r is None,
        },
{
    let ghost v = releases_view(releases@);
    let found = match find_release(releases, false, mc_version) {
        Some(p) => Some(p),
        None => if allow_prerelease {
            find_release(releases, true, mc_version)
        } else {
            None
        },
    };
    match found {
        Some((i, j)) => {
            proof {
                lemma_first_release_from(v, false, mc_version@, 0);
                lemma_first_release_from(v, true, mc_version@, 0);
                lemma_first_asset_from(rel_assets(v[i as int]), mc_version@, 0);
                assert(v[i as int] == releases@[i as int]@);
            }
            let rel = releases[i].copy();
            let asset = releases[i].assets[j].copy();
            Some((rel, asset))
        },
        None => None,
    }
}


/// The `-javaagent` argument that launches the game with Aprism:
/// `-javaagent:<jar>=aprismVersion=<v>;mcEdit=JE;mcVersion=<mc>;gameRoot=<dir>`.
pub fn javaagent_arg(jar: &str, aprism_version: &str, mc_version: &str, game_root: &str) -> (r: String)
    ensures
        r@ == "-javaagent:"@ + jar@ + "=aprismVersion="@ + aprism_version@ + ";mcEdit=JE;mcVersion="@
            + mc_version@ + ";gameRoot="@ + game_root@,
{
    let mut s = "-javaagent:".to_owned();
    text::push_str(&mut s, jar);
    text::push_str(&mut s, "=aprismVersion=");
    text::push_str(&mut s, aprism_version);
    text::push_str(&mut s, ";mcEdit=JE;mcVersion=");
    text::push_str(&mut s, mc_version);
    text::push_str(&mut s, ";gameRoot=");
    text::push_str(&mut s, game_root);
    s
}

} // verus!
