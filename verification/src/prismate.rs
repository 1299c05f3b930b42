//! AprismPrismate release selection: loader keys, asset-name parsing and
//! the stable-first choice of a release asset.
//!
//! Asset names follow `AprismPrismate-v<ver>-<loaderkey>-<mcver>.jar` with
//! loader keys `Fa` (Fabric), `N` (NeoForge) and `Fo` (Forge).
use vstd::prelude::*;
use crate::text;
use crate::jar_files;

verus! {

pub const PRISMATE_OWNER: &'static str = "NDBlockConnect";
pub const PRISMATE_REPO: &'static str = "AprismPrismate";
pub const PRISMATE_JAR_PREFIX: &'static str = "AprismPrismate-";

/// The Prismate loader key for an instance loader (ASCII case-insensitive).
pub open spec fn key_for(l: Seq<char>) -> Option<Seq<char>> {
    let l = text::ascii_lower(l);
    if l == "fabric"@ {
        Some("Fa"@)
    } else if l == "neoforge"@ {
        Some("N"@)
    } else if l == "forge"@ {
        Some("Fo"@)
    } else {
        None
    }
}

/// The loader key Prismate artifacts use for an instance loader.
pub fn prismate_key_for_loader(loader: &str) -> (r: Option<&'static str>)
    ensures
        match r {
            Some(k) => key_for(loader@) == Some(k@),
            None => key_for(loader@) is None,
        },
{
    let v = text::ascii_lower_str(loader);
    let lv = v.as_slice();
    let fab = text::chars_of("fabric");
    let neo = text::chars_of("neoforge");
    let forge = text::chars_of("forge");
    if text::seq_eq(lv, fab.as_slice()) {
        Some("Fa")
    } else if text::seq_eq(lv, neo.as_slice()) {
        Some("N")
    } else if text::seq_eq(lv, forge.as_slice()) {
        Some("Fo")
    } else {
        None
    }
}

#[derive(Debug, Clone)]
pub struct PrismateAsset {
    pub name: String,
    pub url: String,
    pub digest: Option<String>,
    pub size: u64,
}

#[derive(Debug, Clone)]
pub struct PrismateRelease {
    pub tag: String,
    pub prerelease: bool,
    pub html_url: String,
    pub assets: Vec<PrismateAsset>,
}

/// Model of an asset: (name, url, digest, size).
pub type AssetView = (Seq<char>, Seq<char>, Option<Seq<char>>, u64);

/// Model of a release: (tag, prerelease, html url, assets).
pub type ReleaseView = (Seq<char>, bool, Seq<char>, Seq<AssetView>);

pub open spec fn rel_pre(r: ReleaseView) -> bool {
    r.1
}

pub open spec fn rel_assets(r: ReleaseView) -> Seq<AssetView> {
    r.3
}

impl View for PrismateAsset {
    type V = AssetView;

    open spec fn view(&self) -> AssetView {
        (self.name@, self.url@, self.digest.deep_view(), self.size)
    }
}

impl View for PrismateRelease {
    type V = ReleaseView;

    open spec fn view(&self) -> ReleaseView {
        (self.tag@, self.prerelease, self.html_url@, self.assets@.map_values(|a: PrismateAsset| a@))
    }
}

pub open spec fn releases_view(rs: Seq<PrismateRelease>) -> Seq<ReleaseView> {
    rs.map_values(|r: PrismateRelease| r@)
}

impl PrismateAsset {
    /// A copy of this asset.
    pub fn copy(&self) -> (r: PrismateAsset)
        ensures
            r@ == self@,
    {
        PrismateAsset {
            name: self.name.clone(),
            url: self.url.clone(),
            digest: match &self.digest {
                Some(d) => Some(d.clone()),
                None => None,
            },
            size: self.size,
        }
    }
}

impl PrismateRelease {
    /// A copy of this release.
    pub fn copy(&self) -> (r: PrismateRelease)
        ensures
            r@ == self@,
    {
        let mut assets: Vec<PrismateAsset> = Vec::new();
        let mut i: usize = 0;
        while i < self.assets.len()
            invariant
                i <= self.assets@.len(),
                assets@.len() == i,
                forall|k: int| 0 <= k < i ==> (#[trigger] assets@[k])@ == self.assets@[k]@,
            decreases self.assets@.len() - i,
        {
            assets.push(self.assets[i].copy());
            i += 1;
        }
        assert(assets@.map_values(|a: PrismateAsset| a@) =~= self.assets@.map_values(|a: PrismateAsset| a@));
        PrismateRelease {
            tag: self.tag.clone(),
            prerelease: self.prerelease,
            html_url: self.html_url.clone(),
            assets,
        }
    }
}

/// Components of a Prismate artifact name.
#[derive(Debug, Clone, PartialEq, Eq)]
pub struct ParsedPrismateAsset {
    /// Version tag, e.g. `v26.1`.
    pub tag: String,
    /// Loader key: `Fa`, `N` or `Fo`.
    pub loader_key: String,
    /// Target Minecraft version, e.g. `26.2`.
    pub mc_version: String,
}

pub open spec fn is_key(k: Seq<char>) -> bool {
    k == "Fa"@ || k == "N"@ || k == "Fo"@
}

/// (tag, loader key, mc version) of `AprismPrismate-<tag>-<key>-<mc>.jar`,
/// split at the last two dashes; the key must be a known one.
pub open spec fn parsed_name(name: Seq<char>) -> Option<(Seq<char>, Seq<char>, Seq<char>)> {
    match text::strip_suffix(name, ".jar"@) {
        Some(stem) => match text::strip_prefix(stem, PRISMATE_JAR_PREFIX@) {
            Some(rest) => match text::rsplit_once(rest, '-') {
                Some(p) => match text::rsplit_once(p.0, '-') {
                    Some(q) => if is_key(q.1) {
                        Some((q.0, q.1, p.1))
                    } else {
                        None
                    },
                    None => None,
                },
                None => None,
            },
            None => None,
        },
        None => None,
    }
}

fn name_parts(name: &str) -> (r: Option<(Vec<char>, Vec<char>, Vec<char>)>)
    ensures
        match r {
            Some(t) => parsed_name(name@) == Some((t.0@, t.1@, t.2@)),
            None => parsed_name(name@) is None,
        },
{
    let chars = text::chars_of(name);
    let jar = text::chars_of(".jar");
    let prefix = text::chars_of(PRISMATE_JAR_PREFIX);
    let stem = match text::strip_suffix_seq(chars.as_slice(), jar.as_slice()) {
        Some(s) => s,
        None => return None,
    };
    let rest = match text::strip_prefix_seq(stem.as_slice(), prefix.as_slice()) {
        Some(s) => s,
        None => return None,
    };
    let (tk, mc) = match text::rsplit_once_seq(rest.as_slice(), '-') {
        Some(p) => p,
        None => return None,
    };
    let (tag, key) = match text::rsplit_once_seq(tk.as_slice(), '-') {
        Some(p) => p,
        None => return None,
    };
    let fa = text::chars_of("Fa");
    let n = text::chars_of("N");
    let fo = text::chars_of("Fo");
    if !(text::seq_eq(key.as_slice(), fa.as_slice()) || text::seq_eq(key.as_slice(), n.as_slice())
        || text::seq_eq(key.as_slice(), fo.as_slice())) {
        return None;
    }
    Some((tag, key, mc))
}

/// Parses a Prismate artifact name; `None` for anything else (signatures,
/// checksum lists, unknown loader keys).
pub fn parse_asset_name(name: &str) -> (r: Option<ParsedPrismateAsset>)
    ensures
        match r {
            Some(p) => parsed_name(name@) == Some((p.tag@, p.loader_key@, p.mc_version@)),
            None => parsed_name(name@) is None,
        },
{
    match name_parts(name) {
        Some(t) => Some(
            ParsedPrismateAsset {
                tag: text::string_of(t.0.as_slice()),
                loader_key: text::string_of(t.1.as_slice()),
                mc_version: text::string_of(t.2.as_slice()),
            },
        ),
        None => None,
    }
}

/// An artifact applies when its name parses with the wanted loader key and
/// Minecraft version.
pub open spec fn applicable(name: Seq<char>, key: Seq<char>, mc: Seq<char>) -> bool {
    match parsed_name(name) {
        Some(p) => p.1 == key && p.2 == mc,
        None => false,
    }
}

fn is_applicable(asset: &PrismateAsset, loader_key: &str, mc_version: &str) -> (r: bool)
    ensures
        r == applicable(asset.name@, loader_key@, mc_version@),
{
    match name_parts(asset.name.as_str()) {
        Some(t) => {
            let k = text::chars_of(loader_key);
            let mc = text::chars_of(mc_version);
            text::seq_eq(t.1.as_slice(), k.as_slice()) && text::seq_eq(t.2.as_slice(), mc.as_slice())
        },
        None => false,
    }
}

/// Index of the first asset at or after `i` that applies.
pub open spec fn first_asset_from(a: Seq<AssetView>, l: Seq<char>, mc: Seq<char>, i: int) -> Option<int>
    decreases a.len() - i,
{
    if i < 0 || i >= a.len() {
        None
    } else if applicable(a[i].0, l, mc) {
        Some(i)
    } else {
        first_asset_from(a, l, mc, i + 1)
    }
}

/// (release, asset) indices of the first release at or after `i` with the
/// given pre-release flag that has an applicable asset.
pub open spec fn first_release_from(
    rs: Seq<ReleaseView>,
    pre: bool,
    l: Seq<char>,
    mc: Seq<char>,
    i: int,
) -> Option<(int, int)>
    decreases rs.len() - i,
{
    if i < 0 || i >= rs.len() {
        None
    } else if rel_pre(rs[i]) == pre && first_asset_from(rel_assets(rs[i]), l, mc, 0) is Some {
        Some((i, first_asset_from(rel_assets(rs[i]), l, mc, 0).unwrap()))
    } else {
        first_release_from(rs, pre, l, mc, i + 1)
    }
}

/// The stable-first choice: the first stable release with an applicable
/// asset; failing that, when allowed, the first such pre-release.
pub open spec fn choice(rs: Seq<ReleaseView>, l: Seq<char>, mc: Seq<char>, allow_pre: bool) -> Option<(int, int)> {
    match first_release_from(rs, false, l, mc, 0) {
        Some(p) => Some(p),
        None => if allow_pre {
            first_release_from(rs, true, l, mc, 0)
        } else {
            None
        },
    }
}

pub proof fn lemma_first_asset_from(a: Seq<AssetView>, l: Seq<char>, mc: Seq<char>, i: int)
    requires
        0 <= i,
    ensures
        first_asset_from(a, l, mc, i) matches Some(j) ==> i <= j < a.len() && applicable(a[j].0, l, mc),
    decreases a.len() - i,
{
    if i < a.len() && !applicable(a[i].0, l, mc) {
        lemma_first_asset_from(a, l, mc, i + 1);
    }
}

pub proof fn lemma_first_release_from(rs: Seq<ReleaseView>, pre: bool, l: Seq<char>, mc: Seq<char>, i: int)
    requires
        0 <= i,
    ensures
        first_release_from(rs, pre, l, mc, i) matches Some(p) ==> i <= p.0 < rs.len() && rel_pre(rs[p.0]) == pre
            && first_asset_from(rel_assets(rs[p.0]), l, mc, 0) == Some(p.1),
    decreases rs.len() - i,
{
    if i < rs.len() && !(rel_pre(rs[i]) == pre && first_asset_from(rel_assets(rs[i]), l, mc, 0) is Some) {
        lemma_first_release_from(rs, pre, l, mc, i + 1);
    }
}

fn find_asset(r: &PrismateRelease, loader_key: &str, mc_version: &str) -> (res: Option<usize>)
    ensures
        match res {
            Some(j) => first_asset_from(rel_assets(r@), loader_key@, mc_version@, 0) == Some(j as int),
            None => first_asset_from(rel_assets(r@), loader_key@, mc_version@, 0) is None,
        },
{
    let ghost a = rel_assets(r@);
    let mut j: usize = 0;
    while j < r.assets.len()
        invariant
            j <= r.assets@.len(),
            a == rel_assets(r@),
            a.len() == r.assets@.len(),
            first_asset_from(a, loader_key@, mc_version@, 0) == first_asset_from(
                a,
                loader_key@,
                mc_version@,
                j as int,
            ),
        decreases r.assets@.len() - j,
    {
        assert(a[j as int] == r.assets@[j as int]@);
        if is_applicable(&r.assets[j], loader_key, mc_version) {
            return Some(j);
        }
        j += 1;
    }
    None
}

fn find_release(rs: &[PrismateRelease], pre: bool, loader_key: &str, mc_version: &str) -> (res: Option<(usize, usize)>)
    ensures
        match res {
            Some(p) => first_release_from(releases_view(rs@), pre, loader_key@, mc_version@, 0) == Some(
                (p.0 as int, p.1 as int),
            ),
            None => first_release_from(releases_view(rs@), pre, loader_key@, mc_version@, 0) is None,
        },
{
    let ghost v = releases_view(rs@);
    let mut i: usize = 0;
    while i < rs.len()
        invariant
            i <= rs@.len(),
            v == releases_view(rs@),
            first_release_from(v, pre, loader_key@, mc_version@, 0) == first_release_from(
                v,
                pre,
                loader_key@,
                mc_version@,
                i as int,
            ),
        decreases rs@.len() - i,
    {
        assert(v[i as int] == rs@[i as int]@);
        if rs[i].prerelease == pre {
            match find_asset(&rs[i], loader_key, mc_version) {
                Some(j) => {
                    return Some((i, j));
                },
                None => {},
            }
        }
        i += 1;
    }
    None
}

/// The best (release, artifact) for a loader key and Minecraft version:
/// the newest stable release with an applicable artifact, else (when
/// `allow_prerelease`) the newest such pre-release; releases are listed
/// newest first.
pub fn select_release(
    releases: &[PrismateRelease],
    loader_key: &str,
    mc_version: &str,
    allow_prerelease: bool,
) -> (r: Option<(PrismateRelease, PrismateAsset)>)
    ensures
        match choice(releases_view(releases@), loader_key@, mc_version@, allow_prerelease) {
            Some(p) => r matches Some(ra) && ra.0@ == releases_view(releases@)[p.0] && ra.1@
                == rel_assets(releases_view(releases@)[p.0])[p.1],
            None => r is None,
        },
{
    let ghost v = releases_view(releases@);
    let found = match find_release(releases, false, loader_key, mc_version) {
        Some(p) => Some(p),
        None => if allow_prerelease {
            find_release(releases, true, loader_key, mc_version)
        } else {
            None
        },
    };
    match found {
        Some((i, j)) => {
            proof {
                lemma_first_release_from(v, false, loader_key@, mc_version@, 0);
                lemma_first_release_from(v, true, loader_key@, mc_version@, 0);
                lemma_first_asset_from(rel_assets(v[i as int]), loader_key@, mc_version@, 0);
                assert(v[i as int] == releases@[i as int]@);
            }
            let rel = releases[i].copy();
            let asset = releases[i].assets[j].copy();
            Some((rel, asset))
        },
        None => None,
    }
}

/// The Prismate JARs of a mods folder listing, in listing order.
pub fn installed_prismate(mods_listing: &Vec<String>) -> (r: Vec<String>)
    ensures
        jar_files::names_view(r@) == jar_files::names_view(mods_listing@).filter(
            |n: Seq<char>| jar_files::is_prefixed_jar(n, PRISMATE_JAR_PREFIX@),
        ),
{
    jar_files::prefixed_jars(mods_listing, PRISMATE_JAR_PREFIX)
}

/// Whether a mods folder listing holds a Prismate JAR.
pub fn is_installed(mods_listing: &Vec<String>) -> (r: bool)
    ensures
        r == exists|i: int| 0 <= i < mods_listing@.len() && jar_files::is_prefixed_jar(#[trigger] mods_listing@[i]@, PRISMATE_JAR_PREFIX@),
{
    let found = installed_prismate(mods_listing);
    proof {
        jar_files::lemma_listing_filter_nonempty(mods_listing@, PRISMATE_JAR_PREFIX@);
        assert(jar_files::names_view(found@).len() == found@.len());
    }
    found.len() > 0
}

} // verus!
