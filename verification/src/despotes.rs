//! Despotes release selection: asset-name parsing, Minecraft version
//! coverage, and the stable-first choice of a release asset.
//!
//! Asset names follow `Despotes-<tag>-<loader>-<mcversion>.jar`.
use vstd::prelude::*;
use crate::text;
use crate::jar_files;

verus! {

pub const DESPOTES_OWNER: &'static str = "NDBlockConnect";
pub const DESPOTES_REPO: &'static str = "Despotes";
pub const DESPOTES_JAR_PREFIX: &'static str = "Despotes-";

/// One downloadable artifact of a release.
#[derive(Debug, Clone)]
pub struct DespotesAsset {
    pub name: String,
    pub url: String,
    /// `sha256:<hex>` digest, if advertised.
    pub digest: Option<String>,
    pub size: u64,
}

/// A release (stable or pre-release) with its assets.
#[derive(Debug, Clone)]
pub struct DespotesRelease {
    pub tag: String,
    pub prerelease: bool,
    pub html_url: String,
    pub published_at: String,
    pub assets: Vec<DespotesAsset>,
}

/// Model of an asset: (name, url, digest, size).
pub type AssetView = (Seq<char>, Seq<char>, Option<Seq<char>>, u64);

/// Model of a release: (tag, prerelease, html url, published at, assets).
pub type ReleaseView = (Seq<char>, bool, Seq<char>, Seq<char>, Seq<AssetView>);

impl View for DespotesAsset {
    type V = AssetView;

    open spec fn view(&self) -> AssetView {
        (self.name@, self.url@, self.digest.deep_view(), self.size)
    }
}

impl View for DespotesRelease {
    type V = ReleaseView;

    open spec fn view(&self) -> ReleaseView {
        (
            self.tag@,
            self.prerelease,
            self.html_url@,
            self.published_at@,
            self.assets@.map_values(|a: DespotesAsset| a@),
        )
    }
}

pub open spec fn releases_view(rs: Seq<DespotesRelease>) -> Seq<ReleaseView> {
    rs.map_values(|r: DespotesRelease| r@)
}

impl DespotesAsset {
    /// A copy of this asset.
    pub fn copy(&self) -> (r: DespotesAsset)
        ensures
            r@ == self@,
    {
        DespotesAsset {
            name: self.name.clone(),
            url: self.url.clone(),
            digest: match &self.digest {
                Some(d) => Some(d.clone()),
                None => None,
            },
            size: self.size,
        }
    }
}

impl DespotesRelease {
    /// A copy of this release.
    pub fn copy(&self) -> (r: DespotesRelease)
        ensures
            r@ == self@,
    {
        let mut assets: Vec<DespotesAsset> = Vec::new();
        let mut i: usize = 0;
        while i < self.assets.len()
            invariant
                i <= self.assets@.len(),
                assets@.len() == i,
                forall|k: int| 0 <= k < i ==> (#[trigger] assets@[k])@ == self.assets@[k]@,
            decreases self.assets@.len() - i,
        {
            assets.push(self.assets[i].copy());
            i += 1;
        }
        assert(assets@.map_values(|a: DespotesAsset| a@) =~= self.assets@.map_values(
            |a: DespotesAsset| a@,
        ));
        DespotesRelease {
            tag: self.tag.clone(),
            prerelease: self.prerelease,
            html_url: self.html_url.clone(),
            published_at: self.published_at.clone(),
            assets,
        }
    }
}

/// Loader branches Despotes is built for.
#[derive(Debug, Clone, Copy, PartialEq, Eq, Structural)]
pub enum DespotesLoader {
    Fabric,
    NeoForge,
    Forge,
    Native,
    Aprism,
}

pub open spec fn loader_slug(l: DespotesLoader) -> Seq<char> {
    match l {
        DespotesLoader::Fabric => "fabric"@,
        DespotesLoader::NeoForge => "neoforge"@,
        DespotesLoader::Forge => "forge"@,
        DespotesLoader::Native => "native"@,
        DespotesLoader::Aprism => "aprism"@,
    }
}

impl DespotesLoader {
    /// The loader's name inside asset file names.
    pub fn slug(&self) -> (r: &'static str)
        ensures
            r@ == loader_slug(*self),
    {
        match self {
            DespotesLoader::Fabric => "fabric",
            DespotesLoader::NeoForge => "neoforge",
            DespotesLoader::Forge => "forge",
            DespotesLoader::Native => "native",
            DespotesLoader::Aprism => "aprism",
        }
    }
}

/// The Despotes loader for an instance loader name (ASCII case-insensitive).
pub open spec fn loader_for(l: Seq<char>) -> Option<DespotesLoader> {
    let l = text::ascii_lower(l);
    if l == "fabric"@ {
        Some(DespotesLoader::Fabric)
    } else if l == "neoforge"@ {
        Some(DespotesLoader::NeoForge)
    } else if l == "forge"@ {
        Some(DespotesLoader::Forge)
    } else if l == "native"@ {
        Some(DespotesLoader::Native)
    } else if l == "aprism"@ {
        Some(DespotesLoader::Aprism)
    } else {
        None
    }
}

/// The Despotes loader an instance uses; `None` for loaders Despotes does
/// not support and for vanilla instances.
pub fn despotes_loader_for(instance_loader: Option<&str>) -> (r: Option<DespotesLoader>)
    ensures
        r == match instance_loader {
            Some(l) => loader_for(l@),
            None => None,
        },
{
    match instance_loader {
        Some(l) => {
            let v = text::ascii_lower_str(l);
            let lv = v.as_slice();
            let fab = text::chars_of("fabric");
            let neo = text::chars_of("neoforge");
            let forge = text::chars_of("forge");
            let native = text::chars_of("native");
            let aprism = text::chars_of("aprism");
            if text::seq_eq(lv, fab.as_slice()) {
                Some(DespotesLoader::Fabric)
            } else if text::seq_eq(lv, neo.as_slice()) {
                Some(DespotesLoader::NeoForge)
            } else if text::seq_eq(lv, forge.as_slice()) {
                Some(DespotesLoader::Forge)
            } else if text::seq_eq(lv, native.as_slice()) {
                Some(DespotesLoader::Native)
            } else if text::seq_eq(lv, aprism.as_slice()) {
                Some(DespotesLoader::Aprism)
            } else {
                None
            }
        },
        None => None,
    }
}

// ---------------------------------------------------------------------------
// Asset names
// ---------------------------------------------------------------------------

/// Components of an asset name.
#[derive(Debug, Clone, PartialEq, Eq)]
pub struct ParsedAsset {
    pub tag: String,
    pub loader: String,
    pub mc_version: String,
}

/// (tag, loader, mc version) of `Despotes-<tag>-<loader>-<mc>.jar`, split
/// at the last two dashes (the tag may hold dashes).
pub open spec fn parsed_name(name: Seq<char>) -> Option<(Seq<char>, Seq<char>, Seq<char>)> {
    match text::strip_suffix(name, ".jar"@) {
        Some(stem) => match text::strip_prefix(stem, DESPOTES_JAR_PREFIX@) {
            Some(rest) => match text::rsplit_once(rest, '-') {
                Some(p) => match text::rsplit_once(p.0, '-') {
                    Some(q) => Some((q.0, q.1, p.1)),
                    None => None,
                },
                None => None,
            },
            None => None,
        },
        None => None,
    }
}

fn name_parts(name: &str) -> (r: Option<(Vec<char>, Vec<char>, Vec<char>)>)
    ensures
        match r {
            Some(t) => parsed_name(name@) == Some((t.0@, t.1@, t.2@)),
            None => parsed_name(name@) is None,
        },
{
    let chars = text::chars_of(name);
    let jar = text::chars_of(".jar");
    let prefix = text::chars_of(DESPOTES_JAR_PREFIX);
    let stem = match text::strip_suffix_seq(chars.as_slice(), jar.as_slice()) {
        Some(s) => s,
        None => return None,
    };
    let rest = match text::strip_prefix_seq(stem.as_slice(), prefix.as_slice()) {
        Some(s) => s,
        None => return None,
    };
    let (tl, mc) = match text::rsplit_once_seq(rest.as_slice(), '-') {
        Some(p) => p,
        None => return None,
    };
    let (tag, loader) = match text::rsplit_once_seq(tl.as_slice(), '-') {
        Some(p) => p,
        None => return None,
    };
    Some((tag, loader, mc))
}

/// Parses an asset file name; `None` when it does not follow
/// `Despotes-<tag>-<loader>-<mc>.jar`.
pub fn parse_asset_name(name: &str) -> (r: Option<ParsedAsset>)
    ensures
        match r {
            Some(p) => parsed_name(name@) == Some((p.tag@, p.loader@, p.mc_version@)),
            None => parsed_name(name@) is None,
        },
{
    match name_parts(name) {
        Some(t) => Some(
            ParsedAsset {
                tag: text::string_of(t.0.as_slice()),
                loader: text::string_of(t.1.as_slice()),
                mc_version: text::string_of(t.2.as_slice()),
            },
        ),
        None => None,
    }
}

// ---------------------------------------------------------------------------
// Minecraft version coverage
// ---------------------------------------------------------------------------

/// `(major, minor, patch)` of a dotted version: major and minor must parse,
/// a missing or unparsable patch counts as 0.
pub open spec fn mc_triple(v: Seq<char>) -> Option<(u32, u32, u32)> {
    let parts = text::split_char(v, '.');
    if parts.len() < 2 {
        None
    } else {
        match (text::parse_u32(parts[0]), text::parse_u32(parts[1])) {
            (Some(a), Some(b)) => Some(
                (
                    a,
                    b,
                    if parts.len() >= 3 {
                        match text::parse_u32(parts[2]) {
                            Some(c) => c,
                            None => 0,
                        }
                    } else {
                        0
                    },
                ),
            ),
            _ => None,
        }
    }
}

/// A year-based version id (first field 24 or more).
pub open spec fn is_year(v: Seq<char>) -> bool {
    match text::parse_u32(text::split_char(v, '.')[0]) {
        Some(n) => n >= 24,
        None => false,
    }
}

/// Whether an asset built for `asset_mc` covers Minecraft `req`: exact
/// equality always; otherwise, for non-year ids on fabric, the 1.21.1 build
/// covers 1.20.x–1.21.11 and the 1.20.1 build covers 1.20.0–1.20.6.
pub open spec fn covers(req: Seq<char>, asset_mc: Seq<char>, loader: Seq<char>) -> bool {
    if req == asset_mc {
        true
    } else if is_year(req) || is_year(asset_mc) {
        false
    } else if loader == "fabric"@ {
        match (mc_triple(req), mc_triple(asset_mc)) {
            (Some(r), Some(a)) => if a == (1u32, 21u32, 1u32) {
                r.0 == 1 && r.1 >= 20 && r.1 <= 21 && r.2 <= 11
            } else if a == (1u32, 20u32, 1u32) {
                r.0 == 1 && r.1 == 20 && r.2 <= 6
            } else {
                false
            },
            _ => false,
        }
    } else {
        false
    }
}

fn parse_mc(v: &[char]) -> (r: Option<(u32, u32, u32)>)
    ensures
        r == mc_triple(v@),
{
    let parts = text::split_char_seq(v, '.');
    if parts.len() < 2 {
        return None;
    }
    let a = text::parse_u32_seq(parts[0].as_slice());
    let b = text::parse_u32_seq(parts[1].as_slice());
    match (a, b) {
        (Some(a), Some(b)) => {
            let c = if parts.len() >= 3 {
                match text::parse_u32_seq(parts[2].as_slice()) {
                    Some(c) => c,
                    None => 0,
                }
            } else {
                0
            };
            Some((a, b, c))
        },
        _ => None,
    }
}

fn is_year_version(v: &[char]) -> (r: bool)
    ensures
        r == is_year(v@),
{
    let parts = text::split_char_seq(v, '.');
    proof { text::lemma_split_char_unfold(v@, '.'); }
    match text::parse_u32_seq(parts[0].as_slice()) {
        Some(n) => n >= 24,
        None => false,
    }
}

/// Whether a build for Minecraft `asset_mc` covers Minecraft `mc_requested`.
pub fn asset_covers_mc(mc_requested: &str, asset_mc: &str, loader_slug: &str) -> (r: bool)
    ensures
        r == covers(mc_requested@, asset_mc@, loader_slug@),
{
    let req = text::chars_of(mc_requested);
    let am = text::chars_of(asset_mc);
    covers_seq(req.as_slice(), am.as_slice(), loader_slug)
}

fn covers_seq(req: &[char], am: &[char], loader_slug: &str) -> (r: bool)
    ensures
        r == covers(req@, am@, loader_slug@),
{
    if text::seq_eq(req, am) {
        return true;
    }
    if is_year_version(req) || is_year_version(am) {
        return false;
    }
    if text::str_eq(loader_slug, "fabric") {
        match (parse_mc(req), parse_mc(am)) {
            (Some(r), Some(a)) => {
                if a.0 == 1 && a.1 == 21 && a.2 == 1 {
                    r.0 == 1 && r.1 >= 20 && r.1 <= 21 && r.2 <= 11
                } else if a.0 == 1 && a.1 == 20 && a.2 == 1 {
                    r.0 == 1 && r.1 == 20 && r.2 <= 6
                } else {
                    false
                }
            },
            _ => false,
        }
    } else {
        false
    }
}

// ---------------------------------------------------------------------------
// Release selection
// ---------------------------------------------------------------------------

/// An asset applies to an instance when its name parses, its loader is the
/// instance's and its build covers the instance's Minecraft version.
pub open spec fn applicable(name: Seq<char>, loader: Seq<char>, mc: Seq<char>) -> bool {
    match parsed_name(name) {
        Some(p) => p.1 == loader && covers(mc, p.2, loader),
        None => false,
    }
}

fn is_applicable(asset: &DespotesAsset, loader_slug: &str, mc_version: &str) -> (r: bool)
    ensures
        r == applicable(asset.name@, loader_slug@, mc_version@),
{
    match name_parts(asset.name.as_str()) {
        Some(t) => {
            let ls = text::chars_of(loader_slug);
            let mc = text::chars_of(mc_version);
            text::seq_eq(t.1.as_slice(), ls.as_slice()) && covers_seq(mc.as_slice(), t.2.as_slice(), loader_slug)
        },
        None => false,
    }
}

/// Index of the first asset at or after `i` that applies.
pub open spec fn first_asset_from(a: Seq<AssetView>, l: Seq<char>, mc: Seq<char>, i: int) -> Option<int>
    decreases a.len() - i,
{
    if i < 0 || i >= a.len() {
        None
    } else if applicable(a[i].0, l, mc) {
        Some(i)
    } else {
        first_asset_from(a, l, mc, i + 1)
    }
}

/// (release, asset) indices of the first release at or after `i` with the
/// given pre-release flag that has an applicable asset.
pub open spec fn first_release_from(
    rs: Seq<ReleaseView>,
    pre: bool,
    l: Seq<char>,
    mc: Seq<char>,
    i: int,
) -> Option<(int, int)>
    decreases rs.len() - i,
{
    if i < 0 || i >= rs.len() {
        None
    } else if rs[i].1 == pre && first_asset_from(rs[i].4, l, mc, 0) is Some {
        Some((i, first_asset_from(rs[i].4, l, mc, 0).unwrap()))
    } else {
        first_release_from(rs, pre, l, mc, i + 1)
    }
}

/// The stable-first choice: the first stable release with an applicable
/// asset; failing that, when allowed, the first such pre-release.
pub open spec fn choice(rs: Seq<ReleaseView>, l: Seq<char>, mc: Seq<char>, allow_pre: bool) -> Option<(int, int)> {
    match first_release_from(rs, false, l, mc, 0) {
        Some(p) => Some(p),
        None => if allow_pre {
            first_release_from(rs, true, l, mc, 0)
        } else {
            None
        },
    }
}

pub proof fn lemma_first_asset_from(a: Seq<AssetView>, l: Seq<char>, mc: Seq<char>, i: int)
    requires
        0 <= i,
    ensures
        first_asset_from(a, l, mc, i) matches Some(j) ==> i <= j < a.len() && applicable(a[j].0, l, mc),
    decreases a.len() - i,
{
    if i < a.len() && !applicable(a[i].0, l, mc) {
        lemma_first_asset_from(a, l, mc, i + 1);
    }
}

pub proof fn lemma_first_release_from(rs: Seq<ReleaseView>, pre: bool, l: Seq<char>, mc: Seq<char>, i: int)
    requires
        0 <= i,
    ensures
        first_release_from(rs, pre, l, mc, i) matches Some(p) ==> i <= p.0 < rs.len() && rs[p.0].1 == pre
            && first_asset_from(rs[p.0].4, l, mc, 0) == Some(p.1),
    decreases rs.len() - i,
{
    if i < rs.len() && !(rs[i].1 == pre && first_asset_from(rs[i].4, l, mc, 0) is Some) {
        lemma_first_release_from(rs, pre, l, mc, i + 1);
    }
}

fn find_asset(r: &DespotesRelease, loader_slug: &str, mc_version: &str) -> (res: Option<usize>)
    ensures
        match res {
            Some(j) => first_asset_from(r@.4, loader_slug@, mc_version@, 0) == Some(j as int),
            None => first_asset_from(r@.4, loader_slug@, mc_version@, 0) is None,
        },
{
    let ghost a = r@.4;
    let mut j: usize = 0;
    while j < r.assets.len()
        invariant
            j <= r.assets@.len(),
            a == r@.4,
            a.len() == r.assets@.len(),
            first_asset_from(a, loader_slug@, mc_version@, 0) == first_asset_from(
                a,
                loader_slug@,
                mc_version@,
                j as int,
            ),
        decreases r.assets@.len() - j,
    {
        assert(a[j as int] == r.assets@[j as int]@);
        if is_applicable(&r.assets[j], loader_slug, mc_version) {
            return Some(j);
        }
        j += 1;
    }
    None
}

fn find_release(rs: &[DespotesRelease], pre: bool, loader_slug: &str, mc_version: &str) -> (res: Option<(usize, usize)>)
    ensures
        match res {
            Some(p) => first_release_from(releases_view(rs@), pre, loader_slug@, mc_version@, 0) == Some(
                (p.0 as int, p.1 as int),
            ),
            None => first_release_from(releases_view(rs@), pre, loader_slug@, mc_version@, 0) is None,
        },
{
    let ghost v = releases_view(rs@);
    let mut i: usize = 0;
    while i < rs.len()
        invariant
            i <= rs@.len(),
            v == releases_view(rs@),
            first_release_from(v, pre, loader_slug@, mc_version@, 0) == first_release_from(
                v,
                pre,
                loader_slug@,
                mc_version@,
                i as int,
            ),
        decreases rs@.len() - i,
    {
        assert(v[i as int] == rs@[i as int]@);
        if rs[i].prerelease == pre {
            match find_asset(&rs[i], loader_slug, mc_version) {
                Some(j) => {
                    return Some((i, j));
                },
                None => {},
            }
        }
        i += 1;
    }
    None
}

/// The best (release, asset) for an instance: the newest stable release
/// with an applicable asset, else (when `allow_prerelease`) the newest such
/// pre-release; releases are listed newest first. `None` when no asset
/// applies.
pub fn select_release(
    releases: &[DespotesRelease],
    loader_slug: &str,
    mc_version: &str,
    allow_prerelease: bool,
) -> (r: Option<(DespotesRelease, DespotesAsset)>)
    ensures
        match choice(releases_view(releases@), loader_slug@, mc_version@, allow_prerelease) {
            Some(p) => r matches Some(ra) && ra.0@ == releases_view(releases@)[p.0] && ra.1@
                == releases_view(releases@)[p.0].4[p.1],
            None => r is None,
        },
{
    let ghost v = releases_view(releases@);
    let found = match find_release(releases, false, loader_slug, mc_version) {
        Some(p) => Some(p),
        None => if allow_prerelease {
            find_release(releases, true, loader_slug, mc_version)
        } else {
            None
        },
    };
    match found {
        Some((i, j)) => {
            proof {
                lemma_first_release_from(v, false, loader_slug@, mc_version@, 0);
                lemma_first_release_from(v, true, loader_slug@, mc_version@, 0);
                lemma_first_asset_from(v[i as int].4, loader_slug@, mc_version@, 0);
                assert(v[i as int] == releases@[i as int]@);
            }
            let rel = releases[i].copy();
            let asset = releases[i].assets[j].copy();
            Some((rel, asset))
        },
        None => None,
    }
}

// ---------------------------------------------------------------------------
// All applicable assets
// ---------------------------------------------------------------------------

/// The applicable assets of one asset list, in order.
pub open spec fn applicable_assets(a: Seq<AssetView>, l: Seq<char>, mc: Seq<char>) -> Seq<AssetView>
    decreases a.len(),
{
    if a.len() == 0 {
        Seq::empty()
    } else {
        applicable_assets(a.drop_last(), l, mc) + if applicable(a.last().0, l, mc) {
            seq![a.last()]
        } else {
            Seq::empty()
        }
    }
}

/// (release, asset) pairs of the releases with the given pre-release flag
/// and their applicable assets, in order.
pub open spec fn pairs_of(rs: Seq<ReleaseView>, pre: bool, l: Seq<char>, mc: Seq<char>) -> Seq<(ReleaseView, AssetView)>
    decreases rs.len(),
{
    if rs.len() == 0 {
        Seq::empty()
    } else {
        let r = rs.last();
        pairs_of(rs.drop_last(), pre, l, mc) + if r.1 == pre {
            applicable_assets(r.4, l, mc).map_values(|a: AssetView| (r, a))
        } else {
            Seq::empty()
        }
    }
}

pub open spec fn pairs_view(v: Seq<(DespotesRelease, DespotesAsset)>) -> Seq<(ReleaseView, AssetView)> {
    v.map_values(|p: (DespotesRelease, DespotesAsset)| (p.0@, p.1@))
}

proof fn lemma_first_asset_prefix(a: Seq<AssetView>, l: Seq<char>, mc: Seq<char>, i: int)
    requires
        a.len() > 0,
        0 <= i,
    ensures
        first_asset_from(a.drop_last(), l, mc, i) matches Some(j) ==> first_asset_from(a, l, mc, i) == Some(j),
        first_asset_from(a.drop_last(), l, mc, i) is None ==> first_asset_from(a, l, mc, i) == if i <= a.len() - 1
            && applicable(a.last().0, l, mc) {
            Some(a.len() - 1)
        } else {
            None::<int>
        },
    decreases a.len() - i,
{
    let p = a.drop_last();
    if i < p.len() {
        assert(p[i] == a[i]);
        if !applicable(a[i].0, l, mc) {
            lemma_first_asset_prefix(a, l, mc, i + 1);
        }
    } else if i == p.len() {
        assert(a[i] == a.last());
        assert(first_asset_from(a, l, mc, i + 1) is None);
    }
}

proof fn lemma_assets_first(a: Seq<AssetView>, l: Seq<char>, mc: Seq<char>)
    ensures
        (applicable_assets(a, l, mc).len() > 0) == (first_asset_from(a, l, mc, 0) is Some),
        first_asset_from(a, l, mc, 0) matches Some(j) ==> 0 <= j < a.len() && applicable_assets(a, l, mc)[0] == a[j],
    decreases a.len(),
{
    if a.len() > 0 {
        let p = a.drop_last();
        lemma_assets_first(p, l, mc);
        lemma_first_asset_prefix(a, l, mc, 0);
        lemma_first_asset_from(p, l, mc, 0);
        let tail = if applicable(a.last().0, l, mc) {
            seq![a.last()]
        } else {
            Seq::empty()
        };
        assert(applicable_assets(a, l, mc) == applicable_assets(p, l, mc) + tail);
        match first_asset_from(p, l, mc, 0) {
            Some(j) => {
                assert(p[j] == a[j]);
                assert((applicable_assets(p, l, mc) + tail)[0] == applicable_assets(p, l, mc)[0]);
            },
            None => {
                assert(applicable_assets(p, l, mc).len() == 0);
                if applicable(a.last().0, l, mc) {
                    assert((applicable_assets(p, l, mc) + tail)[0] == tail[0]);
                }
            },
        }
    }
}

proof fn lemma_first_release_prefix(rs: Seq<ReleaseView>, pre: bool, l: Seq<char>, mc: Seq<char>, i: int)
    requires
        rs.len() > 0,
        0 <= i,
    ensures
        first_release_from(rs.drop_last(), pre, l, mc, i) matches Some(q) ==> first_release_from(rs, pre, l, mc, i)
            == Some(q),
        first_release_from(rs.drop_last(), pre, l, mc, i) is None ==> first_release_from(rs, pre, l, mc, i) == if i
            <= rs.len() - 1 && rs.last().1 == pre && first_asset_from(rs.last().4, l, mc, 0) is Some {
            Some((rs.len() - 1, first_asset_from(rs.last().4, l, mc, 0).unwrap()))
        } else {
            None::<(int, int)>
        },
    decreases rs.len() - i,
{
    let p = rs.drop_last();
    if i < p.len() {
        assert(p[i] == rs[i]);
        if !(rs[i].1 == pre && first_asset_from(rs[i].4, l, mc, 0) is Some) {
            lemma_first_release_prefix(rs, pre, l, mc, i + 1);
        }
    } else if i == p.len() {
        assert(rs[i] == rs.last());
        assert(first_release_from(rs, pre, l, mc, i + 1) is None);
    }
}

proof fn lemma_pairs_first(rs: Seq<ReleaseView>, pre: bool, l: Seq<char>, mc: Seq<char>)
    ensures
        (pairs_of(rs, pre, l, mc).len() > 0) == (first_release_from(rs, pre, l, mc, 0) is Some),
        first_release_from(rs, pre, l, mc, 0) matches Some(q) ==> 0 <= q.0 < rs.len() && 0 <= q.1 < rs[q.0].4.len()
            && pairs_of(rs, pre, l, mc)[0] == (rs[q.0], rs[q.0].4[q.1]),
    decreases rs.len(),
{
    if rs.len() > 0 {
        let p = rs.drop_last();
        let r = rs.last();
        lemma_pairs_first(p, pre, l, mc);
        lemma_first_release_prefix(rs, pre, l, mc, 0);
        lemma_assets_first(r.4, l, mc);
        let tail = if r.1 == pre {
            applicable_assets(r.4, l, mc).map_values(|a: AssetView| (r, a))
        } else {
            Seq::empty()
        };
        assert(pairs_of(rs, pre, l, mc) == pairs_of(p, pre, l, mc) + tail);
        match first_release_from(p, pre, l, mc, 0) {
            Some(q) => {
                assert(p[q.0] == rs[q.0]);
                assert((pairs_of(p, pre, l, mc) + tail)[0] == pairs_of(p, pre, l, mc)[0]);
            },
            None => {
                assert(pairs_of(p, pre, l, mc).len() == 0);
                if r.1 == pre && first_asset_from(r.4, l, mc, 0) is Some {
                    assert((pairs_of(p, pre, l, mc) + tail)[0] == tail[0]);
                    assert(rs[rs.len() - 1] == r);
                }
            },
        }
    }
}

/// The automatic choice is the first entry of the interactive list: both
/// put stable releases first, newest first; the choice is `None` exactly
/// when the list is empty.
pub proof fn law_choice_heads_the_list(rs: Seq<ReleaseView>, l: Seq<char>, mc: Seq<char>, allow_pre: bool)
    ensures
        ({
            let list = pairs_of(rs, false, l, mc) + if allow_pre {
                pairs_of(rs, true, l, mc)
            } else {
                Seq::empty()
            };
            match choice(rs, l, mc, allow_pre) {
                Some(q) => list.len() > 0 && list[0] == (rs[q.0], rs[q.0].4[q.1]),
                None => list.len() == 0,
            }
        }),
{
    lemma_pairs_first(rs, false, l, mc);
    lemma_pairs_first(rs, true, l, mc);
    let st = pairs_of(rs, false, l, mc);
    let pr = pairs_of(rs, true, l, mc);
    if st.len() > 0 {
        assert((st + pr)[0] == st[0]);
        assert((st + Seq::<(ReleaseView, AssetView)>::empty())[0] == st[0]);
    } else if allow_pre && pr.len() > 0 {
        assert((st + pr)[0] == pr[0]);
    }
}

fn push_pairs(
    out: &mut Vec<(DespotesRelease, DespotesAsset)>,
    rs: &[DespotesRelease],
    pre: bool,
    loader_slug: &str,
    mc_version: &str,
)
    ensures
        pairs_view(final(out)@) == pairs_view(old(out)@) + pairs_of(
            releases_view(rs@),
            pre,
            loader_slug@,
            mc_version@,
        ),
{
    let ghost v = releases_view(rs@);
    let ghost base = pairs_view(out@);
    let mut i: usize = 0;
    assert(v.take(0) =~= Seq::<ReleaseView>::empty());
    assert(base + pairs_of(v.take(0), pre, loader_slug@, mc_version@) =~= base);
    while i < rs.len()
        invariant
            i <= rs@.len(),
            v == releases_view(rs@),
            pairs_view(out@) == base + pairs_of(v.take(i as int), pre, loader_slug@, mc_version@),
        decreases rs@.len() - i,
    {
        let r = &rs[i];
        let ghost rv = r@;
        assert(v[i as int] == rv);
        assert(v.take(i + 1).drop_last() =~= v.take(i as int));
        assert(v.take(i + 1).last() == rv);
        let ghost before = pairs_view(out@);
        if r.prerelease == pre {
            let mut j: usize = 0;
            let ghost a = rv.4;
            assert(a.take(0) =~= Seq::<AssetView>::empty());
            assert(applicable_assets(a.take(0), loader_slug@, mc_version@).map_values(
                |x: AssetView| (rv, x),
            ) =~= Seq::<(ReleaseView, AssetView)>::empty());
            assert(before + Seq::<(ReleaseView, AssetView)>::empty() =~= before);
            while j < r.assets.len()
                invariant
                    j <= r.assets@.len(),
                    rv == r@,
                    a == rv.4,
                    a.len() == r.assets@.len(),
                    pairs_view(out@) == before + applicable_assets(a.take(j as int), loader_slug@, mc_version@).map_values(
                        |x: AssetView| (rv, x),
                    ),
                decreases r.assets@.len() - j,
            {
                assert(a.take(j + 1).drop_last() =~= a.take(j as int));
                assert(a.take(j + 1).last() == a[j as int]);
                assert(a[j as int] == r.assets@[j as int]@);
                let ghost cur = pairs_view(out@);
                if is_applicable(&r.assets[j], loader_slug, mc_version) {
                    out.push((r.copy(), r.assets[j].copy()));
                    assert(pairs_view(out@) =~= cur.push((rv, a[j as int])));
                    assert(applicable_assets(a.take(j + 1), loader_slug@, mc_version@) =~= applicable_assets(
                        a.take(j as int),
                        loader_slug@,
                        mc_version@,
                    ).push(a[j as int]));
                    assert(pairs_view(out@) =~= before + applicable_assets(
                        a.take(j + 1),
                        loader_slug@,
                        mc_version@,
                    ).map_values(|x: AssetView| (rv, x)));
                } else {
                    assert(applicable_assets(a.take(j + 1), loader_slug@, mc_version@) =~= applicable_assets(
                        a.take(j as int),
                        loader_slug@,
                        mc_version@,
                    ));
                }
                j += 1;
            }
            assert(a.take(j as int) =~= a);
            assert(pairs_view(out@) =~= base + pairs_of(v.take(i + 1), pre, loader_slug@, mc_version@));
        } else {
            assert(pairs_view(out@) =~= base + pairs_of(v.take(i + 1), pre, loader_slug@, mc_version@));
        }
        i += 1;
    }
    assert(v.take(i as int) =~= v);
}

/// Every applicable (release, asset) pair for interactive choice: stable
/// releases first, then (when allowed) pre-releases, each newest first.
pub fn list_applicable(
    releases: &[DespotesRelease],
    loader_slug: &str,
    mc_version: &str,
    allow_prerelease: bool,
) -> (r: Vec<(DespotesRelease, DespotesAsset)>)
    ensures
        pairs_view(r@) == pairs_of(releases_view(releases@), false, loader_slug@, mc_version@) + if allow_prerelease {
            pairs_of(releases_view(releases@), true, loader_slug@, mc_version@)
        } else {
            Seq::empty()
        },
{
    let mut out: Vec<(DespotesRelease, DespotesAsset)> = Vec::new();
    assert(pairs_view(out@) =~= Seq::<(ReleaseView, AssetView)>::empty());
    push_pairs(&mut out, releases, false, loader_slug, mc_version);
    let ghost stable = pairs_view(out@);
    if allow_prerelease {
        push_pairs(&mut out, releases, true, loader_slug, mc_version);
    } else {
        assert(stable + Seq::<(ReleaseView, AssetView)>::empty() =~= stable);
    }
    assert(pairs_of(releases_view(releases@), false, loader_slug@, mc_version@) =~= Seq::<
        (ReleaseView, AssetView),
    >::empty() + pairs_of(releases_view(releases@), false, loader_slug@, mc_version@));
    out
}

/// The Despotes JARs of a mods folder listing, in listing order.
pub fn installed_despotes(mods_listing: &Vec<String>) -> (r: Vec<String>)
    ensures
        jar_files::names_view(r@) == jar_files::names_view(mods_listing@).filter(
            |n: Seq<char>| jar_files::is_prefixed_jar(n, DESPOTES_JAR_PREFIX@),
        ),
{
    jar_files::prefixed_jars(mods_listing, DESPOTES_JAR_PREFIX)
}

/// Whether a mods folder listing holds a Despotes JAR.
pub fn is_installed(mods_listing: &Vec<String>) -> (r: bool)
    ensures
        r == exists|i: int| 0 <= i < mods_listing@.len() && jar_files::is_prefixed_jar(#[trigger] mods_listing@[i]@, DESPOTES_JAR_PREFIX@),
{
    let found = installed_despotes(mods_listing);
    proof {
        jar_files::lemma_listing_filter_nonempty(mods_listing@, DESPOTES_JAR_PREFIX@);
        assert(jar_files::names_view(found@).len() == found@.len());
    }
    found.len() > 0
}

} // verus!
