//! AprismRefract extension selection: loader keys, artifact-name parsing and
//! the stable-first choice of a release artifact.
//!
//! Artifacts are named
//! `<Loader>-Support-A<aprismRange>-<Key><loaderRange>-<Edit>-<mc>.aep`.
use vstd::prelude::*;
use crate::text;

verus! {

pub const REFRACT_OWNER: &'static str = "NDBlockConnect";
pub const REFRACT_REPO: &'static str = "AprismRefract";

/// The extension loader key for an instance loader (ASCII case-insensitive).
pub open spec fn key_for(l: Seq<char>) -> Option<Seq<char>> {
    let l = text::ascii_lower(l);
    if l == "fabric"@ {
        Some("Fa"@)
    } else if l == "forge"@ {
        Some("Fo"@)
    } else if l == "neoforge"@ {
        Some("N"@)
    } else if l == "quilt"@ {
        Some("Q"@)
    } else if l == "liteloader"@ {
        Some("L"@)
    } else {
        None
    }
}

/// The loader key extension artifacts use for an instance loader.
pub fn refract_key_for_loader(loader: &str) -> (r: Option<&'static str>)
    ensures
        match r {
            Some(k) => key_for(loader@) == Some(k@),
            None => key_for(loader@) is None,
        },
{
    let v = text::ascii_lower_str(loader);
    let lv = v.as_slice();
    let fab = text::chars_of("fabric");
    let forge = text::chars_of("forge");
    let neo = text::chars_of("neoforge");
    let quilt = text::chars_of("quilt");
    let lite = text::chars_of("liteloader");
    if text::seq_eq(lv, fab.as_slice()) {
        Some("Fa")
    } else if text::seq_eq(lv, forge.as_slice()) {
        Some("Fo")
    } else if text::seq_eq(lv, neo.as_slice()) {
        Some("N")
    } else if text::seq_eq(lv, quilt.as_slice()) {
        Some("Q")
    } else if text::seq_eq(lv, lite.as_slice()) {
        Some("L")
    } else {
        None
    }
}

#[derive(Debug, Clone)]
pub struct RefractAsset {
    pub name: String,
    pub url: String,
    pub digest: Option<String>,
    pub size: u64,
}

#[derive(Debug, Clone)]
pub struct RefractRelease {
    pub tag: String,
    pub prerelease: bool,
    pub html_url: String,
    pub assets: Vec<RefractAsset>,
}

/// Model of an asset: (name, url, digest, size).
pub type AssetView = (Seq<char>, Seq<char>, Option<Seq<char>>, u64);

/// Model of a release: (tag, prerelease, html url, assets).
pub type ReleaseView = (Seq<char>, bool, Seq<char>, Seq<AssetView>);

pub open spec fn rel_pre(r: ReleaseView) -> bool {
    r.1
}

pub open spec fn rel_assets(r: ReleaseView) -> Seq<AssetView> {
    r.3
}

impl View for RefractAsset {
    type V = AssetView;

    open spec fn view(&self) -> AssetView {
        (self.name@, self.url@, self.digest.deep_view(), self.size)
    }
}

impl View for RefractRelease {
    type V = ReleaseView;

    open spec fn view(&self) -> ReleaseView {
        (self.tag@, self.prerelease, self.html_url@, self.assets@.map_values(|a: RefractAsset| a@))
    }
}

pub open spec fn releases_view(rs: Seq<RefractRelease>) -> Seq<ReleaseView> {
    rs.map_values(|r: RefractRelease| r@)
}

impl RefractAsset {
    /// A copy of this asset.
    pub fn copy(&self) -> (r: RefractAsset)
        ensures
            r@ == self@,
    {
        RefractAsset {
            name: self.name.clone(),
            url: self.url.clone(),
            digest: match &self.digest {
                Some(d) => Some(d.clone()),
                None => None,
            },
            size: self.size,
        }
    }
}

impl RefractRelease {
    /// A copy of this release.
    pub fn copy(&self) -> (r: RefractRelease)
        ensures
            r@ == self@,
    {
        let mut assets: Vec<RefractAsset> = Vec::new();
        let mut i: usize = 0;
        while i < self.assets.len()
            invariant
                i <= self.assets@.len(),
                assets@.len() == i,
                forall|k: int| 0 <= k < i ==> (#[trigger] assets@[k])@ == self.assets@[k]@,
            decreases self.assets@.len() - i,
        {
            assets.push(self.assets[i].copy());
            i += 1;
        }
        assert(assets@.map_values(|a: RefractAsset| a@) =~= self.assets@.map_values(|a: RefractAsset| a@));
        RefractRelease {
            tag: self.tag.clone(),
            prerelease: self.prerelease,
            html_url: self.html_url.clone(),
            assets,
        }
    }
}

/// Components of an extension artifact name.
#[derive(Debug, Clone, PartialEq, Eq)]
pub struct ParsedRefractAsset {
    /// Loader key: `Fa`, `Fo`, `N`, `Q` or `L`.
    pub loader_key: String,
    /// Sanitised Aprism version range, e.g. `.26.0.27.0.`.
    pub aprism_range: String,
    /// Sanitised loader version range, e.g. `.0.16.0.17.`.
    pub loader_range: String,
    /// Edition segment (`JE`).
    pub edit: String,
    /// Target Minecraft version, e.g. `26.2`.
    pub mc_version: String,
}

/// The loader key a key-and-range segment starts with (keys tried in the
/// order `Fa`, `Fo`, `N`, `L`, `Q`) and the range after it.
pub open spec fn key_split(s: Seq<char>) -> Option<(Seq<char>, Seq<char>)> {
    match text::strip_prefix(s, "Fa"@) {
        Some(r) => Some(("Fa"@, r)),
        None => match text::strip_prefix(s, "Fo"@) {
            Some(r) => Some(("Fo"@, r)),
            None => match text::strip_prefix(s, "N"@) {
                Some(r) => Some(("N"@, r)),
                None => match text::strip_prefix(s, "L"@) {
                    Some(r) => Some(("L"@, r)),
                    None => match text::strip_prefix(s, "Q"@) {
                        Some(r) => Some(("Q"@, r)),
                        None => None,
                    },
                },
            },
        },
    }
}

/// A purpose segment: `Support` or anything ending in `-Support`.
pub open spec fn is_support(p: Seq<char>) -> bool {
    text::ends_with(p, "-Support"@) || p == "Support"@
}

/// Model of a parsed name: (key, aprism range, loader range, edit, mc).
pub type ParsedView = (Seq<char>, Seq<char>, Seq<char>, Seq<char>, Seq<char>);

/// The parts of an extension artifact name, each dash split taken from the
/// right.
pub open spec fn parsed_name(name: Seq<char>) -> Option<ParsedView> {
    match text::strip_suffix(name, ".aep"@) {
        Some(stem) => match text::rsplit_once(stem, '-') {
            Some(a) => match text::rsplit_once(a.0, '-') {
                Some(b) => match text::rsplit_once(b.0, '-') {
                    Some(c) => match text::rsplit_once(c.0, '-') {
                        Some(d) => if !is_support(d.0) {
                            None
                        } else {
                            match text::strip_prefix(d.1, "A"@) {
                                Some(range) => match key_split(c.1) {
                                    Some(k) => Some((k.0, range, k.1, b.1, a.1)),
                                    None => None,
                                },
                                None => None,
                            }
                        },
                        None => None,
                    },
                    None => None,
                },
                None => None,
            },
            None => None,
        },
        None => None,
    }
}

fn try_key(s: &[char], key: &'static str) -> (r: Option<(&'static str, Vec<char>)>)
    ensures
        match r {
            Some(p) => p.0@ == key@ && text::strip_prefix(s@, key@) == Some(p.1@),
            None => text::strip_prefix(s@, key@) is None,
        },
{
    let k = text::chars_of(key);
    match text::strip_prefix_seq(s, k.as_slice()) {
        Some(rest) => Some((key, rest)),
        None => None,
    }
}

fn split_key_and_range(s: &[char]) -> (r: Option<(&'static str, Vec<char>)>)
    ensures
        match r {
            Some(p) => key_split(s@) == Some((p.0@, p.1@)),
            None => key_split(s@) is None,
        },
{
    match try_key(s, "Fa") {
        Some(p) => return Some(p),
        None => {},
    }
    match try_key(s, "Fo") {
        Some(p) => return Some(p),
        None => {},
    }
    match try_key(s, "N") {
        Some(p) => return Some(p),
        None => {},
    }
    match try_key(s, "L") {
        Some(p) => return Some(p),
        None => {},
    }
    try_key(s, "Q")
}

fn name_parts(name: &str) -> (r: Option<(&'static str, Vec<char>, Vec<char>, Vec<char>, Vec<char>)>)
    ensures
        match r {
            Some(t) => parsed_name(name@) == Some((t.0@, t.1@, t.2@, t.3@, t.4@)),
            None => parsed_name(name@) is None,
        },
{
    let chars = text::chars_of(name);
    let aep = text::chars_of(".aep");
    let stem = match text::strip_suffix_seq(chars.as_slice(), aep.as_slice()) {
        Some(s) => s,
        None => return None,
    };
    let (rest, mc) = match text::rsplit_once_seq(stem.as_slice(), '-') {
        Some(p) => p,
        None => return None,
    };
    let (rest, edit) = match text::rsplit_once_seq(rest.as_slice(), '-') {
        Some(p) => p,
        None => return None,
    };
    let (rest, key_and_range) = match text::rsplit_once_seq(rest.as_slice(), '-') {
        Some(p) => p,
        None => return None,
    };
    let (purpose, aprism_part) = match text::rsplit_once_seq(rest.as_slice(), '-') {
        Some(p) => p,
        None => return None,
    };
    let sup = text::chars_of("-Support");
    let bare = text::chars_of("Support");
    if !text::ends_with_seq(purpose.as_slice(), sup.as_slice()) && !text::seq_eq(purpose.as_slice(), bare.as_slice()) {
        return None;
    }
    let a = text::chars_of("A");
    let range = match text::strip_prefix_seq(aprism_part.as_slice(), a.as_slice()) {
        Some(r) => r,
        None => return None,
    };
    let (key, loader_range) = match split_key_and_range(key_and_range.as_slice()) {
        Some(p) => p,
        None => return None,
    };
    Some((key, range, loader_range, edit, mc))
}

/// Parses an extension artifact name; `None` for anything else.
pub fn parse_asset_name(name: &str) -> (r: Option<ParsedRefractAsset>)
    ensures
        match r {
            Some(p) => parsed_name(name@) == Some(
                (p.loader_key@, p.aprism_range@, p.loader_range@, p.edit@, p.mc_version@),
            ),
            None => parsed_name(name@) is None,
        },
{
    match name_parts(name) {
        Some(t) => Some(
            ParsedRefractAsset {
                loader_key: t.0.to_owned(),
                aprism_range: text::string_of(t.1.as_slice()),
                loader_range: text::string_of(t.2.as_slice()),
                edit: text::string_of(t.3.as_slice()),
                mc_version: text::string_of(t.4.as_slice()),
            },
        ),
        None => None,
    }
}

/// An artifact is chosen for a loader key and Minecraft version when its
/// name parses with that key, the `JE` edition, and that Minecraft version
/// or none.
pub open spec fn applicable(name: Seq<char>, key: Seq<char>, mc: Seq<char>) -> bool {
    match parsed_name(name) {
        Some(p) => p.0 == key && p.3 == "JE"@ && (p.4 == mc || p.4.len() == 0),
        None => false,
    }
}

/// An artifact is listed for a loader key and Minecraft version when its
/// name parses with that key, the `JE` edition and exactly that version.
pub open spec fn listed(name: Seq<char>, key: Seq<char>, mc: Seq<char>) -> bool {
    match parsed_name(name) {
        Some(p) => p.0 == key && p.3 == "JE"@ && p.4 == mc,
        None => false,
    }
}

fn is_applicable(asset: &RefractAsset, loader_key: &str, mc_version: &str) -> (r: bool)
    ensures
        r == applicable(asset.name@, loader_key@, mc_version@),
{
    match name_parts(asset.name.as_str()) {
        Some(t) => {
            let mc = text::chars_of(mc_version);
            let je = text::chars_of("JE");
            text::str_eq(t.0, loader_key) && text::seq_eq(t.3.as_slice(), je.as_slice()) && (text::seq_eq(
                t.4.as_slice(),
                mc.as_slice(),
            ) || t.4.len() == 0)
        },
        None => false,
    }
}

fn is_listed(asset: &RefractAsset, loader_key: &str, mc_version: &str) -> (r: bool)
    ensures
        r == listed(asset.name@, loader_key@, mc_version@),
{
    match name_parts(asset.name.as_str()) {
        Some(t) => {
            let mc = text::chars_of(mc_version);
            let je = text::chars_of("JE");
            text::str_eq(t.0, loader_key) && text::seq_eq(t.3.as_slice(), je.as_slice()) && text::seq_eq(
                t.4.as_slice(),
                mc.as_slice(),
            )
        },
        None => false,
    }
}

/// Index of the first asset at or after `i` that applies.
pub open spec fn first_asset_from(a: Seq<AssetView>, l: Seq<char>, mc: Seq<char>, i: int) -> Option<int>
    decreases a.len() - i,
{
    if i < 0 || i >= a.len() {
        None
    } else if applicable(a[i].0, l, mc) {
        Some(i)
    } else {
        first_asset_from(a, l, mc, i + 1)
    }
}

/// (release, asset) indices of the first release at or after `i` with the
/// given pre-release flag that has an applicable asset.
pub open spec fn first_release_from(
    rs: Seq<ReleaseView>,
    pre: bool,
    l: Seq<char>,
    mc: Seq<char>,
    i: int,
) -> Option<(int, int)>
    decreases rs.len() - i,
{
    if i < 0 || i >= rs.len() {
        None
    } else if rel_pre(rs[i]) == pre && first_asset_from(rel_assets(rs[i]), l, mc, 0) is Some {
        Some((i, first_asset_from(rel_assets(rs[i]), l, mc, 0).unwrap()))
    } else {
        first_release_from(rs, pre, l, mc, i + 1)
    }
}

/// The stable-first choice: the first stable release with an applicable
/// asset; failing that, when allowed, the first such pre-release.
pub open spec fn choice(rs: Seq<ReleaseView>, l: Seq<char>, mc: Seq<char>, allow_pre: bool) -> Option<(int, int)> {
    match first_release_from(rs, false, l, mc, 0) {
        Some(p) => Some(p),
        None => if allow_pre {
            first_release_from(rs, true, l, mc, 0)
        } else {
            None
        },
    }
}

pub proof fn lemma_first_asset_from(a: Seq<AssetView>, l: Seq<char>, mc: Seq<char>, i: int)
    requires
        0 <= i,
    ensures
        first_asset_from(a, l, mc, i) matches Some(j) ==> i <= j < a.len() && applicable(a[j].0, l, mc),
    decreases a.len() - i,
{
    if i < a.len() && !applicable(a[i].0, l, mc) {
        lemma_first_asset_from(a, l, mc, i + 1);
    }
}

pub proof fn lemma_first_release_from(rs: Seq<ReleaseView>, pre: bool, l: Seq<char>, mc: Seq<char>, i: int)
    requires
        0 <= i,
    ensures
        first_release_from(rs, pre, l, mc, i) matches Some(p) ==> i <= p.0 < rs.len() && rel_pre(rs[p.0]) == pre
            && first_asset_from(rel_assets(rs[p.0]), l, mc, 0) == Some(p.1),
    decreases rs.len() - i,
{
    if i < rs.len() && !(rel_pre(rs[i]) == pre && first_asset_from(rel_assets(rs[i]), l, mc, 0) is Some) {
        lemma_first_release_from(rs, pre, l, mc, i + 1);
    }
}

fn find_asset(r: &RefractRelease, loader_key: &str, mc_version: &str) -> (res: Option<usize>)
    ensures
        match res {
            Some(j) => first_asset_from(rel_assets(r@), loader_key@, mc_version@, 0) == Some(j as int),
            None => first_asset_from(rel_assets(r@), loader_key@, mc_version@, 0) is None,
        },
{
    let ghost a = rel_assets(r@);
    let mut j: usize = 0;
    while j < r.assets.len()
        invariant
            j <= r.assets@.len(),
            a == rel_assets(r@),
            a.len() == r.assets@.len(),
            first_asset_from(a, loader_key@, mc_version@, 0) == first_asset_from(
                a,
                loader_key@,
                mc_version@,
                j as int,
            ),
        decreases r.assets@.len() - j,
    {
        assert(a[j as int] == r.assets@[j as int]@);
        if is_applicable(&r.assets[j], loader_key, mc_version) {
            return Some(j);
        }
        j += 1;
    }
    None
}

fn find_release(rs: &[RefractRelease], pre: bool, loader_key: &str, mc_version: &str) -> (res: Option<(usize, usize)>)
    ensures
        match res {
            Some(p) => first_release_from(releases_view(rs@), pre, loader_key@, mc_version@, 0) == Some(
                (p.0 as int, p.1 as int),
            ),
            None => first_release_from(releases_view(rs@), pre, loader_key@, mc_version@, 0) is None,
        },
{
    let ghost v = releases_view(rs@);
    let mut i: usize = 0;
    while i < rs.len()
        invariant
            i <= rs@.len(),
            v == releases_view(rs@),
            first_release_from(v, pre, loader_key@, mc_version@, 0) == first_release_from(
                v,
                pre,
                loader_key@,
                mc_version@,
                i as int,
            ),
        decreases rs@.len() - i,
    {
        assert(v[i as int] == rs@[i as int]@);
        if rs[i].prerelease == pre {
            match find_asset(&rs[i], loader_key, mc_version) {
                Some(j) => {
                    return Some((i, j));
                },
                None => {},
            }
        }
        i += 1;
    }
    None
}

/// The best (release, artifact) for a loader key and Minecraft version:
/// the newest stable release with an applicable artifact, else (when
/// `allow_prerelease`) the newest such pre-release; releases are listed
/// newest first.
pub fn select_release(
    releases: &[RefractRelease],
    loader_key: &str,
    mc_version: &str,
    allow_prerelease: bool,
) -> (r: Option<(RefractRelease, RefractAsset)>)
    ensures
        match choice(releases_view(releases@), loader_key@, mc_version@, allow_prerelease) {
            Some(p) => r matches Some(ra) && ra.0@ == releases_view(releases@)[p.0] && ra.1@
                == rel_assets(releases_view(releases@)[p.0])[p.1],
            None => r is None,
        },
{
    let ghost v = releases_view(releases@);
    let found = match find_release(releases, false, loader_key, mc_version) {
        Some(p) => Some(p),
        None => if allow_prerelease {
            find_release(releases, true, loader_key, mc_version)
        } else {
            None
        },
    };
    match found {
        Some((i, j)) => {
            proof {
                lemma_first_release_from(v, false, loader_key@, mc_version@, 0);
                lemma_first_release_from(v, true, loader_key@, mc_version@, 0);
                lemma_first_asset_from(rel_assets(v[i as int]), loader_key@, mc_version@, 0);
                assert(v[i as int] == releases@[i as int]@);
            }
            let rel = releases[i].copy();
            let asset = releases[i].assets[j].copy();
            Some((rel, asset))
        },
        None => None,
    }
}

/// The listed assets of one asset list, in order.
pub open spec fn listed_assets(a: Seq<AssetView>, l: Seq<char>, mc: Seq<char>) -> Seq<AssetView>
    decreases a.len(),
{
    if a.len() == 0 {
        Seq::empty()
    } else {
        listed_assets(a.drop_last(), l, mc) + if listed(a.last().0, l, mc) {
            seq![a.last()]
        } else {
            Seq::empty()
        }
    }
}

/// (release, asset) pairs of the releases with the given pre-release flag
/// and their listed assets, in order.
pub open spec fn pairs_of(rs: Seq<ReleaseView>, pre: bool, l: Seq<char>, mc: Seq<char>) -> Seq<(ReleaseView, AssetView)>
    decreases rs.len(),
{
    if rs.len() == 0 {
        Seq::empty()
    } else {
        let r = rs.last();
        pairs_of(rs.drop_last(), pre, l, mc) + if rel_pre(r) == pre {
            listed_assets(rel_assets(r), l, mc).map_values(|a: AssetView| (r, a))
        } else {
            Seq::empty()
        }
    }
}

pub open spec fn pairs_view(v: Seq<(RefractRelease, RefractAsset)>) -> Seq<(ReleaseView, AssetView)> {
    v.map_values(|p: (RefractRelease, RefractAsset)| (p.0@, p.1@))
}

fn push_pairs(
    out: &mut Vec<(RefractRelease, RefractAsset)>,
    rs: &[RefractRelease],
    pre: bool,
    loader_key: &str,
    mc_version: &str,
)
    ensures
        pairs_view(final(out)@) == pairs_view(old(out)@) + pairs_of(
            releases_view(rs@),
            pre,
            loader_key@,
            mc_version@,
        ),
{
    let ghost v = releases_view(rs@);
    let ghost base = pairs_view(out@);
    let mut i: usize = 0;
    assert(v.take(0) =~= Seq::<ReleaseView>::empty());
    assert(base + pairs_of(v.take(0), pre, loader_key@, mc_version@) =~= base);
    while i < rs.len()
        invariant
            i <= rs@.len(),
            v == releases_view(rs@),
            pairs_view(out@) == base + pairs_of(v.take(i as int), pre, loader_key@, mc_version@),
        decreases rs@.len() - i,
    {
        let r = &rs[i];
        let ghost rv = r@;
        assert(v[i as int] == rv);
        assert(v.take(i + 1).drop_last() =~= v.take(i as int));
        assert(v.take(i + 1).last() == rv);
        let ghost before = pairs_view(out@);
        if r.prerelease == pre {
            let mut j: usize = 0;
            let ghost a = rel_assets(rv);
            assert(a.take(0) =~= Seq::<AssetView>::empty());
            assert(listed_assets(a.take(0), loader_key@, mc_version@).map_values(
                |x: AssetView| (rv, x),
            ) =~= Seq::<(ReleaseView, AssetView)>::empty());
            assert(before + Seq::<(ReleaseView, AssetView)>::empty() =~= before);
            while j < r.assets.len()
                invariant
                    j <= r.assets@.len(),
                    rv == r@,
                    a == rel_assets(rv),
                    a.len() == r.assets@.len(),
                    pairs_view(out@) == before + listed_assets(a.take(j as int), loader_key@, mc_version@).map_values(
                        |x: AssetView| (rv, x),
                    ),
                decreases r.assets@.len() - j,
            {
                assert(a.take(j + 1).drop_last() =~= a.take(j as int));
                assert(a.take(j + 1).last() == a[j as int]);
                assert(a[j as int] == r.assets@[j as int]@);
                let ghost cur = pairs_view(out@);
                if is_listed(&r.assets[j], loader_key, mc_version) {
                    out.push((r.copy(), r.assets[j].copy()));
                    assert(pairs_view(out@) =~= cur.push((rv, a[j as int])));
                    assert(listed_assets(a.take(j + 1), loader_key@, mc_version@) =~= listed_assets(
                        a.take(j as int),
                        loader_key@,
                        mc_version@,
                    ).push(a[j as int]));
                    assert(pairs_view(out@) =~= before + listed_assets(
                        a.take(j + 1),
                        loader_key@,
                        mc_version@,
                    ).map_values(|x: AssetView| (rv, x)));
                } else {
                    assert(listed_assets(a.take(j + 1), loader_key@, mc_version@) =~= listed_assets(
                        a.take(j as int),
                        loader_key@,
                        mc_version@,
                    ));
                }
                j += 1;
            }
            assert(a.take(j as int) =~= a);
            assert(pairs_view(out@) =~= base + pairs_of(v.take(i + 1), pre, loader_key@, mc_version@));
        } else {
            assert(pairs_view(out@) =~= base + pairs_of(v.take(i + 1), pre, loader_key@, mc_version@));
        }
        i += 1;
    }
    assert(v.take(i as int) =~= v);
}

/// Every applicable (release, asset) pair for interactive choice: stable
/// releases first, then (when allowed) pre-releases, each newest first.
pub fn list_applicable(
    releases: &[RefractRelease],
    loader_key: &str,
    mc_version: &str,
    allow_prerelease: bool,
) -> (r: Vec<(RefractRelease, RefractAsset)>)
    ensures
        pairs_view(r@) == pairs_of(releases_view(releases@), false, loader_key@, mc_version@) + if allow_prerelease {
            pairs_of(releases_view(releases@), true, loader_key@, mc_version@)
        } else {
            Seq::empty()
        },
{
    let mut out: Vec<(RefractRelease, RefractAsset)> = Vec::new();
    assert(pairs_view(out@) =~= Seq::<(ReleaseView, AssetView)>::empty());
    push_pairs(&mut out, releases, false, loader_key, mc_version);
    let ghost stable = pairs_view(out@);
    if allow_prerelease {
        push_pairs(&mut out, releases, true, loader_key, mc_version);
    } else {
        assert(stable + Seq::<(ReleaseView, AssetView)>::empty() =~= stable);
    }
    assert(pairs_of(releases_view(releases@), false, loader_key@, mc_version@) =~= Seq::<
        (ReleaseView, AssetView),
    >::empty() + pairs_of(releases_view(releases@), false, loader_key@, mc_version@));
    out
}

} // verus!
