//! Mod JARs recognised by file name: the Despotes, Prismate and companion
//! builds in a mods folder, and the newest companion build to install.
use vstd::prelude::*;
use crate::text;
use crate::listing;
use crate::neoforge;

verus! {

/// File name prefix of the companion mod's builds.
pub const COMPANION_JAR_PREFIX: &'static str = "mdl-agent-companion-";

/// The stem and extension of a file name as `Path::file_stem` and
/// `Path::extension` split it: at the last `.`, unless that `.` starts the
/// name (then there is no extension).
pub open spec fn stem_ext(name: Seq<char>) -> Option<(Seq<char>, Seq<char>)> {
    match text::rsplit_once(name, '.') {
        Some(p) => if p.0.len() > 0 {
            Some(p)
        } else {
            None
        },
        None => None,
    }
}

/// A `.jar` file whose stem starts with `prefix`.
pub open spec fn is_prefixed_jar(name: Seq<char>, prefix: Seq<char>) -> bool {
    stem_ext(name) matches Some(p) && p.1 == "jar"@ && text::starts_with(p.0, prefix)
}

/// Whether `name` is a `.jar` file whose stem starts with `prefix`.
pub fn prefixed_jar(name: &str, prefix: &str) -> (r: bool)
    ensures
        r == is_prefixed_jar(name@, prefix@),
{
    let c = text::chars_of(name);
    let p = text::chars_of(prefix);
    let jar = text::chars_of("jar");
    match text::rsplit_once_seq(c.as_slice(), '.') {
        Some((stem, ext)) => stem.len() > 0 && text::seq_eq(ext.as_slice(), jar.as_slice())
            && text::starts_with_seq(stem.as_slice(), p.as_slice()),
        None => false,
    }
}

pub open spec fn names_view(v: Seq<String>) -> Seq<Seq<char>> {
    v.map_values(|s: String| s@)
}

/// The `.jar` files of a folder listing whose stem starts with `prefix`,
/// in listing order.
pub fn prefixed_jars(names: &Vec<String>, prefix: &str) -> (r: Vec<String>)
    ensures
        names_view(r@) == names_view(names@).filter(|n: Seq<char>| is_prefixed_jar(n, prefix@)),
{
    let ghost nv = names_view(names@);
    let mut out: Vec<String> = Vec::new();
    let mut i: usize = 0;
    proof {
        reveal(Seq::filter);
        assert(nv.take(0) =~= Seq::<Seq<char>>::empty());
    }
    while i < names.len()
        invariant
            i <= names@.len(),
            nv == names_view(names@),
            names_view(out@) == nv.take(i as int).filter(|n: Seq<char>| is_prefixed_jar(n, prefix@)),
        decreases names@.len() - i,
    {
        proof { reveal(Seq::filter); }
        assert(nv.take(i + 1).drop_last() =~= nv.take(i as int));
        assert(nv.take(i + 1).last() == names@[i as int]@);
        if prefixed_jar(names[i].as_str(), prefix) {
            let ghost before = names_view(out@);
            out.push(names[i].clone());
            assert(names_view(out@) =~= before.push(names@[i as int]@));
        }
        i += 1;
    }
    assert(nv.take(i as int) =~= nv);
    out
}

/// The build version a companion JAR name carries: its stem after the
/// prefix (`mdl-agent-companion-1.2.0.jar` carries `1.2.0`).
pub open spec fn build_version(name: Seq<char>) -> Seq<char> {
    match stem_ext(name) {
        Some(p) => match text::strip_prefix(p.0, COMPANION_JAR_PREFIX@) {
            Some(v) => v,
            None => p.0,
        },
        None => name,
    }
}

/// `a` is a newer build than `b`: its version is greater (numeric fields
/// compared as numbers, a stable version above its pre-releases), or the
/// versions rank equal and its name is greater.
pub open spec fn newer_build(a: Seq<char>, b: Seq<char>) -> bool {
    let o = neoforge::version_order(build_version(a), build_version(b));
    o > 0 || (o == 0 && listing::lex_lt(b, a))
}

fn build_version_of(name: &str) -> (r: String)
    ensures
        r@ == build_version(name@),
{
    let c = text::chars_of(name);
    let p = text::chars_of(COMPANION_JAR_PREFIX);
    match text::rsplit_once_seq(c.as_slice(), '.') {
        Some((stem, _ext)) => {
            if stem.len() > 0 {
                match text::strip_prefix_seq(stem.as_slice(), p.as_slice()) {
                    Some(v) => text::string_of(v.as_slice()),
                    None => text::string_of(stem.as_slice()),
                }
            } else {
                name.to_owned()
            }
        },
        None => name.to_owned(),
    }
}

fn is_newer_build(a: &str, b: &str) -> (r: bool)
    ensures
        r == newer_build(a@, b@),
{
    let va = build_version_of(a);
    let vb = build_version_of(b);
    let o = neoforge::version_sign(va.as_str(), vb.as_str());
    o > 0 || (o == 0 && listing::str_less(b, a))
}

proof fn lemma_newer_build_step(x: Seq<char>, b: Seq<char>, k: Seq<char>)
    requires
        !newer_build(x, b),
        newer_build(k, b),
    ensures
        !newer_build(x, k),
{
    let (vx, vb, vk) = (build_version(x), build_version(b), build_version(k));
    neoforge::law_version_order_antisymmetric(vk, vb);
    neoforge::law_version_order_antisymmetric(vx, vk);
    neoforge::law_version_order_transitive(vx, vb, vk);
    if neoforge::version_order(vx, vk) == 0 && listing::lex_lt(k, x) {
        listing::lemma_lex_lt_transitive(b, k, x);
    }
}

/// The newest companion build of a folder listing: no other companion
/// build in it is newer.
pub fn newest_companion(names: &Vec<String>) -> (r: Option<String>)
    ensures
        match r {
            Some(n) => is_prefixed_jar(n@, COMPANION_JAR_PREFIX@) && names_view(names@).contains(n@) && forall|k: int|
                0 <= k < names@.len() && is_prefixed_jar(#[trigger] names@[k]@, COMPANION_JAR_PREFIX@)
                    ==> !newer_build(names@[k]@, n@),
            None => forall|k: int| 0 <= k < names@.len() ==> !is_prefixed_jar(#[trigger] names@[k]@, COMPANION_JAR_PREFIX@),
        },
{
    let mut best: Option<String> = None;
    let mut i: usize = 0;
    while i < names.len()
        invariant
            i <= names@.len(),
            match best {
                Some(n) => is_prefixed_jar(n@, COMPANION_JAR_PREFIX@) && names_view(names@).contains(n@) && forall|k: int|
                    0 <= k < i && is_prefixed_jar(#[trigger] names@[k]@, COMPANION_JAR_PREFIX@) ==> !newer_build(
                        names@[k]@,
                        n@,
                    ),
                None => forall|k: int| 0 <= k < i ==> !is_prefixed_jar(#[trigger] names@[k]@, COMPANION_JAR_PREFIX@),
            },
        decreases names@.len() - i,
    {
        let name = &names[i];
        assert(names_view(names@)[i as int] == name@);
        if prefixed_jar(name.as_str(), COMPANION_JAR_PREFIX) {
            let replace = match &best {
                Some(b) => is_newer_build(name.as_str(), b.as_str()),
                None => true,
            };
            proof {
                neoforge::law_version_order_reflexive(build_version(name@));
                listing::lemma_lex_lt_irreflexive(name@);
            }
            if replace {
                proof {
                    match best {
                        Some(b) => {
                            assert forall|k: int|
                                0 <= k < i + 1 && is_prefixed_jar(#[trigger] names@[k]@, COMPANION_JAR_PREFIX@)
                                    implies !newer_build(names@[k]@, name@) by {
                                if k < i {
                                    lemma_newer_build_step(names@[k]@, b@, name@);
                                }
                            }
                        },
                        None => {},
                    }
                }
                best = Some(name.clone());
            }
        }
        i += 1;
    }
    best
}

/// The installed companion builds to remove before installing `source`:
/// all but the one with the same file name.
pub fn stale_companions(installed: &Vec<String>, source: &str) -> (r: Vec<String>)
    ensures
        names_view(r@) == names_view(installed@).filter(|n: Seq<char>| n != source@),
{
    let ghost nv = names_view(installed@);
    let mut out: Vec<String> = Vec::new();
    let mut i: usize = 0;
    proof {
        reveal(Seq::filter);
        assert(nv.take(0) =~= Seq::<Seq<char>>::empty());
    }
    while i < installed.len()
        invariant
            i <= installed@.len(),
            nv == names_view(installed@),
            names_view(out@) == nv.take(i as int).filter(|n: Seq<char>| n != source@),
        decreases installed@.len() - i,
    {
        proof { reveal(Seq::filter); }
        assert(nv.take(i + 1).drop_last() =~= nv.take(i as int));
        assert(nv.take(i + 1).last() == installed@[i as int]@);
        if !text::str_eq(installed[i].as_str(), source) {
            let ghost before = names_view(out@);
            out.push(installed[i].clone());
            assert(names_view(out@) =~= before.push(installed@[i as int]@));
        }
        i += 1;
    }
    assert(nv.take(i as int) =~= nv);
    out
}

/// A filtered listing is empty exactly when no name passes.
pub proof fn lemma_filter_nonempty(names: Seq<Seq<char>>, prefix: Seq<char>)
    ensures
        (names.filter(|n: Seq<char>| is_prefixed_jar(n, prefix)).len() > 0) == exists|i: int|
            0 <= i < names.len() && is_prefixed_jar(#[trigger] names[i], prefix),
    decreases names.len(),
{
    reveal(Seq::filter);
    if names.len() > 0 {
        let d = names.drop_last();
        lemma_filter_nonempty(d, prefix);
        if exists|i: int| 0 <= i < d.len() && is_prefixed_jar(#[trigger] d[i], prefix) {
            let i = choose|i: int| 0 <= i < d.len() && is_prefixed_jar(#[trigger] d[i], prefix);
            assert(names[i] == d[i]);
        }
        if exists|i: int| 0 <= i < names.len() && is_prefixed_jar(#[trigger] names[i], prefix) {
            let i = choose|i: int| 0 <= i < names.len() && is_prefixed_jar(#[trigger] names[i], prefix);
            if i < d.len() {
                assert(d[i] == names[i]);
            }
        }
    }
}

/// A filtered folder listing is empty exactly when no file name passes.
pub proof fn lemma_listing_filter_nonempty(v: Seq<String>, prefix: Seq<char>)
    ensures
        (names_view(v).filter(|n: Seq<char>| is_prefixed_jar(n, prefix)).len() > 0) == exists|i: int|
            0 <= i < v.len() && is_prefixed_jar(#[trigger] v[i]@, prefix),
{
    let nv = names_view(v);
    lemma_filter_nonempty(nv, prefix);
    if exists|i: int| 0 <= i < v.len() && is_prefixed_jar(#[trigger] v[i]@, prefix) {
        let i = choose|i: int| 0 <= i < v.len() && is_prefixed_jar(#[trigger] v[i]@, prefix);
        assert(nv[i] == v[i]@);
    }
    if exists|i: int| 0 <= i < nv.len() && is_prefixed_jar(#[trigger] nv[i], prefix) {
        let i = choose|i: int| 0 <= i < nv.len() && is_prefixed_jar(#[trigger] nv[i], prefix);
        assert(nv[i] == v[i]@);
    }
}

/// The companion builds of a mods folder listing, in listing order.
pub fn installed_companions(mods_listing: &Vec<String>) -> (r: Vec<String>)
    ensures
        names_view(r@) == names_view(mods_listing@).filter(|n: Seq<char>| is_prefixed_jar(n, COMPANION_JAR_PREFIX@)),
{
    prefixed_jars(mods_listing, COMPANION_JAR_PREFIX)
}

/// Whether a mods folder listing holds a companion build.
pub fn is_installed(mods_listing: &Vec<String>) -> (r: bool)
    ensures
        r == exists|i: int| 0 <= i < mods_listing@.len() && is_prefixed_jar(#[trigger] mods_listing@[i]@, COMPANION_JAR_PREFIX@),
{
    let found = installed_companions(mods_listing);
    proof {
        lemma_listing_filter_nonempty(mods_listing@, COMPANION_JAR_PREFIX@);
        assert(names_view(found@).len() == found@.len());
    }
    found.len() > 0
}

pub open spec fn companion_missing_msg() -> Seq<char> {
    "Companion mod JAR not found. Expected a file named 'mdl-agent-companion-<version>.jar' next to the mdl executable, in the current directory, or in the MDL data directory's companions/ folder."@
}

/// Whether a folder listing holds a companion build.
pub open spec fn has_companion(names: Seq<String>) -> bool {
    exists|k: int| 0 <= k < names.len() && is_prefixed_jar(#[trigger] names[k]@, COMPANION_JAR_PREFIX@)
}

/// The companion build to install, from the listings of the folders
/// searched, in order (the launcher's folder, the current folder, the data
/// directory's `companions/`): the newest build of the first folder that
/// has one, as (folder index, file name).
pub fn find_companion_jar(listings: &Vec<Vec<String>>) -> (r: Result<(usize, String), String>)
    ensures
        match r {
            Ok((i, n)) => i < listings@.len() && has_companion(listings@[i as int]@) && (forall|j: int|
                0 <= j < i ==> !has_companion(#[trigger] listings@[j]@)) && is_prefixed_jar(n@, COMPANION_JAR_PREFIX@)
                && names_view(listings@[i as int]@).contains(n@) && forall|k: int|
                0 <= k < listings@[i as int]@.len() && is_prefixed_jar(
                    #[trigger] listings@[i as int]@[k]@,
                    COMPANION_JAR_PREFIX@,
                ) ==> !newer_build(listings@[i as int]@[k]@, n@),
            Err(e) => e@ == companion_missing_msg() && forall|j: int|
                0 <= j < listings@.len() ==> !has_companion(#[trigger] listings@[j]@),
        },
{
    let mut i: usize = 0;
    while i < listings.len()
        invariant
            i <= listings@.len(),
            forall|j: int| 0 <= j < i ==> !has_companion(#[trigger] listings@[j]@),
        decreases listings@.len() - i,
    {
        match newest_companion(&listings[i]) {
            Some(n) => {
                return Ok((i, n));
            },
            None => {},
        }
        i += 1;
    }
    Err("Companion mod JAR not found. Expected a file named 'mdl-agent-companion-<version>.jar' next to the mdl executable, in the current directory, or in the MDL data directory's companions/ folder.".to_owned())
}

} // verus!
