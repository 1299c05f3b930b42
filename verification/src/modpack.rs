//! Modrinth modpack index: required Minecraft version and loader, the
//! files a client installs, and hex encoding of digests.
use vstd::prelude::*;
use crate::text;
use crate::digest;
use crate::instance::LoaderConfig;

verus! {

/// The `modrinth.index.json` of a pack. Its JSON objects are held as
/// (key, value) lists in file order; JSON keys are unique (`wf`).
#[derive(Debug)]
pub struct ModrinthPackIndex {
    pub format_version: u32,
    pub game: String,
    pub version_id: String,
    pub name: String,
    pub summary: String,
    pub dependencies: Vec<(String, String)>,
    pub files: Vec<PackFile>,
}

/// One file entry of the index.
#[derive(Debug)]
pub struct PackFile {
    pub path: String,
    pub hashes: Vec<(String, String)>,
    pub env: Vec<(String, String)>,
    pub downloads: Vec<String>,
    pub file_size: u64,
}

pub open spec fn entries(m: Seq<(String, String)>) -> Seq<(Seq<char>, Seq<char>)> {
    m.map_values(|p: (String, String)| (p.0@, p.1@))
}

/// The value stored under `k` (the first entry with that key).
pub open spec fn lookup(m: Seq<(Seq<char>, Seq<char>)>, k: Seq<char>) -> Option<Seq<char>>
    decreases m.len(),
{
    if m.len() == 0 {
        None
    } else if m[0].0 == k {
        Some(m[0].1)
    } else {
        lookup(m.drop_first(), k)
    }
}

/// No key occurs in two entries.
pub open spec fn keys_unique(m: Seq<(Seq<char>, Seq<char>)>) -> bool {
    forall|a: int, b: int| 0 <= a < b < m.len() ==> #[trigger] m[a].0 != #[trigger] m[b].0
}

impl ModrinthPackIndex {
    /// A decoded index: each of its JSON objects has distinct keys.
    pub open spec fn wf(&self) -> bool {
        &&& keys_unique(entries(self.dependencies@))
        &&& forall|i: int|
            0 <= i < self.files@.len() ==> keys_unique(entries((#[trigger] self.files@[i]).env@)) && keys_unique(
                entries(self.files@[i].hashes@),
            )
    }
}

fn get<'a>(m: &'a Vec<(String, String)>, k: &str) -> (r: Option<&'a str>)
    ensures
        match r {
            Some(v) => lookup(entries(m@), k@) == Some(v@),
            None => lookup(entries(m@), k@) is None,
        },
{
    let ghost e = entries(m@);
    let mut i: usize = 0;
    assert(e.skip(0) =~= e);
    while i < m.len()
        invariant
            i <= m@.len(),
            e == entries(m@),
            lookup(e, k@) == lookup(e.skip(i as int), k@),
        decreases m@.len() - i,
    {
        assert(e.skip(i as int)[0] == (m@[i as int].0@, m@[i as int].1@));
        assert(e.skip(i as int).drop_first() =~= e.skip(i + 1));
        if text::str_eq(m[i].0.as_str(), k) {
            return Some(m[i].1.as_str());
        }
        i += 1;
    }
    None
}

/// The loader a pack requires, from the first of `fabric-loader`,
/// `quilt-loader`, `forge`, `neoforge` it names: (loader, version).
pub open spec fn pack_loader(d: Seq<(Seq<char>, Seq<char>)>) -> Option<(Seq<char>, Seq<char>)> {
    match lookup(d, "fabric-loader"@) {
        Some(v) => Some(("fabric"@, v)),
        None => match lookup(d, "quilt-loader"@) {
            Some(v) => Some(("quilt"@, v)),
            None => match lookup(d, "forge"@) {
                Some(v) => Some(("forge"@, v)),
                None => match lookup(d, "neoforge"@) {
                    Some(v) => Some(("neoforge"@, v)),
                    None => None,
                },
            },
        },
    }
}

/// A file is for clients unless its `client` environment is `unsupported`.
pub open spec fn for_client(f: PackFile) -> bool {
    match lookup(entries(f.env@), "client"@) {
        Some(v) => v != "unsupported"@,
        None => true,
    }
}

/// The client files, in order.
pub open spec fn client_subset(fs: Seq<PackFile>) -> Seq<PackFile>
    decreases fs.len(),
{
    if fs.len() == 0 {
        Seq::empty()
    } else if for_client(fs.last()) {
        client_subset(fs.drop_last()).push(fs.last())
    } else {
        client_subset(fs.drop_last())
    }
}

/// The client files of a pack are exactly its files whose `client`
/// environment is not `unsupported` (a file with no `client` entry, or with
/// `required` or `optional`, is installed), in index order.
pub proof fn law_client_files(fs: Seq<PackFile>)
    ensures
        forall|i: int|
            0 <= i < fs.len() && lookup(entries(fs[i].env@), "client"@) != Some("unsupported"@) ==> client_subset(
                fs,
            ).contains(#[trigger] fs[i]),
        forall|k: int|
            0 <= k < client_subset(fs).len() ==> fs.contains(#[trigger] client_subset(fs)[k]) && lookup(
                entries(client_subset(fs)[k].env@),
                "client"@,
            ) != Some("unsupported"@),
    decreases fs.len(),
{
    if fs.len() > 0 {
        let p = fs.drop_last();
        law_client_files(p);
        let c = client_subset(fs);
        let cp = client_subset(p);
        assert forall|i: int|
            0 <= i < fs.len() && lookup(entries(fs[i].env@), "client"@) != Some("unsupported"@) implies c.contains(
                #[trigger] fs[i],
            ) by {
            if i < p.len() {
                assert(p[i] == fs[i]);
                let j = choose|j: int| 0 <= j < cp.len() && cp[j] == p[i];
                if for_client(fs.last()) {
                    assert(c == cp.push(fs.last()));
                    assert(c[j] == cp[j]);
                } else {
                    assert(c == cp);
                }
            } else {
                assert(fs[i] == fs.last());
                assert(for_client(fs.last()));
                assert(c == cp.push(fs.last()));
                assert(c[cp.len() as int] == fs.last());
            }
        }
        assert forall|k: int| 0 <= k < c.len() implies fs.contains(#[trigger] c[k]) && lookup(
            entries(c[k].env@),
            "client"@,
        ) != Some("unsupported"@) by {
            if for_client(fs.last()) {
                assert(c == cp.push(fs.last()));
                if k < cp.len() {
                    assert(c[k] == cp[k]);
                    let j = choose|j: int| 0 <= j < p.len() && p[j] == cp[k];
                    assert(fs[j] == p[j]);
                } else {
                    assert(c[k] == fs.last());
                    assert(fs[fs.len() - 1] == fs.last());
                }
            } else {
                assert(c == cp);
                let j = choose|j: int| 0 <= j < p.len() && p[j] == cp[k];
                assert(fs[j] == p[j]);
            }
        }
    }
}

impl ModrinthPackIndex {
    /// The Minecraft version the pack requires.
    pub fn minecraft_version(&self) -> (r: Option<&str>)
        requires
            self.wf(),
        ensures
            match r {
                Some(v) => lookup(entries(self.dependencies@), "minecraft"@) == Some(v@),
                None => lookup(entries(self.dependencies@), "minecraft"@) is None,
            },
    {
        get(&self.dependencies, "minecraft")
    }

    /// The loader (kind, version) the pack requires, if any.
    pub fn loader(&self) -> (r: Option<(&'static str, &str)>)
        requires
            self.wf(),
        ensures
            match r {
                Some(p) => pack_loader(entries(self.dependencies@)) == Some((p.0@, p.1@)),
                None => pack_loader(entries(self.dependencies@)) is None,
            },
    {
        if let Some(v) = get(&self.dependencies, "fabric-loader") {
            return Some(("fabric", v));
        }
        if let Some(v) = get(&self.dependencies, "quilt-loader") {
            return Some(("quilt", v));
        }
        if let Some(v) = get(&self.dependencies, "forge") {
            return Some(("forge", v));
        }
        if let Some(v) = get(&self.dependencies, "neoforge") {
            return Some(("neoforge", v));
        }
        None
    }

    /// The files a client installs: those whose `client` environment is not
    /// `unsupported`, in index order.
    pub fn client_files(&self) -> (r: Vec<&PackFile>)
        requires
            self.wf(),
        ensures
            r@.map_values(|f: &PackFile| *f) == client_subset(self.files@),
    {
        let ghost fs = self.files@;
        let mut out: Vec<&PackFile> = Vec::new();
        let mut i: usize = 0;
        assert(fs.take(0) =~= Seq::<PackFile>::empty());
        while i < self.files.len()
            invariant
                i <= self.files@.len(),
                fs == self.files@,
                out@.map_values(|f: &PackFile| *f) == client_subset(fs.take(i as int)),
            decreases self.files@.len() - i,
        {
            let f = &self.files[i];
            assert(fs.take(i + 1).drop_last() =~= fs.take(i as int));
            assert(fs.take(i + 1).last() == *f);
            let ghost before = out@.map_values(|f: &PackFile| *f);
            let keep = match get(&f.env, "client") {
                Some(v) => !text::str_eq(v, "unsupported"),
                None => true,
            };
            if keep {
                out.push(f);
                assert(out@.map_values(|f: &PackFile| *f) =~= before.push(*f));
            }
            i += 1;
        }
        assert(fs.take(i as int) =~= fs);
        out
    }
}

/// Lower-case hex digit of `d < 16`.
pub open spec fn hex_lower(d: u8) -> char {
    if d < 10 {
        (48 + d) as char
    } else {
        (87 + d) as char
    }
}

/// Lower-case hex of a byte string, two digits per byte.
pub open spec fn hex_of(bs: Seq<u8>) -> Seq<char>
    decreases bs.len(),
{
    if bs.len() == 0 {
        Seq::empty()
    } else {
        hex_of(bs.drop_last()) + seq![hex_lower(bs.last() / 16), hex_lower(bs.last() % 16)]
    }
}

fn hex_digit(d: u8) -> (c: char)
    requires
        d < 16,
    ensures
        c == hex_lower(d),
{
    if d < 10 {
        (48 + d) as char
    } else {
        (87 + d) as char
    }
}

/// Lower-case hex encoding (of a digest).
pub fn encode(bytes: &[u8]) -> (r: String)
    ensures
        r@ == hex_of(bytes@),
{
    let mut out: Vec<char> = Vec::new();
    let mut i: usize = 0;
    assert(bytes@.take(0) =~= Seq::<u8>::empty());
    while i < bytes.len()
        invariant
            i <= bytes@.len(),
            out@ == hex_of(bytes@.take(i as int)),
        decreases bytes@.len() - i,
    {
        let b = bytes[i];
        assert(bytes@.take(i + 1).drop_last() =~= bytes@.take(i as int));
        let ghost before = out@;
        out.push(hex_digit(b / 16));
        out.push(hex_digit(b % 16));
        assert(out@ =~= before + seq![hex_lower(b / 16), hex_lower(b % 16)]);
        i += 1;
    }
    assert(bytes@.take(i as int) =~= bytes@);
    text::string_of(out.as_slice())
}

// ---------------------------------------------------------------------------
// Pack contents on disk, and export
// ---------------------------------------------------------------------------

/// A pack path that could leave the instance directory: absolute, or
/// holding `..`.
pub open spec fn unsafe_pack_path(p: Seq<char>) -> bool {
    text::starts_with(p, "/"@) || text::contains(p, ".."@)
}

/// Whether a pack path could leave the instance directory.
pub fn is_unsafe_pack_path(p: &str) -> (r: bool)
    ensures
        r == unsafe_pack_path(p@),
{
    let c = text::chars_of(p);
    let slash = text::chars_of("/");
    let dots = text::chars_of("..");
    text::starts_with_seq(c.as_slice(), slash.as_slice()) || text::contains_seq(c.as_slice(), dots.as_slice())
}

/// Where an archive entry of a pack is extracted, relative to the instance:
/// entries under `overrides/` or `client-overrides/`, without that prefix;
/// nothing for directories, empty names and unsafe paths.
pub open spec fn override_target_of(name: Seq<char>, is_dir: bool) -> Option<Seq<char>> {
    let rel = match text::strip_prefix(name, "overrides/"@) {
        Some(r) => Some(r),
        None => text::strip_prefix(name, "client-overrides/"@),
    };
    match rel {
        Some(r) => if r.len() == 0 || is_dir || unsafe_pack_path(r) {
            None
        } else {
            Some(r)
        },
        None => None,
    }
}

/// Where an archive entry of a pack is extracted, if anywhere. What it
/// gives is never absolute and never holds `..`.
pub fn override_target(name: &str, is_dir: bool) -> (r: Option<String>)
    ensures
        r.deep_view() == override_target_of(name@, is_dir),
        r matches Some(t) ==> !unsafe_pack_path(t@),
{
    let c = text::chars_of(name);
    let p1 = text::chars_of("overrides/");
    let p2 = text::chars_of("client-overrides/");
    let rel = match text::strip_prefix_seq(c.as_slice(), p1.as_slice()) {
        Some(r) => r,
        None => match text::strip_prefix_seq(c.as_slice(), p2.as_slice()) {
            Some(r) => r,
            None => return None,
        },
    };
    let s = text::string_of(rel.as_slice());
    if rel.len() == 0 || is_dir || is_unsafe_pack_path(s.as_str()) {
        None
    } else {
        Some(s)
    }
}

/// The dependency key a loader type is exported under.
pub open spec fn loader_dependency_key(loader_type: Seq<char>) -> Option<Seq<char>> {
    if loader_type == "fabric"@ {
        Some("fabric-loader"@)
    } else if loader_type == "quilt"@ {
        Some("quilt-loader"@)
    } else if loader_type == "forge"@ {
        Some("forge"@)
    } else if loader_type == "neoforge"@ {
        Some("neoforge"@)
    } else {
        None
    }
}

/// The dependencies of an exported pack: Minecraft, and the loader when it
/// is one a pack can name.
pub open spec fn export_deps(mc: Seq<char>, loader: Option<(Seq<char>, Seq<char>)>) -> Seq<(Seq<char>, Seq<char>)> {
    seq![("minecraft"@, mc)] + match loader {
        Some(l) => match loader_dependency_key(l.0) {
            Some(k) => seq![(k, l.1)],
            None => Seq::empty(),
        },
        None => Seq::empty(),
    }
}

/// The dependencies written into a pack exported from an instance.
pub fn export_dependencies(minecraft_version: &str, loader: Option<&LoaderConfig>) -> (r: Vec<(String, String)>)
    ensures
        entries(r@) == export_deps(minecraft_version@, match loader {
            Some(l) => Some((l.loader_type@, l.version@)),
            None => None,
        }),
        keys_unique(entries(r@)),
{
    let mut v: Vec<(String, String)> = Vec::new();
    v.push(("minecraft".to_owned(), minecraft_version.to_owned()));
    if let Some(l) = loader {
        let t = l.loader_type.as_str();
        let key: Option<&str> = if text::str_eq(t, "fabric") {
            Some("fabric-loader")
        } else if text::str_eq(t, "quilt") {
            Some("quilt-loader")
        } else if text::str_eq(t, "forge") {
            Some("forge")
        } else if text::str_eq(t, "neoforge") {
            Some("neoforge")
        } else {
            None
        };
        if let Some(k) = key {
            v.push((k.to_owned(), l.version.clone()));
        }
    }
    let ghost want = export_deps(minecraft_version@, match loader {
        Some(l) => Some((l.loader_type@, l.version@)),
        None => None,
    });
    assert(entries(v@) =~= want);
    proof {
        reveal_strlit("minecraft");
        reveal_strlit("fabric-loader");
        reveal_strlit("quilt-loader");
        reveal_strlit("forge");
        reveal_strlit("neoforge");
        if v@.len() == 2 {
            assert(entries(v@)[0].0 == "minecraft"@);
            assert(entries(v@)[1].0.len() != 9 || entries(v@)[1].0[0] != 'm');
        }
    }
    v
}

/// A mod JAR indexed in an exported pack: its path, SHA-1 and size.
#[derive(Debug, Clone)]
pub struct ExportedMod {
    pub path: String,
    pub sha1: String,
    pub file_size: u64,
}

/// The index entry of a mod JAR `file_name` with contents `data`.
pub fn export_mod_entry(file_name: &str, data: &[u8]) -> (r: ExportedMod)
    ensures
        r.path@ == "mods/"@ + file_name@,
        r.sha1@ == hex_of(digest::sha1_of(data@)),
        r.file_size == data@.len(),
{
    ExportedMod {
        path: text::concat2("mods/", file_name),
        sha1: digest::sha1_hex(data),
        file_size: data.len() as u64,
    }
}

proof fn lemma_differ_at(a: Seq<char>, b: Seq<char>, i: int)
    requires
        0 <= i < a.len(),
        0 <= i < b.len(),
        a[i] != b[i],
    ensures
        a != b,
{
}

/// A pack exported from an instance names the instance's Minecraft version
/// and, for the loaders a pack can name, its loader and version: reading
/// the pack back gives them again.
pub proof fn law_export_then_read_loader(mc: Seq<char>, loader_type: Seq<char>, version: Seq<char>)
    requires
        loader_dependency_key(loader_type) is Some,
    ensures
        pack_loader(export_deps(mc, Some((loader_type, version)))) == Some((loader_type, version)),
        lookup(export_deps(mc, Some((loader_type, version))), "minecraft"@) == Some(mc),
{
    reveal_strlit("minecraft");
    reveal_strlit("fabric-loader");
    reveal_strlit("quilt-loader");
    reveal_strlit("forge");
    reveal_strlit("neoforge");
    reveal_strlit("fabric");
    reveal_strlit("quilt");
    let d = export_deps(mc, Some((loader_type, version)));
    let k = loader_dependency_key(loader_type)->0;
    assert(d.len() == 2 && d[0] == ("minecraft"@, mc) && d[1] == (k, version));
    let t = d.drop_first();
    assert(t.len() == 1 && t[0] == (k, version));
    assert(t.drop_first().len() == 0);
    let fl = "fabric-loader"@;
    let ql = "quilt-loader"@;
    let fo = "forge"@;
    let nf = "neoforge"@;
    let mcs = "minecraft"@;
    lemma_differ_at(fl, mcs, 0);
    lemma_differ_at(ql, mcs, 0);
    lemma_differ_at(fo, mcs, 0);
    lemma_differ_at(nf, mcs, 0);
    lemma_differ_at(fl, ql, 0);
    lemma_differ_at(fl, fo, 1);
    lemma_differ_at(fl, nf, 0);
    lemma_differ_at(ql, fo, 0);
    lemma_differ_at(ql, nf, 0);
    lemma_differ_at(fo, nf, 0);
    assert(lookup(t.drop_first(), fl) is None);
    assert(lookup(t.drop_first(), ql) is None);
    assert(lookup(t.drop_first(), fo) is None);
    if loader_type == "fabric"@ {
        assert(k == fl);
        assert(lookup(t, fl) == Some(version));
        assert(lookup(d, fl) == Some(version));
    } else if loader_type == "quilt"@ {
        assert(k == ql);
        assert(lookup(d, fl) is None);
        assert(lookup(d, ql) == Some(version));
    } else if loader_type == "forge"@ {
        assert(k == fo);
        assert(lookup(d, fl) is None);
        assert(lookup(d, ql) is None);
        assert(lookup(d, fo) == Some(version));
    } else {
        assert(k == nf);
        assert(lookup(t, fl) is None);
        assert(lookup(t, ql) is None);
        assert(lookup(t, fo) is None);
        assert(lookup(d, fl) is None);
        assert(lookup(d, ql) is None);
        assert(lookup(d, fo) is None);
        assert(lookup(d, nf) == Some(version));
    }
    assert(lookup(d, "minecraft"@) == Some(mc));
}

} // verus!
