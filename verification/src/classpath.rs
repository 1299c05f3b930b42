//! What the class path of a launch is made of: where each loader library
//! comes from, which base libraries are used and how, and the NeoForge game
//! JARs that are added by convention.
use vstd::prelude::*;
use crate::text;
use crate::paths;
use crate::maven;
use crate::launch_args;

verus! {

/// Where a loader library is taken from.
#[derive(Debug, Clone)]
pub enum LibrarySource {
    /// The Forge client placeholder (an artifact record with an empty URL):
    /// the vanilla client JAR is copied to the library's Maven path.
    ClientPlaceholder,
    /// A full artifact record: downloaded from `url` when missing, checked
    /// against `sha1`.
    Artifact { url: String, sha1: String },
    /// A Fabric/Quilt record naming only a Maven repository: downloaded from
    /// `url` when missing (an empty `url`: the coordinate does not parse, so
    /// nothing is downloaded); used when present, else looked up as a
    /// cached library.
    Maven { url: String },
    /// No download information: used when the cache has it.
    Cached,
}

/// Model of a library source.
pub enum SourceView {
    ClientPlaceholder,
    Artifact { url: Seq<char>, sha1: Seq<char> },
    Maven { url: Seq<char> },
    Cached,
}

impl View for LibrarySource {
    type V = SourceView;

    open spec fn view(&self) -> SourceView {
        match self {
            LibrarySource::ClientPlaceholder => SourceView::ClientPlaceholder,
            LibrarySource::Artifact { url, sha1 } => SourceView::Artifact { url: url@, sha1: sha1@ },
            LibrarySource::Maven { url } => SourceView::Maven { url: url@ },
            LibrarySource::Cached => SourceView::Cached,
        }
    }
}

/// The source of a loader library named `name`, whose record may carry an
/// artifact (url, sha1) and a repository root.
pub open spec fn source_of(
    name: Seq<char>,
    artifact: Option<(Seq<char>, Seq<char>)>,
    repository: Option<Seq<char>>,
) -> SourceView {
    match artifact {
        Some(a) => if a.0.len() == 0 {
            if text::contains(name, ":client"@) {
                SourceView::ClientPlaceholder
            } else {
                match repository {
                    Some(base) => SourceView::Maven { url: maven::artifact_url(name, base) },
                    None => SourceView::Cached,
                }
            }
        } else {
            SourceView::Artifact { url: a.0, sha1: a.1 }
        },
        None => match repository {
            Some(base) => SourceView::Maven { url: maven::artifact_url(name, base) },
            None => SourceView::Cached,
        },
    }
}

/// Decides where a loader library comes from.
pub fn loader_library_source(name: &str, artifact: Option<(String, String)>, repository: Option<String>) -> (r: LibrarySource)
    ensures
        r@ == source_of(
            name@,
            match artifact {
                Some(a) => Some((a.0@, a.1@)),
                None => None,
            },
            match repository {
                Some(b) => Some(b@),
                None => None,
            },
        ),
{
    let from_repository = match &repository {
        Some(base) => LibrarySource::Maven { url: maven::maven_artifact_url(name, base.as_str()) },
        None => LibrarySource::Cached,
    };
    match artifact {
        Some((url, sha1)) => {
            if url.as_str().is_empty() {
                if text::str_contains(name, ":client") {
                    LibrarySource::ClientPlaceholder
                } else {
                    from_repository
                }
            } else {
                LibrarySource::Artifact { url, sha1 }
            }
        },
        None => from_repository,
    }
}

/// How a library of the base game is used.
#[derive(Debug, Clone, Copy, PartialEq, Eq, Structural)]
pub enum BaseLibraryUse {
    /// Its rules exclude it on this system, or it is a native library with
    /// no artifact record.
    Skip,
    /// A native library: downloaded when missing, then extracted into the
    /// natives directory.
    ExtractNatives,
    /// Downloaded when missing and put on the class path.
    Download,
    /// No artifact record: put on the class path when the cache has it.
    Cached,
}

/// Whether a library name denotes native code.
pub open spec fn is_native_name(name: Seq<char>) -> bool {
    text::contains(name, ":natives-"@)
}

/// How a base-game library is used.
pub open spec fn base_use_of(name: Seq<char>, rules_allow: bool, has_artifact: bool) -> BaseLibraryUse {
    if !rules_allow {
        BaseLibraryUse::Skip
    } else if has_artifact {
        if is_native_name(name) {
            BaseLibraryUse::ExtractNatives
        } else {
            BaseLibraryUse::Download
        }
    } else if is_native_name(name) {
        BaseLibraryUse::Skip
    } else {
        BaseLibraryUse::Cached
    }
}

/// Decides how a base-game library is used: `rules_allow` is whether its
/// rules (if any) admit this system, `has_artifact` whether its record
/// carries an artifact.
pub fn base_library_use(name: &str, rules_allow: bool, has_artifact: bool) -> (r: BaseLibraryUse)
    ensures
        r == base_use_of(name@, rules_allow, has_artifact),
{
    if !rules_allow {
        return BaseLibraryUse::Skip;
    }
    let native = text::str_contains(name, ":natives-");
    if has_artifact {
        if native {
            BaseLibraryUse::ExtractNatives
        } else {
            BaseLibraryUse::Download
        }
    } else if native {
        BaseLibraryUse::Skip
    } else {
        BaseLibraryUse::Cached
    }
}

/// Whether a launch's main class is NeoForge's.
pub fn is_neoforge_main_class(main_class: &str) -> (r: bool)
    ensures
        r == (text::contains(main_class@, "bootstraplauncher"@) || text::contains(main_class@, "neoforge"@)),
{
    text::str_contains(main_class, "bootstraplauncher") || text::str_contains(main_class, "neoforge")
}

/// The main class of a launch: the loader's when its version file names
/// one, else the base game's, else none.
pub fn main_class_of(loader: Option<String>, base: Option<String>) -> (r: String)
    ensures
        r@ == match loader {
            Some(l) => if l@.len() > 0 {
                l@
            } else {
                match base {
                    Some(b) => b@,
                    None => Seq::empty(),
                }
            },
            None => match base {
                Some(b) => b@,
                None => Seq::empty(),
            },
        },
{
    match loader {
        Some(l) => {
            if !l.as_str().is_empty() {
                return l;
            }
        },
        None => {},
    }
    match base {
        Some(b) => b,
        None => String::new(),
    }
}

/// `dir` joined with each segment in turn.
pub open spec fn joined_all(dir: Seq<char>, segs: Seq<Seq<char>>) -> Seq<char>
    decreases segs.len(),
{
    if segs.len() == 0 {
        dir
    } else {
        paths::joined(joined_all(dir, segs.drop_last()), segs.last())
    }
}

fn join_all(dir: &str, segs: &Vec<String>) -> (r: String)
    ensures
        r@ == joined_all(dir@, segs.deep_view()),
{
    let mut out = dir.to_owned();
    let mut i: usize = 0;
    assert(segs.deep_view().take(0) =~= Seq::<Seq<char>>::empty());
    while i < segs.len()
        invariant
            i <= segs@.len(),
            out@ == joined_all(dir@, segs.deep_view().take(i as int)),
        decreases segs@.len() - i,
    {
        assert(segs.deep_view().take(i + 1).drop_last() =~= segs.deep_view().take(i as int));
        out = paths::join(out.as_str(), segs[i].as_str());
        i += 1;
    }
    assert(segs.deep_view().take(i as int) =~= segs.deep_view());
    out
}

/// The installer-produced NeoForge client, deobfuscated and patched.
pub open spec fn patched_client_path(libraries: Seq<char>, version: Seq<char>) -> Seq<char> {
    joined_all(
        libraries,
        seq!["net"@, "neoforged"@, "minecraft-client-patched"@, version,
            "minecraft-client-patched-"@ + version + ".jar"@],
    )
}

/// The NeoForge universal JAR (API and mod loading).
pub open spec fn universal_jar_path(libraries: Seq<char>, version: Seq<char>) -> Seq<char> {
    joined_all(
        libraries,
        seq!["net"@, "neoforged"@, "neoforge"@, version, "neoforge-"@ + version + "-universal.jar"@],
    )
}

/// The game resources split out of the client, by NeoForm version.
pub open spec fn extra_jar_path(libraries: Seq<char>, neoform: Seq<char>) -> Seq<char> {
    joined_all(libraries, seq!["net"@, "minecraft"@, "client"@, neoform, "client-"@ + neoform + "-extra.jar"@])
}

fn five(a: &str, b: &str, c: &str, d: &str, e: String) -> (r: Vec<String>)
    ensures
        r.deep_view() == seq![a@, b@, c@, d@, e@],
{
    let v = vec![a.to_owned(), b.to_owned(), c.to_owned(), d.to_owned(), e];
    assert(v.deep_view() =~= seq![a@, b@, c@, d@, e@]);
    v
}

/// Where the patched NeoForge client of `version` is cached.
pub fn neoforge_patched_client(libraries_dir: &str, version: &str) -> (r: String)
    ensures
        r@ == patched_client_path(libraries_dir@, version@),
{
    let mut file = text::concat2("minecraft-client-patched-", version);
    text::push_str(&mut file, ".jar");
    let segs = five("net", "neoforged", "minecraft-client-patched", version, file);
    join_all(libraries_dir, &segs)
}

/// Where the NeoForge universal JAR of `version` is cached.
pub fn neoforge_universal_jar(libraries_dir: &str, version: &str) -> (r: String)
    ensures
        r@ == universal_jar_path(libraries_dir@, version@),
{
    let mut file = text::concat2("neoforge-", version);
    text::push_str(&mut file, "-universal.jar");
    let segs = five("net", "neoforged", "neoforge", version, file);
    join_all(libraries_dir, &segs)
}

/// Where the client resources JAR of a NeoForm version are cached.
pub fn neoforge_extra_jar(libraries_dir: &str, neoform: &str) -> (r: String)
    ensures
        r@ == extra_jar_path(libraries_dir@, neoform@),
{
    let mut file = text::concat2("client-", neoform);
    text::push_str(&mut file, "-extra.jar");
    let segs = five("net", "minecraft", "client", neoform, file);
    join_all(libraries_dir, &segs)
}

// ---------------------------------------------------------------------------
// Assembly
// ---------------------------------------------------------------------------

/// Whether the vanilla client JAR leads the class path: for every loader
/// but NeoForge, which uses its patched client instead, unless a NeoForge
/// launch finds no patched client and falls back to the vanilla one.
pub open spec fn client_leads(neoforge_loader: bool, neoforge_launch: bool, patched_client_present: bool) -> bool {
    !neoforge_loader || (neoforge_launch && !patched_client_present)
}

/// The collected class path entries, before duplicates are removed: the
/// client JAR when it leads, then the loader's libraries, then the base
/// game's libraries.
pub open spec fn collected_entries(
    client_jar: Seq<char>,
    leads: bool,
    loader: Seq<Seq<char>>,
    base: Seq<Seq<char>>,
) -> Seq<Seq<char>> {
    (if leads {
        seq![client_jar]
    } else {
        Seq::empty()
    }) + loader + base
}

/// The class path of a launch: the collected entries (client JAR when it
/// leads, loader libraries, base libraries) with every entry whose Maven
/// coordinate appeared earlier dropped, then the NeoForge game JARs
/// (`deferred`, kept whole: the patched client and the universal JAR share
/// a coordinate), joined by `sep`.
pub fn assemble_classpath(
    client_jar: &str,
    neoforge_loader: bool,
    neoforge_launch: bool,
    patched_client_present: bool,
    loader: &Vec<String>,
    base: &Vec<String>,
    deferred: &Vec<String>,
    sep: &str,
) -> (r: String)
    ensures
        r@ == text::join(
            launch_args::first_per_coordinate(
                collected_entries(
                    client_jar@,
                    client_leads(neoforge_loader, neoforge_launch, patched_client_present),
                    loader.deep_view(),
                    base.deep_view(),
                ),
            ) + deferred.deep_view(),
            sep@,
        ),
{
    let leads = !neoforge_loader || (neoforge_launch && !patched_client_present);
    let mut entries: Vec<String> = Vec::new();
    if leads {
        entries.push(client_jar.to_owned());
    }
    let ghost head = entries.deep_view();
    let mut i: usize = 0;
    while i < loader.len()
        invariant
            i <= loader@.len(),
            entries.deep_view() == head + loader.deep_view().take(i as int),
        decreases loader@.len() - i,
    {
        entries.push(loader[i].clone());
        assert(head + loader.deep_view().take(i + 1) =~= (head + loader.deep_view().take(i as int)).push(loader@[i as int]@));
        i += 1;
    }
    assert(loader.deep_view().take(i as int) =~= loader.deep_view());
    let ghost mid = entries.deep_view();
    let mut j: usize = 0;
    while j < base.len()
        invariant
            j <= base@.len(),
            entries.deep_view() == mid + base.deep_view().take(j as int),
        decreases base@.len() - j,
    {
        entries.push(base[j].clone());
        assert(mid + base.deep_view().take(j + 1) =~= (mid + base.deep_view().take(j as int)).push(base@[j as int]@));
        j += 1;
    }
    assert(base.deep_view().take(j as int) =~= base.deep_view());
    assert(entries.deep_view() =~= collected_entries(client_jar@, leads, loader.deep_view(), base.deep_view()));
    launch_args::finish_classpath(&entries, deferred, sep)
}

proof fn lemma_first_entry_kept(e: Seq<Seq<char>>)
    requires
        e.len() > 0,
    ensures
        launch_args::first_per_coordinate(e).len() > 0,
        launch_args::first_per_coordinate(e)[0] == e[0],
    decreases e.len(),
{
    let prev = e.drop_last();
    let f = launch_args::first_per_coordinate(prev);
    if e.len() > 1 {
        lemma_first_entry_kept(prev);
        assert(prev[0] == e[0]);
        if exists|j: int| 0 <= j < prev.len() && launch_args::coordinate_key(prev[j]) == launch_args::coordinate_key(e.last()) {
            assert(launch_args::first_per_coordinate(e) == f);
        } else {
            assert(launch_args::first_per_coordinate(e) == f.push(e.last()));
            assert(f.push(e.last())[0] == f[0]);
        }
    } else {
        assert(prev.len() == 0);
        assert(f =~= Seq::<Seq<char>>::empty());
        assert(launch_args::first_per_coordinate(e) == f.push(e.last()));
        assert(e.last() == e[0]);
    }
}

proof fn lemma_first_of_key_kept(e: Seq<Seq<char>>, i: int)
    requires
        0 <= i < e.len(),
        forall|j: int| 0 <= j < i ==> launch_args::coordinate_key(#[trigger] e[j]) != launch_args::coordinate_key(e[i]),
    ensures
        launch_args::first_per_coordinate(e).contains(e[i]),
    decreases e.len(),
{
    let prev = e.drop_last();
    if i < e.len() - 1 {
        assert forall|j: int| 0 <= j < i implies launch_args::coordinate_key(#[trigger] prev[j])
            != launch_args::coordinate_key(prev[i]) by {
            assert(prev[j] == e[j]);
        }
        lemma_first_of_key_kept(prev, i);
        let f = launch_args::first_per_coordinate(prev);
        let k = choose|k: int| 0 <= k < f.len() && f[k] == e[i];
        if exists|j: int| 0 <= j < prev.len() && launch_args::coordinate_key(prev[j]) == launch_args::coordinate_key(e.last()) {
            assert(launch_args::first_per_coordinate(e) == f);
        } else {
            assert(launch_args::first_per_coordinate(e) == f.push(e.last()));
            assert(f.push(e.last())[k] == e[i]);
        }
    } else {
        assert(!exists|j: int| 0 <= j < prev.len() && launch_args::coordinate_key(prev[j]) == launch_args::coordinate_key(e.last())) by {
            assert forall|j: int| 0 <= j < prev.len() implies launch_args::coordinate_key(prev[j]) != launch_args::coordinate_key(e.last()) by {
                assert(prev[j] == e[j]);
            }
        }
        let f = launch_args::first_per_coordinate(prev);
        assert(launch_args::first_per_coordinate(e) == f.push(e.last()));
        assert(f.push(e.last())[f.len() as int] == e[i]);
    }
}

/// The class path's order: the client JAR, when it leads, stays first; and
/// the first entry of each Maven coordinate is the one kept, so a loader
/// library wins over a base-game library of the same coordinate (and the
/// client JAR over both). Together with the assembly's contract, the loader
/// libraries come before the base ones and the NeoForge game JARs last.
pub proof fn law_classpath_order(
    client_jar: Seq<char>,
    leads: bool,
    loader: Seq<Seq<char>>,
    base: Seq<Seq<char>>,
    i: int,
)
    requires
        0 <= i < collected_entries(client_jar, leads, loader, base).len(),
        forall|j: int|
            0 <= j < i ==> launch_args::coordinate_key(#[trigger] collected_entries(client_jar, leads, loader, base)[j])
                != launch_args::coordinate_key(collected_entries(client_jar, leads, loader, base)[i]),
    ensures
        leads ==> launch_args::first_per_coordinate(collected_entries(client_jar, leads, loader, base))[0] == client_jar,
        launch_args::first_per_coordinate(collected_entries(client_jar, leads, loader, base)).contains(
            collected_entries(client_jar, leads, loader, base)[i],
        ),
{
    let e = collected_entries(client_jar, leads, loader, base);
    if leads {
        lemma_first_entry_kept(e);
        assert(e[0] == client_jar);
    }
    lemma_first_of_key_kept(e, i);
}

} // verus!
