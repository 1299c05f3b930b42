//! Fabric, Forge, Quilt and OptiFine installers: the versions they pick,
//! the URLs and library locations they use, and the ids of what they
//! install. Downloads are done by the caller.
use vstd::prelude::*;
use crate::text;
use crate::maven;

verus! {

pub const FABRIC_META_URL: &'static str = "https://meta.fabricmc.net/v2/versions";
pub const FABRIC_MAVEN_URL: &'static str = "https://maven.fabricmc.net/";
pub const MODRINTH_API_URL: &'static str = "https://api.modrinth.com/v2";
/// Modrinth project id of Fabric API.
pub const FABRIC_API_PROJECT_ID: &'static str = "P7dR8mSH";
pub const FORGE_MAVEN_URL: &'static str = "https://maven.minecraftforge.net/net/minecraftforge/forge";
pub const FORGE_METADATA_URL: &'static str = "https://maven.minecraftforge.net/net/minecraftforge/forge/maven-metadata.xml";

// ---------------------------------------------------------------------------
// Fabric
// ---------------------------------------------------------------------------

/// A Fabric loader version of the meta service.
#[derive(Debug, Clone)]
pub struct FabricLoaderVersion {
    pub version: String,
    pub stable: bool,
}

/// The Fabric installer, for a requested loader version.
pub struct FabricInstaller {
    pub version: Option<String>,
}

impl FabricInstaller {
    pub fn new(version: Option<String>) -> (f: Self)
        ensures
            f.version == version,
    {
        FabricInstaller { version }
    }
}

/// The first stable version of a listing (what `latest` means for Fabric).
pub open spec fn first_stable(v: Seq<FabricLoaderVersion>) -> Option<int>
    decreases v.len(),
{
    if v.len() == 0 {
        None
    } else if v[0].stable {
        Some(0int)
    } else {
        match first_stable(v.drop_first()) {
            Some(i) => Some(i + 1),
            None => None,
        }
    }
}

/// The newest stable Fabric loader version of a listing (newest first).
pub fn latest_stable_fabric(versions: &Vec<FabricLoaderVersion>) -> (r: Option<String>)
    ensures
        match first_stable(versions@) {
            Some(i) => r matches Some(s) && 0 <= i < versions@.len() && s@ == versions@[i].version@,
            None => r is None,
        },
{
    let mut i: usize = 0;
    assert(versions@.skip(0) =~= versions@);
    while i < versions.len()
        invariant
            i <= versions@.len(),
            first_stable(versions@) == match first_stable(versions@.skip(i as int)) {
                Some(j) => Some(j + i),
                None => None,
            },
        decreases versions@.len() - i,
    {
        assert(versions@.skip(i as int)[0] == versions@[i as int]);
        assert(versions@.skip(i as int).drop_first() =~= versions@.skip(i + 1));
        if versions[i].stable {
            return Some(versions[i].version.clone());
        }
        i += 1;
    }
    None
}

/// The meta-service URL of the launcher profile of a loader version.
pub fn fabric_profile_url(mc_version: &str, loader_version: &str) -> (r: String)
    ensures
        r@ == FABRIC_META_URL@ + "/loader/"@ + mc_version@ + "/"@ + loader_version@,
{
    let mut s = text::concat2(FABRIC_META_URL, "/loader/");
    text::push_str(&mut s, mc_version);
    text::push_str(&mut s, "/");
    text::push_str(&mut s, loader_version);
    s
}

/// The id of an installed Fabric loader version.
pub fn fabric_version_id(mc_version: &str, loader_version: &str) -> (r: String)
    ensures
        r@ == "fabric-loader-"@ + loader_version@ + "-"@ + mc_version@,
{
    let mut s = text::concat2("fabric-loader-", loader_version);
    text::push_str(&mut s, "-");
    text::push_str(&mut s, mc_version);
    s
}

/// The Modrinth query for the Fabric API builds of a Minecraft version.
pub fn fabric_api_query_url(mc_version: &str) -> (r: String)
    ensures
        r@ == MODRINTH_API_URL@ + "/project/"@ + FABRIC_API_PROJECT_ID@ + "/version?game_versions=[\""@ + mc_version@
            + "\"]&loaders=[\"fabric\"]"@,
{
    let mut s = text::concat2(MODRINTH_API_URL, "/project/");
    text::push_str(&mut s, FABRIC_API_PROJECT_ID);
    text::push_str(&mut s, "/version?game_versions=[\"");
    text::push_str(&mut s, mc_version);
    text::push_str(&mut s, "\"]&loaders=[\"fabric\"]");
    s
}

/// (relative path, download URL) of a Fabric library `group:artifact:version`
/// in a Maven repository (`repo_url`, Fabric's own when empty).
pub open spec fn fabric_library_of(name: Seq<char>, repo_url: Seq<char>) -> Option<(Seq<char>, Seq<char>)> {
    let parts = text::split_char(name, ':');
    if parts.len() != 3 {
        None
    } else {
        let rel = text::replace_char(parts[0], '.', "/"@) + "/"@ + parts[1] + "/"@ + parts[2] + "/"@ + parts[1] + "-"@
            + parts[2] + ".jar"@;
        let url = if repo_url.len() == 0 {
            FABRIC_MAVEN_URL@ + rel
        } else {
            maven::trim_end_char(repo_url, '/') + "/"@ + rel
        };
        Some((rel, url))
    }
}

pub open spec fn invalid_library_msg(name: Seq<char>) -> Seq<char> {
    "Invalid library name format: "@ + name
}

/// Where a Fabric library is stored (relative to the libraries directory)
/// and where it is downloaded from.
pub fn fabric_library_location(name: &str, repo_url: &str) -> (r: Result<(String, String), String>)
    ensures
        match fabric_library_of(name@, repo_url@) {
            Some(p) => r matches Ok(q) && q.0@ == p.0 && q.1@ == p.1,
            None => r matches Err(e) && e@ == invalid_library_msg(name@),
        },
{
    let c = text::chars_of(name);
    let parts = text::split_char_seq(c.as_slice(), ':');
    if parts.len() != 3 {
        return Err(text::concat2("Invalid library name format: ", name));
    }
    let slash = text::chars_of("/");
    let group = text::replace_char_seq(parts[0].as_slice(), '.', slash.as_slice());
    let mut rel = text::string_of(group.as_slice());
    text::push_str(&mut rel, "/");
    text::push_chars(&mut rel, parts[1].as_slice());
    text::push_str(&mut rel, "/");
    text::push_chars(&mut rel, parts[2].as_slice());
    text::push_str(&mut rel, "/");
    text::push_chars(&mut rel, parts[1].as_slice());
    text::push_str(&mut rel, "-");
    text::push_chars(&mut rel, parts[2].as_slice());
    text::push_str(&mut rel, ".jar");
    let url = if repo_url.is_empty() {
        text::concat2(FABRIC_MAVEN_URL, rel.as_str())
    } else {
        let rc = text::chars_of(repo_url);
        let t = maven::trim_end_char_seq(rc.as_slice(), '/');
        let mut u = text::string_of(t.as_slice());
        text::push_str(&mut u, "/");
        text::push_str(&mut u, rel.as_str());
        u
    };
    Ok((rel, url))
}

// ---------------------------------------------------------------------------
// Forge
// ---------------------------------------------------------------------------

/// The Forge installer, for a requested Forge version (`None`: latest).
pub struct ForgeInstaller {
    pub version: Option<String>,
}

impl ForgeInstaller {
    pub fn new(version: Option<String>) -> (f: Self)
        ensures
            f.version == version,
    {
        ForgeInstaller { version }
    }

    /// The requested version, `latest` when none was.
    pub fn version(&self) -> (r: &str)
        ensures
            r@ == match self.version {
                Some(v) => v@,
                None => "latest"@,
            },
    {
        match &self.version {
            Some(v) => v.as_str(),
            None => "latest",
        }
    }

    pub fn loader_type(&self) -> (r: &'static str)
        ensures
            r@ == "forge"@,
    {
        "forge"
    }
}

/// The Forge versions (`<mc>-<forge>`) of a Minecraft version in the
/// repository's version listing, in listing order.
pub fn forge_versions_for(listed: &Vec<String>, mc_version: &str) -> (r: Vec<String>)
    ensures
        r.deep_view() == listed.deep_view().filter(|v: Seq<char>| text::starts_with(v, mc_version@ + "-"@)),
{
    let ghost lv = listed.deep_view();
    let prefix = text::concat2(mc_version, "-");
    let pc = text::chars_of(prefix.as_str());
    let mut out: Vec<String> = Vec::new();
    let mut i: usize = 0;
    proof {
        reveal(Seq::filter);
        assert(lv.take(0) =~= Seq::<Seq<char>>::empty());
    }
    while i < listed.len()
        invariant
            i <= listed@.len(),
            lv == listed.deep_view(),
            pc@ == mc_version@ + "-"@,
            out.deep_view() == lv.take(i as int).filter(|v: Seq<char>| text::starts_with(v, mc_version@ + "-"@)),
        decreases listed@.len() - i,
    {
        proof { reveal(Seq::filter); }
        assert(lv.take(i + 1).drop_last() =~= lv.take(i as int));
        assert(lv.take(i + 1).last() == listed@[i as int]@);
        let vc = text::chars_of(listed[i].as_str());
        if text::starts_with_seq(vc.as_slice(), pc.as_slice()) {
            let ghost before = out.deep_view();
            out.push(listed[i].clone());
            assert(out.deep_view() =~= before.push(listed@[i as int]@));
        }
        i += 1;
    }
    assert(lv.take(i as int) =~= lv);
    out
}

/// The Forge version of a listed `<mc>-<forge>` entry.
pub fn forge_version_of_listed(listed: &str, mc_version: &str) -> (r: String)
    ensures
        r@ == match text::strip_prefix(listed@, mc_version@ + "-"@) {
            Some(v) => v,
            None => listed@,
        },
{
    let prefix = text::concat2(mc_version, "-");
    let lc = text::chars_of(listed);
    let pc = text::chars_of(prefix.as_str());
    match text::strip_prefix_seq(lc.as_slice(), pc.as_slice()) {
        Some(v) => text::string_of(v.as_slice()),
        None => listed.to_owned(),
    }
}

/// The installer JAR of a Forge version.
pub fn forge_installer_url(mc_version: &str, forge_version: &str) -> (r: String)
    ensures
        r@ == FORGE_MAVEN_URL@ + "/"@ + mc_version@ + "-"@ + forge_version@ + "/forge-"@ + mc_version@ + "-"@
            + forge_version@ + "-installer.jar"@,
{
    let mut s = text::concat2(FORGE_MAVEN_URL, "/");
    text::push_str(&mut s, mc_version);
    text::push_str(&mut s, "-");
    text::push_str(&mut s, forge_version);
    text::push_str(&mut s, "/forge-");
    text::push_str(&mut s, mc_version);
    text::push_str(&mut s, "-");
    text::push_str(&mut s, forge_version);
    text::push_str(&mut s, "-installer.jar");
    s
}

// ---------------------------------------------------------------------------
// Quilt
// ---------------------------------------------------------------------------

/// The Quilt installer, for a loader version (`latest` for the newest).
pub struct QuiltInstaller {
    pub version: String,
}

impl QuiltInstaller {
    pub fn new(version: String) -> (q: Self)
        ensures
            q.version == version,
    {
        QuiltInstaller { version }
    }

    pub fn version(&self) -> (r: &str)
        ensures
            r@ == self.version@,
    {
        self.version.as_str()
    }

    pub fn loader_type(&self) -> (r: &'static str)
        ensures
            r@ == "quilt"@,
    {
        "quilt"
    }
}

/// The meta-service URL of the launch profile of a Quilt loader version.
pub fn quilt_profile_url(mc_version: &str, loader_version: &str) -> (r: String)
    ensures
        r@ == "https://meta.quiltmc.org/v3/versions/loader/"@ + mc_version@ + "/"@ + loader_version@
            + "/profile/json"@,
{
    let mut s = text::concat2("https://meta.quiltmc.org/v3/versions/loader/", mc_version);
    text::push_str(&mut s, "/");
    text::push_str(&mut s, loader_version);
    text::push_str(&mut s, "/profile/json");
    s
}

/// The id of an installed Quilt loader version.
pub fn quilt_version_id(mc_version: &str, loader_version: &str) -> (r: String)
    ensures
        r@ == "quilt-loader-"@ + loader_version@ + "-"@ + mc_version@,
{
    let mut s = text::concat2("quilt-loader-", loader_version);
    text::push_str(&mut s, "-");
    text::push_str(&mut s, mc_version);
    s
}

// ---------------------------------------------------------------------------
// OptiFine
// ---------------------------------------------------------------------------

/// The OptiFine "installer": OptiFine's licence rules out downloading it,
/// so installing explains the manual steps.
pub struct OptiFineInstaller {
    pub version: String,
}

pub open spec fn optifine_steps_msg(version: Seq<char>, mc_version: Seq<char>, target_dir: Seq<char>) -> Seq<char> {
    "\nOptiFine installation requires manual steps:\n1. Download OptiFine "@ + version + " for Minecraft "@ + mc_version
        + " from https://optifine.net/downloads\n2. Place the OptiFine JAR in: "@ + target_dir
        + "/\n3. Run the launcher again\n\nOptiFine cannot be automatically downloaded due to licensing restrictions."@
}

impl OptiFineInstaller {
    pub fn new(version: String) -> (o: Self)
        ensures
            o.version == version,
    {
        OptiFineInstaller { version }
    }

    /// Installing OptiFine always fails with the manual steps.
    pub fn install(&self, mc_version: &str, target_dir: &str) -> (r: Result<String, String>)
        ensures
            r matches Err(e) && e@ == optifine_steps_msg(self.version@, mc_version@, target_dir@),
    {
        let mut m = "\nOptiFine installation requires manual steps:\n1. Download OptiFine ".to_owned();
        text::push_str(&mut m, self.version.as_str());
        text::push_str(&mut m, " for Minecraft ");
        text::push_str(&mut m, mc_version);
        text::push_str(&mut m, " from https://optifine.net/downloads\n2. Place the OptiFine JAR in: ");
        text::push_str(&mut m, target_dir);
        text::push_str(
            &mut m,
            "/\n3. Run the launcher again\n\nOptiFine cannot be automatically downloaded due to licensing restrictions.",
        );
        Err(m)
    }

    pub fn version(&self) -> (r: &str)
        ensures
            r@ == self.version@,
    {
        self.version.as_str()
    }

    pub fn loader_type(&self) -> (r: &'static str)
        ensures
            r@ == "optifine"@,
    {
        "optifine"
    }
}

} // verus!
