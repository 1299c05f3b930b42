//! Bedrock Dedicated Server download links and runtime layout.
use vstd::prelude::*;
use crate::paths;
use crate::text;

verus! {

/// The download link of the Windows Bedrock Dedicated Server `version`.
pub fn bds_url_for(version: &str) -> (r: String)
    ensures
        r@ == "https://www.minecraft.net/bedrockdedicatedserver/bin-win/bedrock-server-"@ + version@ + ".zip"@,
{
    let mut s = "https://www.minecraft.net/bedrockdedicatedserver/bin-win/bedrock-server-".to_owned();
    text::push_str(&mut s, version);
    text::push_str(&mut s, ".zip");
    s
}

/// The directory holding a server's runtime state (its PID file).
pub fn runtime_dir(server_dir: &str) -> (r: String)
    ensures
        r@ == paths::joined(server_dir@, "runtime"@),
{
    paths::join(server_dir, "runtime")
}

} // verus!
