//! Native library loading through a small Java agent: the agent jar's
//! manifest.
use vstd::prelude::*;

verus! {

/// Manifest of the agent jar: the JVM needs both entry-point attributes.
pub const AGENT_MANIFEST: &'static str = "Manifest-Version: 1.0\r\nPremain-Class: NativeLoaderAgent\r\nAgent-Class: NativeLoaderAgent\r\n\r\n";

/// Name of the agent class inside the jar.
pub const AGENT_CLASS_ENTRY: &'static str = "NativeLoaderAgent.class";

/// Name of the manifest entry inside the jar.
pub const MANIFEST_ENTRY: &'static str = "META-INF/MANIFEST.MF";

} // verus!
