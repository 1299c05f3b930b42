use vstd::prelude::*;

pub mod text;
pub mod log_parser;
pub mod crash_analyzer;
pub mod collector;
pub mod despotes;
pub mod prismate;
pub mod refract;
pub mod aprism;
pub mod aprism_jdk;
pub mod props;
pub mod paths;
pub mod bedrock;
pub mod content;
pub mod modpack;
pub mod orchestration;
pub mod watchdog;
pub mod window;
pub mod oom_guard;
pub mod maven;
pub mod neoforge;
pub mod rcon;
pub mod client;
pub mod attach;
pub mod native_loader;
pub mod capture;
pub mod options;
pub mod flow;
pub mod lifecycle;
pub mod launcher;
pub mod launch_args;
pub mod capabilities;
pub mod agent_api;
pub mod digest;
pub mod server;
pub mod instance;
pub mod listing;
pub mod jar_files;
pub mod integrity;
pub mod loaders;
pub mod classpath;

verus! {
} // verus!
