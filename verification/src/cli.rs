//! Process-level options and the immutable per-process context.
use crate::config::Config;
use vstd::prelude::*;

verus! {

/// The command-line surface: all simple flags with defaults.
#[derive(Debug)]
pub struct Cli {
    /// The working directory the configuration and static files live in.
    pub work_dir: String,
    /// Whether the upload endpoint is enabled.
    pub up_file: bool,
    /// The port to listen on.
    pub port: u16,
    /// Whether every request is logged in full.
    pub verbose: bool,
    /// The path prefix static files are served under.
    pub static_prefix: String,
}

impl Default for Cli {
    /// The defaults: current directory, no upload endpoint, port 8080,
    /// quiet, static files under "static".
    fn default() -> (r: Self)
        ensures
            r.work_dir@ == "."@,
            r.up_file == false,
            r.port == 8080,
            r.verbose == false,
            r.static_prefix@ == "static"@,
    {
        Cli {
            work_dir: ".".to_owned(),
            up_file: false,
            port: 8080,
            verbose: false,
            static_prefix: "static".to_owned(),
        }
    }
}

/// The immutable context constructed once at startup and shared read-only
/// by every request handler.
pub struct Global {
    pub conf: Config,
    pub verbose: bool,
    pub work_dir: String,
}

} // verus!
