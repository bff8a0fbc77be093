//! Command line arguments of the server.
use vstd::prelude::*;

verus! {

/// The parsed command line.
pub struct Cli {
    /// `-c`/`--config-path FILE`: the configuration file.
    pub config_path: Option<String>,
    pub subcommand: Option<CliSubcommands>,
}

/// What to do instead of serving.
pub enum CliSubcommands {
    /// Create the database tables.
    InitDatabase,
}

} // verus!
