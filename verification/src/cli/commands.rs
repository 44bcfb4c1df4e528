//! The command line: the global options and the subcommands with their
//! arguments.

use vstd::prelude::*;

verus! {

/// The command line as given.
pub struct Cli {
    pub command: Option<Commands>,
    /// Increase verbosity.
    pub verbose: bool,
    /// Path to the configuration file.
    pub config: Option<String>,
}

/// The subcommands.
pub enum Commands {
    /// Perform a full backup of a device.
    Full { source: String, dest: String, label: Option<String>, block_size: u32 },
    /// Perform an incremental backup.
    Incremental { source: String, dest: String, label: Option<String>, block_size: u32 },
    /// Restore from a backup.
    Restore { source: String, target: String, point: Option<String> },
    /// List available backups.
    List { path: String, json: bool },
    /// Validate repository integrity.
    Check { path: String, repair: bool },
    /// Initialize a new backup repository.
    Init { path: String, key: Option<String>, compression_level: i32 },
    /// Display configuration information.
    Config { action: Option<ConfigCommands> },
}

/// The subcommands of `config`.
pub enum ConfigCommands {
    /// Show the current configuration.
    Show,
    /// Validate a configuration file.
    Validate { path: String },
}

} // verus!
