//! The commands of the `rix` command line.
use vstd::prelude::*;

verus! {

/// A parsed command line.
#[derive(Debug, Clone)]
pub struct Cli {
    pub command: Commands,
}

/// The commands of `rix`.
#[derive(Debug, Clone)]
pub enum Commands {
    /// Initialize a new declarative Nix environment profile layout
    Init,
    /// Install upstream packages directly
    Install { packages: Vec<String>, group: String, description: Option<String> },
    /// Search online package indices via the flake registry
    Search { query: String },
    /// Remove packages
    Remove { packages: Vec<String> },
    /// Purge an entire package profile group file
    Purge { group: String },
    /// Update local channel indices
    Update,
    /// Detect hardware and update the NixGL lock file
    Refresh,
    /// Upgrade environment generations to match the declarations
    Upgrade { dry_run: bool },
    /// List all managed packages across groups
    List,
    /// Sweep the Nix store to reclaim disk space
    Clean { deep: bool },
    /// View the history of environment states
    History,
    /// Revert the environment to a previous state
    Rollback { version: Option<String> },
    /// Sync the declarative state to an upstream Git repository
    Sync { remote_url: Option<String> },
    /// Native Nix-style profile manipulation
    Profile(ProfileCommands),
}

/// The `rix profile` subcommands.
#[derive(Debug, Clone)]
pub enum ProfileCommands {
    /// Add an installable target (e.g. `nixpkgs#eza@system`)
    Add { installable: String, description: Option<String> },
    /// Remove an installable target
    Remove { installable: String },
}

/// The commands that change or read the system scope's state and so run
/// with root privileges when the scope is the system's.
pub open spec fn privileged(c: Commands) -> bool {
    match c {
        Commands::Install { .. } | Commands::Remove { .. } | Commands::Purge { .. }
        | Commands::Update | Commands::Refresh | Commands::Upgrade { .. } | Commands::History
        | Commands::Rollback { .. } => true,
        _ => false,
    }
}

/// Whether Rix must restart itself through `sudo` before it runs a
/// command: a privileged command on the system scope, run by another user
/// than root.
pub fn needs_elevation(command: &Commands, is_system: bool, is_root: bool) -> (b: bool)
    ensures
        b == (privileged(*command) && is_system && !is_root),
{
    let p = match command {
        Commands::Install { .. } | Commands::Remove { .. } | Commands::Purge { .. }
        | Commands::Update | Commands::Refresh | Commands::Upgrade { .. } | Commands::History
        | Commands::Rollback { .. } => true,
        _ => false,
    };
    p && is_system && !is_root
}

} // verus!
