use vstd::prelude::*;

verus! {

/// The command line of the tool.
#[derive(Debug, Clone)]
pub struct CliArgs {
    /// Path to the configuration file.
    pub config_path: String,
    /// In dry-run mode the transactions are built and simulated, never sent.
    pub dry_run: bool,
}

} // verus!
