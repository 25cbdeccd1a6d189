//! The command line: subcommands and their arguments, and what the commands
//! compute before they touch files or print.
use vstd::prelude::*;
use std::path::PathBuf;

pub mod config;
pub mod setup;
pub mod skills;

verus! {

/// The subcommands.
#[derive(Debug)]
pub enum Command {
    /// Start the HTTP proxy server (also what runs without a subcommand).
    Serve(setup::ServeArgs),
    /// Set up integrations (opencode, MCP, config scaffold).
    Setup { action: SetupAction },
    /// Manage skills.
    Skills { action: SkillsAction },
    /// Show configuration.
    Config { action: ConfigAction },
}

/// `setup` actions.
#[derive(Debug)]
pub enum SetupAction {
    /// Write the opencode provider config for this proxy.
    Opencode(setup::SetupOpencodeArgs),
    /// Write MCP server config.
    Mcp(setup::SetupMcpArgs),
    /// Scaffold `config.toml` with defaults.
    Config,
}

/// `skills` actions.
#[derive(Debug)]
pub enum SkillsAction {
    /// List the skills found in the configured directories.
    List(skills::SkillsListArgs),
    /// Validate the skill manifests of a directory.
    Validate(skills::SkillsValidateArgs),
    /// Test skill selection for a message.
    Test(skills::SkillsTestArgs),
}

/// `config` actions.
#[derive(Debug)]
pub enum ConfigAction {
    /// Print the resolved config.
    Show,
    /// Print the config file path.
    Path,
}

} // verus!
