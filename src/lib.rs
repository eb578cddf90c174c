//! A personal command-alias manager: short names mapped to shell commands,
//! kept in a JSON file, resolved and handed to an interactive shell.
pub mod alias;
pub mod cli;
pub mod launch;
pub mod store;
pub mod text;

pub use alias::Aliases;
pub use cli::Cli;
