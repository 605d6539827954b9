//! Workspaces for automation: isolated places in which commands run and
//! files are read and written, provisioned from a recipe and kept in a
//! registry. This crate holds the rules: which commands bring a workspace
//! into being, how a cached image is named and found, where a path lands,
//! what an exit code means, what may be logged. Running the commands is left
//! to the caller.
pub mod cache;
pub mod config;
pub mod controller;
pub mod encoding;
pub mod env;
pub mod error;
pub mod github;
pub mod http_server;
pub mod messaging;
pub mod paths;
pub mod provider;
pub mod repository;
pub mod scrub;
pub mod server;
pub mod text;
pub mod traits;
pub mod trusted;
pub mod workspace;

pub use config::config;
pub use controller::CommandOutput;
pub use error::WorkspaceError;
pub use provider::{get_provider, WorkspaceContext};
pub use repository::Repository;
pub use server::Server;
pub use workspace::WorkspaceInner;
