//! The recipe a workspace is provisioned from, and the choice of backend.
use vstd::prelude::*;
use crate::env::{allowed_env, allowed_only, merge_env, EnvVar};
use crate::error::WorkspaceError;
use crate::paths::{effective_dir, file_location, locate_file, working_directory};
use crate::repository::{Repository, RepositoryView};
use crate::text::{decimal, decimal_text, same_text};

verus! {

/// What to provision: a name, the repositories to check out, in order, and
/// the script that prepares them.
#[derive(Debug, Clone)]
pub struct WorkspaceContext {
    /// Shows up in container names and logs.
    pub name: String,
    /// Cloned in this order; a later one may rely on an earlier one.
    pub repositories: Vec<Repository>,
    /// Shell text, run once after the repositories are in place.
    pub setup_script: String,
}

/// A context as contracts speak of it.
pub struct WorkspaceContextView {
    pub name: Seq<char>,
    pub repositories: Seq<RepositoryView>,
    pub setup_script: Seq<char>,
}

impl View for WorkspaceContext {
    type V = WorkspaceContextView;

    open spec fn view(&self) -> WorkspaceContextView {
        WorkspaceContextView {
            name: self.name@,
            repositories: self.repositories.deep_view(),
            setup_script: self.setup_script@,
        }
    }
}

/// The backend that workspaces are made on.
#[derive(Debug, Clone, Copy, PartialEq, Eq, Structural)]
pub enum ProvisioningMode {
    /// A directory on this machine.
    Local,
    /// A container.
    Docker,
}

/// How the gateway is served.
#[derive(Debug, Clone, Copy, PartialEq, Eq, Structural)]
pub enum ServerMode {
    Http,
    Nats,
}

/// What an unknown provisioning mode answers.
pub open spec fn unsupported_provisioning_text(mode: Seq<char>) -> Seq<char> {
    "Unsupported provisioning mode: "@ + mode
}

/// What an unknown server mode answers.
pub open spec fn unsupported_server_text(mode: Seq<char>) -> Seq<char> {
    "Unsupported server mode: "@ + mode
}

/// Reads the provisioning mode: `local` or `docker`, nothing else.
pub fn get_provider(provisioning_mode: &str) -> (r: Result<ProvisioningMode, WorkspaceError>)
    ensures
        if provisioning_mode@ == "local"@ {
            r == Ok::<ProvisioningMode, WorkspaceError>(ProvisioningMode::Local)
        } else if provisioning_mode@ == "docker"@ {
            r == Ok::<ProvisioningMode, WorkspaceError>(ProvisioningMode::Docker)
        } else {
            r matches Err(WorkspaceError::Validation(m)) && m@ == unsupported_provisioning_text(
                provisioning_mode@,
            )
        },
{
    if same_text(provisioning_mode, "local") {
        Ok(ProvisioningMode::Local)
    } else if same_text(provisioning_mode, "docker") {
        Ok(ProvisioningMode::Docker)
    } else {
        let mut text = String::from_str("Unsupported provisioning mode: ");
        text.append(provisioning_mode);
        Err(WorkspaceError::Validation(text))
    }
}

/// Reads the server mode: `http` or `nats`, nothing else.
pub fn server_mode(mode: &str) -> (r: Result<ServerMode, WorkspaceError>)
    ensures
        if mode@ == "http"@ {
            r == Ok::<ServerMode, WorkspaceError>(ServerMode::Http)
        } else if mode@ == "nats"@ {
            r == Ok::<ServerMode, WorkspaceError>(ServerMode::Nats)
        } else {
            r matches Err(WorkspaceError::Validation(m)) && m@ == unsupported_server_text(mode@)
        },
{
    if same_text(mode, "http") {
        Ok(ServerMode::Http)
    } else if same_text(mode, "nats") {
        Ok(ServerMode::Nats)
    } else {
        let mut text = String::from_str("Unsupported server mode: ");
        text.append(mode);
        Err(WorkspaceError::Validation(text))
    }
}

/// The directory a local workspace lives in: `tmp` below the current
/// directory, then the workspace's name, a hyphen and the process id.
pub open spec fn local_root(current_dir: Seq<char>, name: Seq<char>, pid: u32) -> Seq<char> {
    file_location(current_dir, Some("tmp"@), name + "-"@ + decimal_text(pid as nat))
}

/// Provisions workspaces in directories of this machine.
#[derive(Debug, Clone, Copy)]
pub struct LocalTempSyncProvider {}

impl LocalTempSyncProvider {
    /// A provider for this machine; it holds nothing.
    pub fn new() -> LocalTempSyncProvider {
        LocalTempSyncProvider {  }
    }

    /// Where the workspace named `name` lives.
    pub fn workspace_root(&self, current_dir: &str, name: &str, pid: u32) -> (root: String)
        ensures
            root@ == local_root(current_dir@, name@, pid),
    {
        let mut leaf = String::from_str(name);
        leaf.append("-");
        leaf.append(decimal(pid as u64).as_str());
        locate_file(current_dir, Some("tmp"), leaf.as_str())
    }

    /// Where a repository's checkout lies below the workspace root.
    pub fn repository_path(&self, root: &str, repository: &Repository) -> (path: String)
        ensures
            path@ == file_location(root@, None, repository.path@),
    {
        locate_file(root, None, repository.path.as_str())
    }
}

/// What the controller of a local workspace knows: the directory the
/// workspace lives in, and the host's variables that its commands may see.
#[derive(Debug, Clone)]
pub struct LocalTempSyncController {
    pub path: String,
    pub whitelisted_env: Vec<EnvVar>,
}

impl LocalTempSyncController {
    /// The controller of the workspace named `name`, for the process `pid`
    /// working in `current_dir` with the variables `host`.
    pub fn initialize(current_dir: &str, name: &str, pid: u32, host: &Vec<EnvVar>) -> (controller:
        LocalTempSyncController)
        ensures
            controller.path@ == local_root(current_dir@, name@, pid),
            controller.whitelisted_env.deep_view() == allowed_only(host.deep_view()),
    {
        LocalTempSyncController {
            path: LocalTempSyncProvider::new().workspace_root(current_dir, name, pid),
            whitelisted_env: allowed_env(host),
        }
    }

    /// The directory a command runs in. A working directory is taken
    /// relative to the workspace's directory; slashes at its start are
    /// dropped, so that `/x` and `x` name the same directory and none lies
    /// outside the workspace.
    pub fn path(&self, working_dir: Option<&str>) -> (dir: String)
        ensures
            dir@ == effective_dir(
                self.path@,
                match working_dir {
                    Some(d) => Some(d@),
                    None => None,
                },
            ),
    {
        working_directory(self.path.as_str(), working_dir)
    }

    /// Where a file lies in the workspace.
    pub fn file(&self, file: &str, working_dir: Option<&str>) -> (location: String)
        ensures
            location@ == file_location(
                self.path@,
                match working_dir {
                    Some(d) => Some(d@),
                    None => None,
                },
                file@,
            ),
    {
        locate_file(self.path.as_str(), working_dir, file)
    }

    /// The variables a command runs with: the allowed ones of the host, and
    /// on top of them the caller's.
    pub fn environment(&self, env: &Vec<EnvVar>) -> (merged: Vec<EnvVar>)
        ensures
            merged.deep_view() == self.whitelisted_env.deep_view() + env.deep_view(),
    {
        merge_env(&self.whitelisted_env, env)
    }
}

} // verus!
