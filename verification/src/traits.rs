//! Commands by name, for callers that would rather not write shell.
use vstd::prelude::*;

verus! {

/// What a workspace can be asked to do.
#[non_exhaustive]
#[derive(Debug, Clone, PartialEq, Eq)]
pub enum Command {
    Git(GitCommands),
    Github(GithubCommands),
    File(FileCommands),
    Code(CodeCommands),
    UnsafeRaw(String),
}

#[non_exhaustive]
#[derive(Debug, Clone, PartialEq, Eq)]
pub enum GitCommands {
    Clone { url: String },
    Checkout { branch: String },
    Commit { commit_message: String },
    Reset,
    Push,
}

#[non_exhaustive]
#[derive(Debug, Clone, PartialEq, Eq)]
pub enum GithubCommands {
    CreatePullRequest { title: String, body: String },
}

#[non_exhaustive]
#[derive(Debug, Clone, PartialEq, Eq)]
pub enum FileCommands {
    Read { filename: String },
    Write { filename: String, body: String },
}

#[non_exhaustive]
#[derive(Debug, Clone, PartialEq, Eq)]
pub enum CodeCommands {
    Search { query: String },
    RunTests,
}

impl From<CodeCommands> for Command {
    fn from(value: CodeCommands) -> (command: Command) {
        Command::Code(value)
    }
}

impl vstd::std_specs::convert::FromSpecImpl<CodeCommands> for Command {
    open spec fn obeys_from_spec() -> bool {
        true
    }

    open spec fn from_spec(value: CodeCommands) -> Command {
        Command::Code(value)
    }
}

/// The shell text of a command. Arguments go in as they are; a raw command
/// is its own text.
pub open spec fn shell_text(cmd: Command) -> Seq<char> {
    match cmd {
        Command::Git(GitCommands::Commit { commit_message }) => "git commit -m "@
            + commit_message@,
        Command::Git(GitCommands::Clone { url }) => "git clone "@ + url@,
        Command::Git(GitCommands::Checkout { branch }) => "git checkout "@ + branch@,
        Command::Git(GitCommands::Reset) => "git reset"@,
        Command::Git(GitCommands::Push) => "git push"@,
        Command::Github(GithubCommands::CreatePullRequest { title, body }) => "gh pr create --title "@
            + title@ + " --body "@ + body@,
        Command::File(FileCommands::Read { filename }) => "cat "@ + filename@,
        Command::File(FileCommands::Write { filename, body }) => "echo "@ + body@ + " > "@
            + filename@,
        Command::Code(CodeCommands::Search { query }) => "grep -r "@ + query@ + " ."@,
        Command::Code(CodeCommands::RunTests) => "cargo test"@,
        Command::UnsafeRaw(raw) => raw@,
    }
}

/// Writes a command as shell text.
pub fn command_to_shell_string(cmd: &Command) -> (text: String)
    ensures
        text@ == shell_text(*cmd),
{
    match cmd {
        Command::Git(GitCommands::Commit { commit_message }) => {
            let mut text = String::from_str("git commit -m ");
            text.append(commit_message.as_str());
            text
        },
        Command::Git(GitCommands::Clone { url }) => {
            let mut text = String::from_str("git clone ");
            text.append(url.as_str());
            text
        },
        Command::Git(GitCommands::Checkout { branch }) => {
            let mut text = String::from_str("git checkout ");
            text.append(branch.as_str());
            text
        },
        Command::Git(GitCommands::Reset) => String::from_str("git reset"),
        Command::Git(GitCommands::Push) => String::from_str("git push"),
        Command::Github(GithubCommands::CreatePullRequest { title, body }) => {
            let mut text = String::from_str("gh pr create --title ");
            text.append(title.as_str());
            text.append(" --body ");
            text.append(body.as_str());
            text
        },
        Command::File(FileCommands::Read { filename }) => {
            let mut text = String::from_str("cat ");
            text.append(filename.as_str());
            text
        },
        Command::File(FileCommands::Write { filename, body }) => {
            let mut text = String::from_str("echo ");
            text.append(body.as_str());
            text.append(" > ");
            text.append(filename.as_str());
            text
        },
        Command::Code(CodeCommands::Search { query }) => {
            let mut text = String::from_str("grep -r ");
            text.append(query.as_str());
            text.append(" .");
            text
        },
        Command::Code(CodeCommands::RunTests) => String::from_str("cargo test"),
        Command::UnsafeRaw(raw) => raw.clone(),
    }
}

} // verus!
