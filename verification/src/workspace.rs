//! The Git life of a workspace: which commands bring a checkout into being,
//! refresh it, and carry work out of it. Nothing here runs a command; each
//! function says what is to be run, and the caller hands it to a controller.
use vstd::prelude::*;
use crate::repository::Repository;
use crate::text::{decimal, decimal_text, join, joined, trim, trimmed};
use crate::trusted::{
    fresh_uuid, is_hex_digit, is_uuid_text, shell_escape, shell_quoted, shell_safe_char,
};

verus! {

/// Prints the name of the branch that `origin/HEAD` points to.
pub const MAIN_BRANCH_CMD: &'static str =
    "git symbolic-ref refs/remotes/origin/HEAD | sed 's@^refs/remotes/origin/@@'";

/// The command whose success shows that the workspace holds a checkout.
pub const REPOSITORY_EXISTS_CMD: &'static str = "ls -A .git";

/// Who signs the commits made in a workspace.
#[derive(Debug, Clone, PartialEq, Eq)]
pub struct GitIdentity {
    pub email: String,
    pub name: String,
}

/// The account that the Git-hosting service reports for this application.
#[derive(Debug, Clone, PartialEq, Eq)]
pub struct HostingUser {
    pub id: u64,
    pub login: String,
}

/// What the Git-hosting service needs to open a merge request.
#[derive(Debug, Clone, PartialEq, Eq)]
pub struct MergeRequest {
    pub repo_url: String,
    pub head_branch: String,
    pub base_branch: String,
    pub title: String,
    pub body: String,
}

/// The address under which the hosting service files a bot's commits.
pub open spec fn bot_email(id: nat, login: Seq<char>) -> Seq<char> {
    decimal_text(id) + "+"@ + login + "@users.noreply.github.com"@
}

/// The two commands that set the committer for a checkout.
pub open spec fn configure_commands(email: Seq<char>, name: Seq<char>) -> Seq<Seq<char>> {
    seq![
        "git config user.email \""@ + email + "\""@,
        "git config user.name \""@ + name + "\""@,
    ]
}

/// Clones `url` into the workspace root.
pub open spec fn clone_command(url: Seq<char>) -> Seq<char> {
    "git clone "@ + shell_quoted(url) + " ."@
}

/// Points `origin` at `url`.
pub open spec fn update_remote_command(url: Seq<char>) -> Seq<char> {
    "git remote set-url origin "@ + shell_quoted(url)
}

/// Throws local changes away and returns to the default branch.
pub open spec fn clean_commands() -> Seq<Seq<char>> {
    seq![
        "git reset --hard"@,
        "git clean -fd"@,
        "git fetch origin"@,
        "git checkout $("@ + MAIN_BRANCH_CMD@ + ")"@,
    ]
}

/// Everything `init` runs after the controller is up. A checkout that is
/// already there is configured, has its remote refreshed and is cleaned; a
/// missing one is cloned and then configured.
pub open spec fn init_commands(url: Seq<char>, present: bool, email: Seq<char>, name: Seq<char>) -> Seq<
    Seq<char>,
> {
    if present {
        configure_commands(email, name) + seq![update_remote_command(url)] + clean_commands()
    } else {
        seq![clone_command(url)] + configure_commands(email, name)
    }
}

/// The name a new branch gets: the requested one as the shell must be given
/// it, or a generated one built on `unique`.
pub open spec fn branch_name_text(requested: Option<Seq<char>>, unique: Seq<char>) -> Seq<char> {
    match requested {
        Some(name) => shell_quoted(name),
        None => "generated/"@ + unique,
    }
}

/// Creates the branch `name` and switches to it.
pub open spec fn switch_command(name: Seq<char>) -> Seq<char> {
    "git switch -c "@ + name
}

/// A file as `git add` is given it: its name, shell-quoted.
pub open spec fn staged_file(file: Seq<char>) -> Seq<char> {
    shell_quoted(file)
}

/// Each file as `git add` is given it, in order.
pub open spec fn staged_files(files: Seq<Seq<char>>) -> Seq<Seq<char>> {
    Seq::new(files.len(), |i: int| staged_file(files[i]))
}

/// Stages the listed files, or everything when none are listed.
pub open spec fn add_command(files: Option<Seq<Seq<char>>>) -> Seq<char> {
    match files {
        Some(files) => "git add "@ + joined(staged_files(files), " "@),
        None => "git add ."@,
    }
}

/// Stages, then commits with `message`.
pub open spec fn commit_commands(message: Seq<char>, files: Option<Seq<Seq<char>>>) -> Seq<
    Seq<char>,
> {
    seq![add_command(files), "git commit -m "@ + shell_quoted(message)]
}

/// Pushes the current commit to `target` on `origin`.
pub open spec fn push_command(target: Seq<char>) -> Seq<char> {
    "git push origin HEAD:"@ + shell_quoted(target)
}

/// The identity of the hosting service's bot account.
pub fn bot_identity(user: &HostingUser) -> (identity: GitIdentity)
    ensures
        identity.email@ == bot_email(user.id as nat, user.login@),
        identity.name@ == user.login@,
{
    let mut email = decimal(user.id);
    email.append("+");
    email.append(user.login.as_str());
    email.append("@users.noreply.github.com");
    GitIdentity { email, name: user.login.clone() }
}

/// The identity used where no hosting service is at hand.
pub fn default_identity() -> (identity: GitIdentity)
    ensures
        identity.email@ == "swabbie@bosun.ai"@,
        identity.name@ == "Swabbie"@,
{
    GitIdentity { email: String::from_str("swabbie@bosun.ai"), name: String::from_str("Swabbie") }
}

/// The bot's identity where the hosting service named one, the default otherwise.
pub fn identity_for(user: Option<&HostingUser>) -> (identity: GitIdentity)
    ensures
        match user {
            Some(u) => identity.email@ == bot_email(u.id as nat, u.login@) && identity.name@
                == u.login@,
            None => identity.email@ == "swabbie@bosun.ai"@ && identity.name@ == "Swabbie"@,
        },
{
    match user {
        Some(u) => bot_identity(u),
        None => default_identity(),
    }
}

/// The commands that make `identity` the committer.
pub fn configure_git(identity: &GitIdentity) -> (plan: Vec<String>)
    ensures
        plan.deep_view() == configure_commands(identity.email@, identity.name@),
{
    let mut plan: Vec<String> = Vec::new();
    let mut email = String::from_str("git config user.email \"");
    email.append(identity.email.as_str());
    email.append("\"");
    plan.push(email);
    let mut name = String::from_str("git config user.name \"");
    name.append(identity.name.as_str());
    name.append("\"");
    plan.push(name);
    plan
}

/// The four commands that reset a checkout to its default branch.
pub fn clean_repository() -> (plan: Vec<String>)
    ensures
        plan.deep_view() == clean_commands(),
{
    let mut plan: Vec<String> = Vec::new();
    plan.push(String::from_str("git reset --hard"));
    plan.push(String::from_str("git clean -fd"));
    plan.push(String::from_str("git fetch origin"));
    let mut checkout = String::from_str("git checkout $(");
    checkout.append(MAIN_BRANCH_CMD);
    checkout.append(")");
    plan.push(checkout);
    plan
}

/// A generated name needs no quoting: `generated/` and an identifier made
/// of hexadecimal digits and hyphens is a word that the shell reads as
/// itself.
pub proof fn lemma_generated_name_is_safe(unique: Seq<char>)
    requires
        is_uuid_text(unique),
    ensures
        shell_quoted(branch_name_text(None, unique)) == branch_name_text(None, unique),
{
    reveal_strlit("generated/");
    let prefix = "generated/"@;
    let name = branch_name_text(None, unique);
    assert forall|i: int| 0 <= i < name.len() implies shell_safe_char(#[trigger] name[i]) by {
        if i < prefix.len() {
            assert(name[i] == prefix[i]);
            if i == 0 {
            } else if i == 1 {
            } else if i == 2 {
            } else if i == 3 {
            } else if i == 4 {
            } else if i == 5 {
            } else if i == 6 {
            } else if i == 7 {
            } else if i == 8 {
            } else {
            }
        } else {
            let c = unique[i - prefix.len()];
            assert(name[i] == c);
            assert(is_hex_digit(c) || c == '-');
        }
    }
}

/// The name for a new branch.
pub fn branch_name(requested: Option<&str>, unique: &str) -> (name: String)
    ensures
        name@ == branch_name_text(
            match requested {
                Some(n) => Some(n@),
                None => None,
            },
            unique@,
        ),
{
    match requested {
        Some(n) => shell_escape(n),
        None => {
            let mut name = String::from_str("generated/");
            name.append(unique);
            name
        },
    }
}

/// A live workspace's Git side: the repository it is bound to, with the URL
/// that the next clone or refresh will use.
#[derive(Debug)]
pub struct WorkspaceInner {
    pub repository: Repository,
}

impl WorkspaceInner {
    /// Binds a workspace to `repository`.
    pub fn new(repository: &Repository) -> (inner: WorkspaceInner)
        ensures
            inner.repository.url@ == repository.url@,
            inner.repository.path@ == repository.path@,
            inner.repository.reference == repository.reference,
    {
        WorkspaceInner {
            repository: Repository {
                url: repository.url.clone(),
                path: repository.path.clone(),
                reference: repository.reference.clone(),
            },
        }
    }

    /// Replaces the stored URL by one that carries a fresh credential.
    pub fn authenticate(&mut self, url_with_token: String)
        ensures
            final(self).repository.url == url_with_token,
            final(self).repository.path == old(self).repository.path,
            final(self).repository.reference == old(self).repository.reference,
    {
        self.repository.url = url_with_token;
    }

    /// Clones the bound repository into the workspace root.
    pub fn clone_repository(&self) -> (cmd: String)
        ensures
            cmd@ == clone_command(self.repository.url@),
    {
        let mut cmd = String::from_str("git clone ");
        cmd.append(shell_escape(self.repository.url.as_str()).as_str());
        cmd.append(" .");
        cmd
    }

    /// Points `origin` at the stored URL.
    pub fn update_remote(&self) -> (cmd: String)
        ensures
            cmd@ == update_remote_command(self.repository.url@),
    {
        let mut cmd = String::from_str("git remote set-url origin ");
        cmd.append(shell_escape(self.repository.url.as_str()).as_str());
        cmd
    }

    /// What `init` runs once the controller is up and the caller has seen
    /// whether a checkout is `present`.
    pub fn init(&self, present: bool, identity: &GitIdentity) -> (plan: Vec<String>)
        ensures
            plan.deep_view() == init_commands(
                self.repository.url@,
                present,
                identity.email@,
                identity.name@,
            ),
    {
        if present {
            let mut plan = configure_git(identity);
            plan.push(self.update_remote());
            let mut clean = clean_repository();
            let ghost before = plan.deep_view();
            let ghost tail = clean.deep_view();
            plan.append(&mut clean);
            proof {
                assert(plan.deep_view() =~= before + tail);
            }
            plan
        } else {
            let mut plan: Vec<String> = Vec::new();
            plan.push(self.clone_repository());
            let mut configure = configure_git(identity);
            let ghost before = plan.deep_view();
            let ghost tail = configure.deep_view();
            plan.append(&mut configure);
            proof {
                assert(plan.deep_view() =~= before + tail);
            }
            plan
        }
    }

    /// Names a new branch and says how to create it. Returns the name and the
    /// command. Without a requested name the branch is `generated/` and a
    /// fresh identifier, a name that the shell reads as it stands.
    pub fn create_branch(&self, maybe_name: Option<&str>) -> (r: (String, String))
        ensures
            r.1@ == switch_command(r.0@),
            match maybe_name {
                Some(n) => r.0@ == shell_quoted(n@),
                None => shell_quoted(r.0@) == r.0@ && (exists|unique: Seq<char>|
                    #![auto]
                    is_uuid_text(unique) && r.0@ == branch_name_text(None, unique)),
            },
    {
        let unique = fresh_uuid();
        let name = branch_name(maybe_name, unique.as_str());
        proof {
            if maybe_name is None {
                assert(is_uuid_text(unique@) && name@ == branch_name_text(None, unique@));
                lemma_generated_name_is_safe(unique@);
            }
        }
        let mut cmd = String::from_str("git switch -c ");
        cmd.append(name.as_str());
        (name, cmd)
    }

    /// Stages and commits. With `files` only those are staged, each quoted;
    /// without, everything is.
    pub fn commit(&self, message: &str, files: Option<&Vec<String>>) -> (plan: Vec<String>)
        ensures
            plan.deep_view() == commit_commands(
                message@,
                match files {
                    Some(f) => Some(f.deep_view()),
                    None => None,
                },
            ),
    {
        let mut plan: Vec<String> = Vec::new();
        match files {
            Some(files) => {
                let mut staged: Vec<String> = Vec::new();
                let mut i: usize = 0;
                while i < files.len()
                    invariant
                        i <= files.len(),
                        staged.deep_view() == staged_files(files.deep_view().take(i as int)),
                    decreases files.len() - i,
                {
                    let word = shell_escape(files[i].as_str());
                    let ghost before = staged.deep_view();
                    let ghost quoted = word@;
                    staged.push(word);
                    proof {
                        let shorter = files.deep_view().take(i as int);
                        let longer = files.deep_view().take(i + 1);
                        assert(staged.deep_view() =~= before.push(quoted));
                        assert(longer[i as int] == files[i as int]@);
                        assert forall|j: int| 0 <= j < i implies longer[j] == shorter[j] by {}
                        assert(staged.deep_view() =~= staged_files(longer));
                    }
                    i += 1;
                }
                proof {
                    assert(files.deep_view().take(files.len() as int) =~= files.deep_view());
                }
                let mut add = String::from_str("git add ");
                add.append(join(&staged, " ").as_str());
                plan.push(add);
            },
            None => {
                plan.push(String::from_str("git add ."));
            },
        }
        let mut commit = String::from_str("git commit -m ");
        commit.append(shell_escape(message).as_str());
        plan.push(commit);
        plan
    }

    /// Pushes the current commit to `target_branch`.
    pub fn push(&self, target_branch: &str) -> (cmd: String)
        ensures
            cmd@ == push_command(target_branch@),
    {
        let mut cmd = String::from_str("git push origin HEAD:");
        cmd.append(shell_escape(target_branch).as_str());
        cmd
    }

    /// What to hand the hosting service: the stored URL, the branch to merge,
    /// and as base the default branch, read from what `MAIN_BRANCH_CMD`
    /// printed.
    pub fn create_merge_request(
        &self,
        title: &str,
        description: &str,
        branch_name: &str,
        main_branch_output: &str,
    ) -> (request: MergeRequest)
        ensures
            request.repo_url@ == self.repository.url@,
            request.head_branch@ == branch_name@,
            request.base_branch@ == trimmed(main_branch_output@),
            request.title@ == title@,
            request.body@ == description@,
    {
        MergeRequest {
            repo_url: self.repository.url.clone(),
            head_branch: String::from_str(branch_name),
            base_branch: trim(main_branch_output),
            title: String::from_str(title),
            body: String::from_str(description),
        }
    }
}

} // verus!
