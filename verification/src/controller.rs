//! What every backend controller decides before it touches its backend:
//! which commands to run, in which directory, with which environment.
use vstd::prelude::*;
use crate::error::WorkspaceError;
use crate::text::{contains, contains_seq, decimal, decimal_text};
use crate::trusted::{shell_escape, shell_quoted};

verus! {

/// What a command left behind: everything it printed, and its exit code.
#[derive(Debug, Clone, PartialEq, Eq)]
pub struct CommandOutput {
    pub output: String,
    pub exit_code: i32,
}

/// Where a controller stands in its life.
#[derive(Debug, Clone, Copy, PartialEq, Eq, Structural)]
pub enum ControllerState {
    /// Created; its environment is not up yet.
    Uninit,
    /// Its environment is up and takes commands.
    Running,
    /// Torn down for good.
    Stopped,
}

/// The state after `init`: an untouched controller starts running, every
/// other one stays as it is.
pub open spec fn after_init(state: ControllerState) -> ControllerState {
    match state {
        ControllerState::Uninit => ControllerState::Running,
        other => other,
    }
}

/// The state after `stop`.
pub open spec fn after_stop(state: ControllerState) -> ControllerState {
    ControllerState::Stopped
}

/// What an operation answers on a controller that was never initialised.
pub open spec fn not_initialised_text() -> Seq<char> {
    "not initialised"@
}

/// What an operation answers on a controller that was stopped.
pub open spec fn stopped_text() -> Seq<char> {
    "stopped"@
}

impl ControllerState {
    /// Takes in a call of `init`. Returns the next state and whether the
    /// environment has to be brought up now: only the first call on a fresh
    /// controller does that, a later one is a no-op. A stopped controller
    /// cannot come back.
    pub fn init(self) -> (r: Result<(ControllerState, bool), WorkspaceError>)
        ensures
            match self {
                ControllerState::Uninit => r == Ok::<(ControllerState, bool), WorkspaceError>(
                    (ControllerState::Running, true),
                ),
                ControllerState::Running => r == Ok::<(ControllerState, bool), WorkspaceError>(
                    (ControllerState::Running, false),
                ),
                ControllerState::Stopped => r matches Err(
                    WorkspaceError::InvariantViolation(m),
                ) && m@ == stopped_text(),
            },
            r matches Ok(next) ==> next.0 == after_init(self),
    {
        match self {
            ControllerState::Uninit => Ok((ControllerState::Running, true)),
            ControllerState::Running => Ok((ControllerState::Running, false)),
            ControllerState::Stopped => Err(
                WorkspaceError::InvariantViolation(String::from_str("stopped")),
            ),
        }
    }

    /// Takes in a call of `stop`. Returns the next state, which is always
    /// `Stopped`, and whether there is an environment to tear down now: there
    /// is unless the controller was stopped before.
    pub fn stop(self) -> (r: (ControllerState, bool))
        ensures
            r.0 == after_stop(self),
            r.1 == (self != ControllerState::Stopped),
    {
        match self {
            ControllerState::Stopped => (ControllerState::Stopped, false),
            _ => (ControllerState::Stopped, true),
        }
    }

    /// Whether a command or a file operation may go ahead: only on a running
    /// controller.
    pub fn check_running(self) -> (r: Result<(), WorkspaceError>)
        ensures
            match self {
                ControllerState::Running => r is Ok,
                ControllerState::Uninit => r matches Err(WorkspaceError::InvariantViolation(m))
                    && m@ == not_initialised_text(),
                ControllerState::Stopped => r matches Err(WorkspaceError::InvariantViolation(m))
                    && m@ == stopped_text(),
            },
    {
        match self {
            ControllerState::Running => Ok(()),
            ControllerState::Uninit => Err(
                WorkspaceError::InvariantViolation(String::from_str("not initialised")),
            ),
            ControllerState::Stopped => Err(
                WorkspaceError::InvariantViolation(String::from_str("stopped")),
            ),
        }
    }
}

/// Calling `init` a second time changes nothing: the state after two calls
/// is the state after one, and a controller that `init` has seen is never
/// one that still has to be brought up.
pub proof fn lemma_init_idempotent(state: ControllerState)
    ensures
        after_init(after_init(state)) == after_init(state),
        after_init(state) != ControllerState::Uninit,
{
}

/// Stopping is final: neither `init` nor another `stop` leaves `Stopped`.
pub proof fn lemma_stop_is_final(state: ControllerState)
    ensures
        after_init(after_stop(state)) == ControllerState::Stopped,
        after_stop(after_stop(state)) == ControllerState::Stopped,
{
}

/// The command that lists a checkout's `.git` directory; the directory's
/// name goes in shell-quoted.
pub open spec fn probe_command(path: Seq<char>) -> Seq<char> {
    "ls "@ + shell_quoted(path + "/.git"@)
}

/// A listing shows a repository when it names the `config` file.
pub open spec fn listing_shows_repository(listing: Seq<char>) -> bool {
    contains_seq(listing, "config"@)
}

/// The commands that materialise one repository at `path`, in order. An
/// absent repository is cloned into a fresh directory; a present one gets its
/// `origin` back and pulls the branch that the remote's `HEAD` names, its
/// default branch. Either way the last command removes `origin`, so that a
/// credential carried by `url` does not stay in the checkout. URL and path go
/// into every command shell-quoted.
pub open spec fn provisioning_commands(url: Seq<char>, path: Seq<char>, present: bool) -> Seq<
    Seq<char>,
> {
    if present {
        seq![
            "cd "@ + shell_quoted(path) + " && git remote add origin "@ + shell_quoted(url),
            "cd "@ + shell_quoted(path) + " && git pull origin HEAD"@,
            detach_command(path),
        ]
    } else {
        seq![
            "mkdir -p "@ + shell_quoted(path),
            "git clone "@ + shell_quoted(url) + " "@ + shell_quoted(path),
            detach_command(path),
        ]
    }
}

/// The command that removes `origin` from the checkout at `path`.
pub open spec fn detach_command(path: Seq<char>) -> Seq<char> {
    "cd "@ + shell_quoted(path) + " && git remote remove origin"@
}

/// Whatever state a checkout was found in, the last thing done to it is to
/// remove `origin`: the URL it was fetched from, and any credential in it,
/// does not stay in the checkout's configuration.
pub proof fn lemma_plan_ends_without_origin(url: Seq<char>, path: Seq<char>, present: bool)
    ensures
        provisioning_commands(url, path, present).len() == 3,
        provisioning_commands(url, path, present).last() == detach_command(path),
{
}

/// Builds the probe for the checkout at `path`.
pub fn repository_probe(path: &str) -> (cmd: String)
    ensures
        cmd@ == probe_command(path@),
{
    let mut directory = String::from_str(path);
    directory.append("/.git");
    let mut cmd = String::from_str("ls ");
    cmd.append(shell_escape(directory.as_str()).as_str());
    cmd
}

/// Reads the probe's output.
pub fn has_repository(listing: &str) -> (present: bool)
    ensures
        present == listing_shows_repository(listing@),
{
    contains(listing, "config")
}

/// Builds the commands that materialise one repository.
pub fn provision_plan(url: &str, path: &str, present: bool) -> (plan: Vec<String>)
    ensures
        plan.deep_view() == provisioning_commands(url@, path@, present),
{
    let quoted_url = shell_escape(url);
    let quoted_path = shell_escape(path);
    let mut plan: Vec<String> = Vec::new();
    if present {
        let mut attach = String::from_str("cd ");
        attach.append(quoted_path.as_str());
        attach.append(" && git remote add origin ");
        attach.append(quoted_url.as_str());
        plan.push(attach);
        let mut pull = String::from_str("cd ");
        pull.append(quoted_path.as_str());
        pull.append(" && git pull origin HEAD");
        plan.push(pull);
    } else {
        let mut mkdir = String::from_str("mkdir -p ");
        mkdir.append(quoted_path.as_str());
        plan.push(mkdir);
        let mut clone = String::from_str("git clone ");
        clone.append(quoted_url.as_str());
        clone.append(" ");
        clone.append(quoted_path.as_str());
        plan.push(clone);
    }
    let mut detach = String::from_str("cd ");
    detach.append(quoted_path.as_str());
    detach.append(" && git remote remove origin");
    plan.push(detach);
    plan
}

/// What the caller does next while repositories are provisioned.
#[derive(Debug, Clone, PartialEq, Eq)]
pub enum ProvisionAction {
    /// Run this probe with `cmd_with_output` and report what it printed
    /// with `probed`.
    Probe(String),
    /// Run this command with `cmd_with_output` and report how it ended
    /// with `ran`.
    Run(String),
    /// Every repository is in place.
    Done,
    /// A command failed. Nothing more is to be run; `outcome` holds what
    /// the command left behind.
    Failed,
}

/// A provisioning as contracts speak of it: the repositories with their
/// URLs and paths, the one being worked on, the commands it still needs
/// (`None` while it has not been probed), and the exit code and output of
/// the command that failed, if one did.
pub struct ProvisioningView {
    pub targets: Seq<(Seq<char>, Seq<char>)>,
    pub current: int,
    pub pending: Option<Seq<Seq<char>>>,
    pub failure: Option<(i32, Seq<char>)>,
}

impl ProvisioningView {
    /// The repository being worked on exists while commands are pending,
    /// pending commands are never none at all, and what is recorded as a
    /// failure did not exit with code zero.
    pub open spec fn wf(self) -> bool {
        &&& 0 <= self.current <= self.targets.len()
        &&& self.pending matches Some(commands) ==> self.current < self.targets.len()
            && commands.len() > 0
        &&& self.failure matches Some(failure) ==> failure.0 != 0
    }

    /// Every repository has been dealt with.
    pub open spec fn done(self) -> bool {
        self.failure is None && self.current >= self.targets.len()
    }

    /// The command to run now, while commands are pending and none has failed.
    pub open spec fn next_command(self) -> Option<Seq<char>> {
        match self.pending {
            Some(commands) => if self.failure is None {
                Some(commands[0])
            } else {
                None
            },
            None => None,
        }
    }

    /// The probe to run now, while the current repository has not been
    /// probed and no command has failed.
    pub open spec fn next_probe(self) -> Option<Seq<char>> {
        if self.failure is None && self.current < self.targets.len() && self.pending is None {
            Some(probe_command(self.targets[self.current].1))
        } else {
            None
        }
    }

    /// The state once the probe's output is known: the current repository
    /// gets its commands. Without a repository waiting for its probe nothing
    /// changes.
    pub open spec fn after_probe(self, listing: Seq<char>) -> ProvisioningView {
        if self.next_probe() is Some {
            ProvisioningView {
                pending: Some(
                    provisioning_commands(
                        self.targets[self.current].0,
                        self.targets[self.current].1,
                        listing_shows_repository(listing),
                    ),
                ),
                ..self
            }
        } else {
            self
        }
    }

    /// The state once the pending command has run and succeeded: the next
    /// command is up, or, after the last one, the next repository.
    pub open spec fn after_run(self) -> ProvisioningView {
        match self.pending {
            Some(commands) => if commands.len() > 1 {
                ProvisioningView { pending: Some(commands.drop_first()), ..self }
            } else {
                ProvisioningView { current: self.current + 1, pending: None, ..self }
            },
            None => self,
        }
    }

    /// The state once the pending command has ended with `exit_code` and
    /// `output`. Exit code zero leads on; any other is recorded as the
    /// failure that ends the provisioning. Without a command to run nothing
    /// changes.
    pub open spec fn after_command(self, exit_code: i32, output: Seq<char>) -> ProvisioningView {
        if self.next_command() is None {
            self
        } else if exit_code == 0 {
            self.after_run()
        } else {
            ProvisioningView { failure: Some((exit_code, output)), ..self }
        }
    }
}

/// One repository takes one round: its probe, then the three commands that
/// the probe's outcome calls for, in their order, and then the next
/// repository is up.
pub proof fn lemma_one_round(state: ProvisioningView, listing: Seq<char>)
    requires
        state.wf(),
        state.next_probe() is Some,
    ensures
        ({
            let url = state.targets[state.current].0;
            let path = state.targets[state.current].1;
            let commands = provisioning_commands(url, path, listing_shows_repository(listing));
            let probed = state.after_probe(listing);
            &&& state.next_probe() == Some(probe_command(path))
            &&& probed.wf() && probed.next_command() == Some(commands[0])
            &&& probed.after_run().wf() && probed.after_run().next_command() == Some(commands[1])
            &&& probed.after_run().after_run().wf()
                && probed.after_run().after_run().next_command() == Some(commands[2])
            &&& probed.after_run().after_run().after_run() == (ProvisioningView {
                current: state.current + 1,
                pending: None,
                ..state
            })
        }),
{
    let url = state.targets[state.current].0;
    let path = state.targets[state.current].1;
    let commands = provisioning_commands(url, path, listing_shows_repository(listing));
    assert(commands.len() == 3);
    assert(commands.drop_first()[0] == commands[1]);
    assert(commands.drop_first().drop_first()[0] == commands[2]);
    assert(commands.drop_first().len() == 2);
    assert(commands.drop_first().drop_first().len() == 1);
}

/// A command that fails ends the provisioning: the failure is recorded
/// with the command's exit code and output, and from then on there is
/// neither a probe nor a command to run, whatever is reported.
pub proof fn lemma_failure_is_final(
    state: ProvisioningView,
    exit_code: i32,
    output: Seq<char>,
    listing: Seq<char>,
)
    requires
        state.wf(),
    ensures
        state.next_command() is Some && exit_code != 0 ==> state.after_command(
            exit_code,
            output,
        ).failure == Some((exit_code, output)),
        state.failure is Some ==> state.next_probe() is None && state.next_command() is None
            && !state.done() && state.after_probe(listing) == state && state.after_command(
            exit_code,
            output,
        ) == state,
        state.after_command(exit_code, output).wf(),
        state.after_probe(listing).wf(),
{
}

/// The provisioning of a list of repositories, one after the other.
#[derive(Debug)]
pub struct Provisioning {
    targets: Vec<(String, String)>,
    current: usize,
    pending: Option<Vec<String>>,
    failure: Option<CommandOutput>,
}

impl View for Provisioning {
    type V = ProvisioningView;

    closed spec fn view(&self) -> ProvisioningView {
        ProvisioningView {
            targets: self.targets.deep_view(),
            current: self.current as int,
            pending: match self.pending {
                Some(commands) => Some(commands.deep_view()),
                None => None,
            },
            failure: match self.failure {
                Some(failure) => Some((failure.exit_code, failure.output@)),
                None => None,
            },
        }
    }
}

impl Provisioning {
    /// Begins with the first repository. Each target is a URL and the path
    /// of its checkout.
    pub fn provision_repositories(targets: Vec<(String, String)>) -> (state: Provisioning)
        ensures
            state@.wf(),
            state@ == (ProvisioningView {
                targets: targets.deep_view(),
                current: 0,
                pending: None,
                failure: None,
            }),
    {
        Provisioning { targets, current: 0, pending: None, failure: None }
    }

    /// What to do now.
    pub fn action(&self) -> (action: ProvisionAction)
        requires
            self@.wf(),
        ensures
            match action {
                ProvisionAction::Probe(probe) => self@.next_probe() == Some(probe@),
                ProvisionAction::Run(command) => self@.next_command() == Some(command@),
                ProvisionAction::Done => self@.done() && self@.pending is None,
                ProvisionAction::Failed => self@.failure is Some,
            },
    {
        if self.failure.is_some() {
            return ProvisionAction::Failed;
        }
        match &self.pending {
            Some(commands) => {
                proof {
                    assert(commands.deep_view()[0] == commands[0]@);
                }
                ProvisionAction::Run(commands[0].clone())
            },
            None => {
                if self.current < self.targets.len() {
                    proof {
                        assert(self.targets.deep_view()[self.current as int].1
                            == self.targets[self.current as int].1@);
                    }
                    ProvisionAction::Probe(repository_probe(self.targets[self.current].1.as_str()))
                } else {
                    ProvisionAction::Done
                }
            },
        }
    }

    /// Takes in what the probe printed.
    pub fn probed(&mut self, listing: &str)
        requires
            old(self)@.wf(),
        ensures
            final(self)@.wf(),
            final(self)@ == old(self)@.after_probe(listing@),
    {
        if self.failure.is_none() && self.current < self.targets.len() && self.pending.is_none() {
            proof {
                assert(self.targets.deep_view()[self.current as int] == (
                    self.targets[self.current as int].0@,
                    self.targets[self.current as int].1@,
                ));
            }
            let plan = provision_plan(
                self.targets[self.current].0.as_str(),
                self.targets[self.current].1.as_str(),
                has_repository(listing),
            );
            self.pending = Some(plan);
        }
    }

    /// Takes in how the pending command ended. With exit code zero the next
    /// command or the next repository is up. With any other the provisioning
    /// is over: the failure is recorded, no further command follows, and it
    /// comes back as the error that `cmd` gives for such a command. A report
    /// without a pending command changes nothing.
    pub fn ran(&mut self, outcome: CommandOutput) -> (r: Result<(), WorkspaceError>)
        requires
            old(self)@.wf(),
        ensures
            final(self)@.wf(),
            final(self)@ == old(self)@.after_command(outcome.exit_code, outcome.output@),
            r is Ok <==> outcome.exit_code == 0,
            r matches Err(e) ==> e == (WorkspaceError::CommandFailure {
                exit_code: outcome.exit_code,
                output: outcome.output,
            }),
    {
        proof {
            assert(self.targets.deep_view().len() == self.targets.len());
            assert(self.pending is Some ==> self.current < self.targets.len());
        }
        if self.failure.is_none() && self.pending.is_some() {
            if outcome.exit_code == 0 {
                let pending = self.pending.take();
                match pending {
                    Some(mut commands) => {
                        let ghost before = commands.deep_view();
                        if commands.len() > 1 {
                            commands.remove(0);
                            proof {
                                assert(commands.deep_view() =~= before.drop_first());
                            }
                            self.pending = Some(commands);
                        } else {
                            self.current = self.current + 1;
                        }
                    },
                    None => {},
                }
            } else {
                self.failure = Some(
                    CommandOutput { output: outcome.output.clone(), exit_code: outcome.exit_code },
                );
            }
        }
        outcome.into_result()
    }

    /// How the provisioning stands as the outcome of one command: what the
    /// failed command left behind, or exit code zero and no output while
    /// none has failed.
    pub fn outcome(&self) -> (outcome: CommandOutput)
        ensures
            match self@.failure {
                Some(failure) => outcome.exit_code == failure.0 && outcome.output@ == failure.1,
                None => outcome.exit_code == 0 && outcome.output@ == Seq::<char>::empty(),
            },
    {
        match &self.failure {
            Some(failure) => CommandOutput {
                output: failure.output.clone(),
                exit_code: failure.exit_code,
            },
            None => CommandOutput { output: String::new(), exit_code: 0 },
        }
    }
}

/// The exit code by which a command that ran out of time is known.
pub const TIMEOUT_EXIT_CODE: i32 = 124;

/// The exit code given to a command that a signal ended before it could
/// set one.
pub const SIGNALLED_EXIT_CODE: i32 = -1;

impl CommandOutput {
    /// A command succeeded exactly when it exited with code zero.
    pub fn succeeded(&self) -> (ok: bool)
        ensures
            ok == (self.exit_code == 0),
    {
        self.exit_code == 0
    }

    /// Turns a finished command into the outcome of `cmd`: success for exit
    /// code zero, and for every other code a failure that carries the code
    /// and the output.
    pub fn into_result(self) -> (r: Result<(), WorkspaceError>)
        ensures
            r is Ok <==> self.exit_code == 0,
            r matches Err(e) ==> e == (WorkspaceError::CommandFailure {
                exit_code: self.exit_code,
                output: self.output,
            }),
    {
        if self.exit_code == 0 {
            Ok(())
        } else {
            Err(WorkspaceError::CommandFailure { exit_code: self.exit_code, output: self.output })
        }
    }
}

/// The exit code of a local command: the timeout code where it ran out of
/// time, else the code it set, else the code for a signal.
pub open spec fn local_exit_code(status: Option<i32>, timed_out: bool) -> i32 {
    if timed_out {
        TIMEOUT_EXIT_CODE
    } else {
        match status {
            Some(code) => code,
            None => SIGNALLED_EXIT_CODE,
        }
    }
}

/// Puts together what a local command left behind. Both streams end up in
/// the output, standard output first.
pub fn handle_command_result(stdout: &str, stderr: &str, status: Option<i32>, timed_out: bool) -> (out:
    CommandOutput)
    ensures
        out.output@ == stdout@ + stderr@,
        out.exit_code == local_exit_code(status, timed_out),
{
    let mut output = String::from_str(stdout);
    output.append(stderr);
    let exit_code = if timed_out {
        TIMEOUT_EXIT_CODE
    } else {
        match status {
            Some(code) => code,
            None => SIGNALLED_EXIT_CODE,
        }
    };
    CommandOutput { output, exit_code }
}

/// The exit code of a command run in a container, from what the daemon
/// reports: zero where it reports none, the nearest `i32` where the report
/// does not fit.
pub open spec fn container_exit_code(reported: Option<i64>) -> i32 {
    match reported {
        None => 0,
        Some(code) => if code > i32::MAX as int {
            i32::MAX
        } else if code < i32::MIN as int {
            i32::MIN
        } else {
            code as i32
        },
    }
}

/// Reads the exit code out of the daemon's report.
pub fn exit_code_from_inspect(reported: Option<i64>) -> (code: i32)
    ensures
        code == container_exit_code(reported),
{
    match reported {
        None => 0,
        Some(code) => if code > i32::MAX as i64 {
            i32::MAX
        } else if code < i32::MIN as i64 {
            i32::MIN
        } else {
            code as i32
        },
    }
}

/// The words handed to the container's exec channel: `bash -c` and the
/// command, behind `timeout` and the seconds where a limit is set.
pub open spec fn exec_words(cmd: Seq<char>, timeout: Option<u64>) -> Seq<Seq<char>> {
    match timeout {
        Some(seconds) => seq!["timeout"@, decimal_text(seconds as nat), "bash"@, "-c"@, cmd],
        None => seq!["bash"@, "-c"@, cmd],
    }
}

/// Builds the words for the exec channel.
pub fn exec_command(cmd: &str, timeout: Option<u64>) -> (words: Vec<String>)
    ensures
        words.deep_view() == exec_words(cmd@, timeout),
{
    let mut words: Vec<String> = Vec::new();
    match timeout {
        Some(seconds) => {
            words.push(String::from_str("timeout"));
            words.push(decimal(seconds));
        },
        None => {},
    }
    words.push(String::from_str("bash"));
    words.push(String::from_str("-c"));
    words.push(String::from_str(cmd));
    words
}

/// One variable as the exec channel takes it: name, `=`, value.
pub open spec fn assignment(var: (Seq<char>, Seq<char>)) -> Seq<char> {
    var.0 + "="@ + var.1
}

/// Each variable as an assignment, in order.
pub open spec fn assignments(env: Seq<(Seq<char>, Seq<char>)>) -> Seq<Seq<char>> {
    Seq::new(env.len(), |i: int| assignment(env[i]))
}

/// Renders the variables for the exec channel.
pub fn env_strings(env: &Vec<(String, String)>) -> (lines: Vec<String>)
    ensures
        lines.deep_view() == assignments(env.deep_view()),
{
    let mut lines: Vec<String> = Vec::new();
    let mut i: usize = 0;
    while i < env.len()
        invariant
            i <= env.len(),
            lines.deep_view() == assignments(env.deep_view().take(i as int)),
        decreases env.len() - i,
    {
        let mut line = env[i].0.clone();
        line.append("=");
        line.append(env[i].1.as_str());
        let ghost before = lines.deep_view();
        let ghost text = line@;
        lines.push(line);
        proof {
            let shorter = env.deep_view().take(i as int);
            let longer = env.deep_view().take(i + 1);
            assert(lines.deep_view() =~= before.push(text));
            assert(longer[i as int] == env[i as int].deep_view());
            assert forall|j: int| 0 <= j < i implies longer[j] == shorter[j] by {}
            assert(lines.deep_view() =~= assignments(longer));
        }
        i += 1;
    }
    proof {
        assert(env.deep_view().take(env.len() as int) =~= env.deep_view());
    }
    lines
}

/// A container's name: the workspace's name, a hyphen, and what makes it unique.
pub open spec fn container_name_text(name: Seq<char>, unique: Seq<char>) -> Seq<char> {
    name + "-"@ + unique
}

/// Names a container.
pub fn container_name(name: &str, unique: &str) -> (full: String)
    ensures
        full@ == container_name_text(name@, unique@),
{
    let mut full = String::from_str(name);
    full.append("-");
    full.append(unique);
    full
}

/// One mount as the daemon takes it: host path, `:`, container path.
pub open spec fn bind(mount: (Seq<char>, Seq<char>)) -> Seq<char> {
    mount.0 + ":"@ + mount.1
}

/// Each mount as a bind, in order.
pub open spec fn binds(mounts: Seq<(Seq<char>, Seq<char>)>) -> Seq<Seq<char>> {
    Seq::new(mounts.len(), |i: int| bind(mounts[i]))
}

/// Renders the mounts for the daemon.
pub fn bind_mounts(mounts: &Vec<(String, String)>) -> (lines: Vec<String>)
    ensures
        lines.deep_view() == binds(mounts.deep_view()),
{
    let mut lines: Vec<String> = Vec::new();
    let mut i: usize = 0;
    while i < mounts.len()
        invariant
            i <= mounts.len(),
            lines.deep_view() == binds(mounts.deep_view().take(i as int)),
        decreases mounts.len() - i,
    {
        let mut line = mounts[i].0.clone();
        line.append(":");
        line.append(mounts[i].1.as_str());
        let ghost before = lines.deep_view();
        let ghost text = line@;
        lines.push(line);
        proof {
            let shorter = mounts.deep_view().take(i as int);
            let longer = mounts.deep_view().take(i + 1);
            assert(lines.deep_view() =~= before.push(text));
            assert(longer[i as int] == mounts[i as int].deep_view());
            assert forall|j: int| 0 <= j < i implies longer[j] == shorter[j] by {}
            assert(lines.deep_view() =~= binds(longer));
        }
        i += 1;
    }
    proof {
        assert(mounts.deep_view().take(mounts.len() as int) =~= mounts.deep_view());
    }
    lines
}

} // verus!
