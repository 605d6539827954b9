//! The image cache: how a cached image is named, and which of the two layers
//! still has to be built.
use vstd::prelude::*;
use crate::controller::CommandOutput;
use crate::encoding::{
    bytes_of, field, lemma_bytes_tell_texts_apart, lemma_field_read_back,
    lemma_repositories_read_back, lemma_variables_read_back, repositories_text, variables_text,
    write_field, write_repositories, write_variables,
};
use crate::env::EnvVar;
use crate::error::WorkspaceError;
use crate::provider::{WorkspaceContext, WorkspaceContextView};
use crate::repository::{Repository, RepositoryView};
use crate::text::{
    comes_before, first_chars, integer, integer_text, lemma_sorts_before_asymmetric,
    lemma_sorts_before_total, lemma_sorts_before_transitive, replace_char, sorts_before,
    take_chars, with_char_replaced,
};
use crate::trusted::{hex_digit, hex_encode, hex_text, is_hex_digit, sha256, sha256_digest};

verus! {

/// What the key of the repositories layer is taken over: the canonical
/// text of the repositories, as bytes.
pub open spec fn repositories_bytes(rs: Seq<RepositoryView>) -> Seq<u8> {
    bytes_of(repositories_text(rs))
}

/// `e` put into `sorted` behind every entry whose name does not sort after its own.
pub open spec fn inserted(sorted: Seq<(Seq<char>, Seq<char>)>, e: (Seq<char>, Seq<char>)) -> Seq<
    (Seq<char>, Seq<char>),
>
    decreases sorted.len(),
{
    if sorted.len() > 0 && sorts_before(e.0, sorted.last().0) {
        inserted(sorted.drop_last(), e).push(sorted.last())
    } else {
        sorted.push(e)
    }
}

/// The variables ordered by name; those of one name keep their order.
pub open spec fn sorted_env(env: Seq<(Seq<char>, Seq<char>)>) -> Seq<(Seq<char>, Seq<char>)>
    decreases env.len(),
{
    if env.len() == 0 {
        Seq::empty()
    } else {
        inserted(sorted_env(env.drop_last()), env.last())
    }
}

/// The canonical text of a context with its variables: the name, the
/// repositories, the setup script, and the variables ordered by name.
pub open spec fn context_text(context: WorkspaceContextView, env: Seq<(Seq<char>, Seq<char>)>) -> Seq<
    char,
> {
    field(context.name) + repositories_text(context.repositories) + field(context.setup_script)
        + variables_text(sorted_env(env))
}

/// What the key of the full image is taken over: the canonical text, as bytes.
pub open spec fn context_bytes(context: WorkspaceContextView, env: Seq<(Seq<char>, Seq<char>)>) -> Seq<
    u8,
> {
    bytes_of(context_text(context, env))
}

/// The key of a byte string: the first sixteen hexadecimal digits of its
/// SHA-256 digest.
pub open spec fn derivation_key(bytes: Seq<u8>) -> Seq<char> {
    first_chars(hex_text(sha256(bytes)), 16)
}

/// Sixteen lower-case hexadecimal digits.
pub open spec fn is_key(key: Seq<char>) -> bool {
    &&& key.len() == 16
    &&& forall|i: int| 0 <= i < key.len() ==> is_hex_digit(#[trigger] key[i])
}

/// Hexadecimal text is made of hexadecimal digits.
pub proof fn lemma_hex_text_is_hex(data: Seq<u8>)
    ensures
        forall|i: int| 0 <= i < hex_text(data).len() ==> is_hex_digit(#[trigger] hex_text(data)[i]),
    decreases data.len(),
{
    if data.len() > 0 {
        lemma_hex_text_is_hex(data.drop_last());
        lemma_hex_len(data.drop_last());
        let shorter = hex_text(data.drop_last());
        let high = data.last() as int / 16;
        let low = data.last() as int % 16;
        assert forall|i: int| 0 <= i < hex_text(data).len() implies is_hex_digit(
            #[trigger] hex_text(data)[i],
        ) by {
            if i < shorter.len() {
                assert(hex_text(data)[i] == shorter[i]);
            } else if i == shorter.len() {
                assert(hex_text(data)[i] == hex_digit(high));
            } else {
                assert(hex_text(data)[i] == hex_digit(low));
            }
        }
    }
}

fn key_of(text: &str) -> (key: String)
    ensures
        key@ == derivation_key(bytes_of(text@)),
        is_key(key@),
{
    let digest = sha256_digest(text.as_bytes());
    let hex = hex_encode(digest.as_slice());
    proof {
        lemma_hex_len(digest@);
        lemma_hex_text_is_hex(digest@);
    }
    take_chars(hex.as_str(), 16)
}

/// The key of the repositories layer: sixteen hexadecimal digits.
pub fn repositories_hash(repositories: &Vec<Repository>) -> (key: String)
    ensures
        key@ == derivation_key(repositories_bytes(repositories.deep_view())),
        is_key(key@),
{
    let mut text = String::new();
    write_repositories(&mut text, repositories);
    proof {
        assert(text@ =~= repositories_text(repositories.deep_view()));
    }
    key_of(text.as_str())
}

/// Orders variables by name, keeping the order of those that share one.
pub fn sort_env(env: &Vec<EnvVar>) -> (sorted: Vec<EnvVar>)
    ensures
        sorted.deep_view() == sorted_env(env.deep_view()),
{
    let mut sorted: Vec<EnvVar> = Vec::new();
    let mut i: usize = 0;
    while i < env.len()
        invariant
            i <= env.len(),
            sorted.len() == i,
            sorted.deep_view() == sorted_env(env.deep_view().take(i as int)),
        decreases env.len() - i,
    {
        let entry: EnvVar = (env[i].0.clone(), env[i].1.clone());
        let ghost e = entry.deep_view();
        let ghost before = sorted.deep_view();
        let mut j: usize = sorted.len();
        proof {
            assert(before.take(j as int) =~= before);
            assert(inserted(before, e) + before.skip(j as int) =~= inserted(before, e));
        }
        while j > 0 && comes_before(entry.0.as_str(), sorted[j - 1].0.as_str())
            invariant
                j <= sorted.len(),
                before == sorted.deep_view(),
                e == entry.deep_view(),
                inserted(before, e) == inserted(before.take(j as int), e) + before.skip(j as int),
            decreases j,
        {
            proof {
                let shorter = before.take(j as int);
                assert(shorter.last() == before[j - 1]);
                assert(shorter.drop_last() =~= before.take(j - 1));
                assert(inserted(shorter, e) == inserted(before.take(j - 1), e).push(
                    before[j - 1],
                ));
                assert(inserted(before.take(j - 1), e).push(before[j - 1]) + before.skip(j as int)
                    =~= inserted(before.take(j - 1), e) + before.skip(j - 1));
            }
            j -= 1;
        }
        proof {
            let shorter = before.take(j as int);
            assert(inserted(shorter, e) == shorter.push(e));
            assert(shorter.push(e) + before.skip(j as int) =~= before.insert(j as int, e));
            let next = env.deep_view().take(i + 1);
            assert(next.drop_last() =~= env.deep_view().take(i as int));
            assert(next.last() == e);
        }
        sorted.insert(j, entry);
        proof {
            assert(sorted.deep_view() =~= before.insert(j as int, e));
        }
        i += 1;
    }
    proof {
        assert(env.deep_view().take(env.len() as int) =~= env.deep_view());
    }
    sorted
}

/// The key of the full image, taken over the context and the variables it
/// is built with: sixteen hexadecimal digits.
pub fn context_hash(context: &WorkspaceContext, env: &Vec<EnvVar>) -> (key: String)
    ensures
        key@ == derivation_key(context_bytes(context@, env.deep_view())),
        is_key(key@),
{
    let mut text = String::new();
    write_field(&mut text, context.name.as_str());
    write_repositories(&mut text, &context.repositories);
    write_field(&mut text, context.setup_script.as_str());
    let sorted = sort_env(env);
    write_variables(&mut text, &sorted);
    proof {
        assert(text@ =~= context_text(context@, env.deep_view()));
    }
    key_of(text.as_str())
}

/// The image every workspace starts from unless another is named.
pub const BASE_IMAGE: &'static str = "bosunai/build-baseimage";

/// Where the setup script is put inside the container.
pub const SETUP_SCRIPT_PATH: &'static str = "/tmp/setup.sh";

/// Makes the setup script executable.
pub const SETUP_PREPARE_CMD: &'static str = "chmod +x /tmp/setup.sh";

/// Runs the setup script.
pub const SETUP_RUN_CMD: &'static str = "/tmp/setup.sh";

/// The directory the setup commands run in.
pub const SETUP_WORKING_DIR: &'static str = "/";

/// A base image's name as part of a tag: every `/` becomes `-`.
pub open spec fn image_stem(base_image: Seq<char>) -> Seq<char> {
    with_char_replaced(base_image, '/', '-')
}

/// The tag of the image that holds the cloned repositories.
pub open spec fn repositories_image_name(base_image: Seq<char>, repositories: Seq<RepositoryView>) -> Seq<
    char,
> {
    image_stem(base_image) + "-cache-"@ + derivation_key(repositories_bytes(repositories))
}

/// The tag of the image that holds the finished setup.
pub open spec fn context_image_name(
    base_image: Seq<char>,
    context: WorkspaceContextView,
    env: Seq<(Seq<char>, Seq<char>)>,
) -> Seq<char> {
    context.name + "-"@ + image_stem(base_image) + "-cache-"@ + derivation_key(
        context_bytes(context, env),
    )
}

/// Names the repositories layer.
pub fn repositories_image(base_image: &str, repositories: &Vec<Repository>) -> (tag: String)
    ensures
        tag@ == repositories_image_name(base_image@, repositories.deep_view()),
        is_key(derivation_key(repositories_bytes(repositories.deep_view()))),
{
    let mut tag = replace_char(base_image, '/', '-');
    tag.append("-cache-");
    tag.append(repositories_hash(repositories).as_str());
    tag
}

/// Names the full image.
pub fn context_image(base_image: &str, context: &WorkspaceContext, env: &Vec<EnvVar>) -> (tag:
    String)
    ensures
        tag@ == context_image_name(base_image@, context@, env.deep_view()),
        is_key(derivation_key(context_bytes(context@, env.deep_view()))),
{
    let mut tag = context.name.clone();
    tag.append("-");
    tag.append(replace_char(base_image, '/', '-').as_str());
    tag.append("-cache-");
    tag.append(context_hash(context, env).as_str());
    tag
}

/// Where a pass through the cache stands.
#[derive(Debug, Clone, Copy, PartialEq, Eq, Structural)]
pub enum CacheStage {
    /// The full image has to be looked up.
    CheckContext,
    /// The full image is missing; the repositories layer has to be looked up.
    CheckRepositories,
    /// Both are missing; the repositories are being provisioned in a
    /// container started from the base image.
    BuildRepositories,
    /// The repositories are in place; the container waits to be committed
    /// as the repositories layer.
    CommitRepositories,
    /// The repositories layer is there; the setup script is being run in a
    /// container started from it.
    BuildContext,
    /// The setup script succeeded; the container waits to be committed as
    /// the full image.
    CommitContext,
    /// The full image is there.
    Ready,
}

/// The stage after an image was looked up. A full image that is found ends
/// the pass; a repositories layer that is found leaves only the full image
/// to build.
pub open spec fn after_inspect(stage: CacheStage, exists: bool) -> CacheStage {
    match stage {
        CacheStage::CheckContext => if exists {
            CacheStage::Ready
        } else {
            CacheStage::CheckRepositories
        },
        CacheStage::CheckRepositories => if exists {
            CacheStage::BuildContext
        } else {
            CacheStage::BuildRepositories
        },
        other => other,
    }
}

/// The stage after the work on a layer ended with `exit_code`. Only exit
/// code zero leads on to the commit; after any other the stage is what it
/// was, so that nothing is committed.
pub open spec fn after_layer(stage: CacheStage, exit_code: i32) -> CacheStage {
    if exit_code != 0 {
        stage
    } else {
        match stage {
            CacheStage::BuildRepositories => CacheStage::CommitRepositories,
            CacheStage::BuildContext => CacheStage::CommitContext,
            other => other,
        }
    }
}

/// The stage after a layer was committed.
pub open spec fn after_commit(stage: CacheStage) -> CacheStage {
    match stage {
        CacheStage::CommitRepositories => CacheStage::BuildContext,
        CacheStage::CommitContext => CacheStage::Ready,
        other => other,
    }
}

/// What the caller does next.
#[derive(Debug, Clone, PartialEq, Eq)]
pub enum CacheAction {
    /// Ask the daemon whether this image exists, and report it with `inspected`.
    Inspect(String),
    /// Start a container from `from_image`, provision the repositories in
    /// it, and report how that ended with `layer_finished`.
    BuildRepositoriesLayer { from_image: String },
    /// Start a container from `from_image`, run the setup script in it, and
    /// report how the script ended with `layer_finished`.
    BuildContextLayer { from_image: String },
    /// Commit the container that was just worked in as `image`, stop it, and
    /// report with `committed`.
    Commit { image: String },
    /// Start the workspace's container from this image.
    Start(String),
}

/// One pass through the two-level cache for one context.
#[derive(Debug)]
pub struct ImageCache {
    pub base_image: String,
    pub repositories_image: String,
    pub context_image: String,
    pub stage: CacheStage,
}

/// What a layer whose work failed is reported as: the setup script by its
/// own words, the provisioning of repositories likewise.
pub open spec fn layer_failure_text(stage: CacheStage, exit_code: int, output: Seq<char>) -> Seq<
    char,
> {
    if stage == CacheStage::BuildRepositories {
        "Provisioning repositories failed with exit code "@ + integer_text(exit_code) + ": "@
            + output
    } else {
        setup_failure_text(exit_code, output)
    }
}

impl ImageCache {
    /// The action that belongs to the stage.
    pub open spec fn action_spec(self) -> CacheAction {
        match self.stage {
            CacheStage::CheckContext => CacheAction::Inspect(self.context_image),
            CacheStage::CheckRepositories => CacheAction::Inspect(self.repositories_image),
            CacheStage::BuildRepositories => CacheAction::BuildRepositoriesLayer {
                from_image: self.base_image,
            },
            CacheStage::CommitRepositories => CacheAction::Commit {
                image: self.repositories_image,
            },
            CacheStage::BuildContext => CacheAction::BuildContextLayer {
                from_image: self.repositories_image,
            },
            CacheStage::CommitContext => CacheAction::Commit { image: self.context_image },
            CacheStage::Ready => CacheAction::Start(self.context_image),
        }
    }

    /// Begins a pass: names both images and asks for the full one first.
    pub fn prepare_image(base_image: &str, context: &WorkspaceContext, env: &Vec<EnvVar>) -> (cache:
        ImageCache)
        ensures
            cache.base_image@ == base_image@,
            cache.repositories_image@ == repositories_image_name(
                base_image@,
                context@.repositories,
            ),
            cache.context_image@ == context_image_name(base_image@, context@, env.deep_view()),
            cache.stage == CacheStage::CheckContext,
    {
        ImageCache {
            base_image: String::from_str(base_image),
            repositories_image: repositories_image(base_image, &context.repositories),
            context_image: context_image(base_image, context, env),
            stage: CacheStage::CheckContext,
        }
    }

    /// What to do at this stage.
    pub fn action(&self) -> (action: CacheAction)
        ensures
            action == self.action_spec(),
    {
        match self.stage {
            CacheStage::CheckContext => CacheAction::Inspect(self.context_image.clone()),
            CacheStage::CheckRepositories => CacheAction::Inspect(self.repositories_image.clone()),
            CacheStage::BuildRepositories => CacheAction::BuildRepositoriesLayer {
                from_image: self.base_image.clone(),
            },
            CacheStage::CommitRepositories => CacheAction::Commit {
                image: self.repositories_image.clone(),
            },
            CacheStage::BuildContext => CacheAction::BuildContextLayer {
                from_image: self.repositories_image.clone(),
            },
            CacheStage::CommitContext => CacheAction::Commit { image: self.context_image.clone() },
            CacheStage::Ready => CacheAction::Start(self.context_image.clone()),
        }
    }

    /// Takes in whether the inspected image exists.
    pub fn inspected(&mut self, exists: bool)
        ensures
            final(self).stage == after_inspect(old(self).stage, exists),
            final(self).base_image == old(self).base_image,
            final(self).repositories_image == old(self).repositories_image,
            final(self).context_image == old(self).context_image,
    {
        self.stage = match self.stage {
            CacheStage::CheckContext => if exists {
                CacheStage::Ready
            } else {
                CacheStage::CheckRepositories
            },
            CacheStage::CheckRepositories => if exists {
                CacheStage::BuildContext
            } else {
                CacheStage::BuildRepositories
            },
            other => other,
        };
    }

    /// Takes in how the work on the current layer ended: for the
    /// repositories layer the command that ended the provisioning, for the
    /// full image the setup script. With exit code zero the pass goes on to
    /// the commit. With any other the pass stays where it is, nothing is
    /// committed, and the failure comes back as a backend error that carries
    /// what was printed.
    pub fn layer_finished(&mut self, outcome: &CommandOutput) -> (r: Result<(), WorkspaceError>)
        ensures
            final(self).stage == after_layer(old(self).stage, outcome.exit_code),
            final(self).base_image == old(self).base_image,
            final(self).repositories_image == old(self).repositories_image,
            final(self).context_image == old(self).context_image,
            outcome.exit_code == 0 ==> r is Ok,
            outcome.exit_code != 0 ==> (r matches Err(WorkspaceError::Backend(m)) && m@
                == layer_failure_text(old(self).stage, outcome.exit_code as int, outcome.output@)),
    {
        if outcome.exit_code != 0 {
            if self.stage == CacheStage::BuildRepositories {
                let mut text = String::from_str("Provisioning repositories failed with exit code ");
                text.append(integer(outcome.exit_code as i64).as_str());
                text.append(": ");
                text.append(outcome.output.as_str());
                return Err(WorkspaceError::Backend(text));
            }
            return setup_outcome(outcome);
        }
        self.stage = match self.stage {
            CacheStage::BuildRepositories => CacheStage::CommitRepositories,
            CacheStage::BuildContext => CacheStage::CommitContext,
            other => other,
        };
        Ok(())
    }

    /// Takes in that the container was committed under the image's name.
    pub fn committed(&mut self)
        ensures
            final(self).stage == after_commit(old(self).stage),
            final(self).base_image == old(self).base_image,
            final(self).repositories_image == old(self).repositories_image,
            final(self).context_image == old(self).context_image,
    {
        self.stage = match self.stage {
            CacheStage::CommitRepositories => CacheStage::BuildContext,
            CacheStage::CommitContext => CacheStage::Ready,
            other => other,
        };
    }
}

/// What a failed setup script is reported as.
pub open spec fn setup_failure_text(exit_code: int, output: Seq<char>) -> Seq<char> {
    "Setup script failed with exit code "@ + integer_text(exit_code) + ": "@ + output
}

/// Judges the setup script's run. Only exit code zero lets the image be
/// committed; any other code fails the provisioning with what the script
/// printed.
pub fn setup_outcome(output: &CommandOutput) -> (r: Result<(), WorkspaceError>)
    ensures
        output.exit_code == 0 ==> r is Ok,
        output.exit_code != 0 ==> (r matches Err(WorkspaceError::Backend(m)) && m@
            == setup_failure_text(output.exit_code as int, output.output@)),
{
    if output.exit_code == 0 {
        Ok(())
    } else {
        let mut text = String::from_str("Setup script failed with exit code ");
        text.append(integer(output.exit_code as i64).as_str());
        text.append(": ");
        text.append(output.output.as_str());
        Err(WorkspaceError::Backend(text))
    }
}

/// A commit comes only after success: the action is a commit only at a
/// commit stage, and a commit stage is reached only from the build stage
/// before it, by work that ended with exit code zero. Work that failed
/// leaves the pass at its build stage, whose action is never a commit; so
/// after a failed setup script no image exists and the next pass builds again.
pub proof fn lemma_commit_only_after_success(cache: ImageCache, exit_code: i32)
    ensures
        cache.action_spec() is Commit <==> (cache.stage == CacheStage::CommitRepositories
            || cache.stage == CacheStage::CommitContext),
        after_layer(cache.stage, exit_code) == CacheStage::CommitRepositories && cache.stage
            != CacheStage::CommitRepositories ==> cache.stage == CacheStage::BuildRepositories
            && exit_code == 0,
        after_layer(cache.stage, exit_code) == CacheStage::CommitContext && cache.stage
            != CacheStage::CommitContext ==> cache.stage == CacheStage::BuildContext && exit_code
            == 0,
        exit_code != 0 ==> after_layer(cache.stage, exit_code) == cache.stage,
        after_inspect(cache.stage, true) != CacheStage::CommitRepositories || cache.stage
            == CacheStage::CommitRepositories,
        after_inspect(cache.stage, true) != CacheStage::CommitContext || cache.stage
            == CacheStage::CommitContext,
        after_inspect(cache.stage, false) != CacheStage::CommitRepositories || cache.stage
            == CacheStage::CommitRepositories,
        after_inspect(cache.stage, false) != CacheStage::CommitContext || cache.stage
            == CacheStage::CommitContext,
        after_commit(cache.stage) != CacheStage::CommitRepositories,
        after_commit(cache.stage) != CacheStage::CommitContext,
{
}

/// The name of the repositories layer tells lists of repositories apart as
/// far as the digest does: different lists are written as different bytes.
pub proof fn lemma_bytes_tell_repositories_apart(a: Seq<RepositoryView>, b: Seq<RepositoryView>)
    requires
        repositories_bytes(a) == repositories_bytes(b),
    ensures
        a == b,
{
    lemma_bytes_tell_texts_apart(repositories_text(a), repositories_text(b));
    assert(repositories_text(a) + Seq::<char>::empty() =~= repositories_text(a));
    assert(repositories_text(b) + Seq::<char>::empty() =~= repositories_text(b));
    lemma_repositories_read_back(a, b, Seq::empty(), Seq::empty());
}

/// Nothing is lost in the writing: contexts and variables that are written
/// as the same bytes are the same context, name, repositories and setup
/// script, with the same variables once these are ordered by name.
pub proof fn lemma_bytes_tell_contexts_apart(
    first: WorkspaceContextView,
    first_env: Seq<(Seq<char>, Seq<char>)>,
    second: WorkspaceContextView,
    second_env: Seq<(Seq<char>, Seq<char>)>,
)
    requires
        context_bytes(first, first_env) == context_bytes(second, second_env),
    ensures
        first == second,
        sorted_env(first_env) == sorted_env(second_env),
{
    lemma_bytes_tell_texts_apart(context_text(first, first_env), context_text(second, second_env));
    let vars_a = variables_text(sorted_env(first_env));
    let vars_b = variables_text(sorted_env(second_env));
    let script_a = field(first.setup_script) + vars_a;
    let script_b = field(second.setup_script) + vars_b;
    let repos_a = repositories_text(first.repositories) + script_a;
    let repos_b = repositories_text(second.repositories) + script_b;
    assert(context_text(first, first_env) =~= field(first.name) + repos_a);
    assert(context_text(second, second_env) =~= field(second.name) + repos_b);
    lemma_field_read_back(first.name, second.name, repos_a, repos_b);
    lemma_repositories_read_back(first.repositories, second.repositories, script_a, script_b);
    lemma_field_read_back(first.setup_script, second.setup_script, vars_a, vars_b);
    assert(vars_a + Seq::<char>::empty() =~= vars_a);
    assert(vars_b + Seq::<char>::empty() =~= vars_b);
    lemma_variables_read_back(
        sorted_env(first_env),
        sorted_env(second_env),
        Seq::empty(),
        Seq::empty(),
    );
}

/// No two variables share a name.
pub open spec fn names_distinct(env: Seq<(Seq<char>, Seq<char>)>) -> bool {
    forall|i: int, j: int| 0 <= i < j < env.len() ==> env[i].0 != env[j].0
}

/// Each variable's name sorts before the name of every later one.
pub open spec fn strictly_ordered(env: Seq<(Seq<char>, Seq<char>)>) -> bool {
    forall|i: int, j: int| 0 <= i < j < env.len() ==> sorts_before(env[i].0, env[j].0)
}

/// The offset at which `e` goes into `sorted`: behind the last entry whose
/// name does not sort after its own.
pub open spec fn insert_position(sorted: Seq<(Seq<char>, Seq<char>)>, e: (Seq<char>, Seq<char>)) -> int
    decreases sorted.len(),
{
    if sorted.len() > 0 && sorts_before(e.0, sorted.last().0) {
        insert_position(sorted.drop_last(), e)
    } else {
        sorted.len() as int
    }
}

/// Inserting puts the entry at its position and moves nothing else.
pub proof fn lemma_inserted_at_position(
    sorted: Seq<(Seq<char>, Seq<char>)>,
    e: (Seq<char>, Seq<char>),
)
    ensures
        0 <= insert_position(sorted, e) <= sorted.len(),
        inserted(sorted, e) == sorted.insert(insert_position(sorted, e), e),
        forall|i: int|
            insert_position(sorted, e) <= i < sorted.len() ==> sorts_before(
                e.0,
                #[trigger] sorted[i].0,
            ),
        insert_position(sorted, e) > 0 ==> !sorts_before(
            e.0,
            sorted[insert_position(sorted, e) - 1].0,
        ),
    decreases sorted.len(),
{
    if sorted.len() > 0 && sorts_before(e.0, sorted.last().0) {
        let shorter = sorted.drop_last();
        lemma_inserted_at_position(shorter, e);
        let p = insert_position(shorter, e);
        assert(shorter.insert(p, e).push(sorted.last()) =~= sorted.insert(p, e));
        assert forall|i: int| p <= i < sorted.len() implies sorts_before(
            e.0,
            #[trigger] sorted[i].0,
        ) by {
            if i < shorter.len() {
                assert(shorter[i] == sorted[i]);
            }
        }
        if p > 0 {
            assert(shorter[p - 1] == sorted[p - 1]);
        }
    } else {
        assert(sorted.push(e) =~= sorted.insert(sorted.len() as int, e));
    }
}

/// A variable with a new name goes into an ordered list without breaking
/// the order.
pub proof fn lemma_inserted_keeps_order(
    sorted: Seq<(Seq<char>, Seq<char>)>,
    e: (Seq<char>, Seq<char>),
)
    requires
        strictly_ordered(sorted),
        forall|i: int| 0 <= i < sorted.len() ==> #[trigger] sorted[i].0 != e.0,
    ensures
        strictly_ordered(inserted(sorted, e)),
{
    lemma_inserted_at_position(sorted, e);
    let p = insert_position(sorted, e);
    let r = sorted.insert(p, e);
    assert forall|i: int, j: int| 0 <= i < j < r.len() implies sorts_before(r[i].0, r[j].0) by {
        if j < p {
            assert(r[i] == sorted[i] && r[j] == sorted[j]);
        } else if j == p {
            assert(r[i] == sorted[i]);
            assert(r[j] == e);
            assert(sorted[p - 1].0 != e.0);
            lemma_sorts_before_total(sorted[p - 1].0, e.0);
            if i < p - 1 {
                lemma_sorts_before_transitive(sorted[i].0, sorted[p - 1].0, e.0);
            }
        } else if i == p {
            assert(r[i] == e);
            assert(r[j] == sorted[j - 1]);
        } else if i < p {
            assert(r[i] == sorted[i] && r[j] == sorted[j - 1]);
        } else {
            assert(r[i] == sorted[i - 1] && r[j] == sorted[j - 1]);
        }
    }
}

/// Variables with distinct names come out of the sort in strict order, and
/// the sort neither drops nor adds one.
pub proof fn lemma_sorted_env_properties(env: Seq<(Seq<char>, Seq<char>)>)
    requires
        names_distinct(env),
    ensures
        strictly_ordered(sorted_env(env)),
        sorted_env(env).to_multiset() == env.to_multiset(),
    decreases env.len(),
{
    broadcast use vstd::seq_lib::group_to_multiset_ensures;

    if env.len() > 0 {
        let shorter = env.drop_last();
        let e = env.last();
        let sorted = sorted_env(shorter);
        assert(names_distinct(shorter)) by {
            assert forall|i: int, j: int| 0 <= i < j < shorter.len() implies shorter[i].0
                != shorter[j].0 by {
                assert(shorter[i] == env[i] && shorter[j] == env[j]);
            }
        }
        lemma_sorted_env_properties(shorter);
        assert forall|i: int| 0 <= i < sorted.len() implies #[trigger] sorted[i].0 != e.0 by {
            assert(sorted.contains(sorted[i]));
            assert(sorted.to_multiset().count(sorted[i]) > 0);
            assert(shorter.contains(sorted[i]));
            let k = choose|k: int| 0 <= k < shorter.len() && shorter[k] == sorted[i];
            assert(env[k] == shorter[k]);
        }
        lemma_inserted_keeps_order(sorted, e);
        lemma_inserted_at_position(sorted, e);
        assert(env =~= shorter.push(e));
    } else {
        assert(sorted_env(env) =~= env);
    }
}

/// There is only one way to put distinct names in order: two ordered lists
/// with the same entries are the same list.
pub proof fn lemma_ordered_unique(
    x: Seq<(Seq<char>, Seq<char>)>,
    y: Seq<(Seq<char>, Seq<char>)>,
)
    requires
        strictly_ordered(x),
        strictly_ordered(y),
        x.to_multiset() == y.to_multiset(),
    ensures
        x == y,
    decreases x.len(),
{
    broadcast use vstd::seq_lib::group_to_multiset_ensures;

    assert(x.len() == y.len()) by {
        vstd::seq_lib::to_multiset_len(x);
        vstd::seq_lib::to_multiset_len(y);
    }
    if x.len() == 0 {
        assert(x =~= y);
    } else {
        let last = x.len() - 1;
        let lx = x.last();
        let ly = y.last();
        assert(x.contains(lx));
        assert(y.to_multiset().count(lx) > 0);
        assert(y.contains(lx));
        let j = choose|j: int| 0 <= j < y.len() && y[j] == lx;
        assert(y.contains(ly));
        assert(x.to_multiset().count(ly) > 0);
        assert(x.contains(ly));
        let i = choose|i: int| 0 <= i < x.len() && x[i] == ly;
        lemma_sorts_before_asymmetric(lx.0, ly.0);
        if i < last && j < last {
            assert(sorts_before(x[i].0, x[last].0));
            assert(sorts_before(y[j].0, y[last].0));
        }
        assert(lx == ly);
        assert(x.remove(last) =~= x.drop_last());
        assert(y.remove(last) =~= y.drop_last());
        assert(x.drop_last().to_multiset() =~= y.drop_last().to_multiset());
        assert(strictly_ordered(x.drop_last())) by {
            assert forall|a: int, b: int| 0 <= a < b < x.drop_last().len() implies sorts_before(
                x.drop_last()[a].0,
                x.drop_last()[b].0,
            ) by {
                assert(x.drop_last()[a] == x[a] && x.drop_last()[b] == x[b]);
            }
        }
        assert(strictly_ordered(y.drop_last())) by {
            assert forall|a: int, b: int| 0 <= a < b < y.drop_last().len() implies sorts_before(
                y.drop_last()[a].0,
                y.drop_last()[b].0,
            ) by {
                assert(y.drop_last()[a] == y[a] && y.drop_last()[b] == y[b]);
            }
        }
        lemma_ordered_unique(x.drop_last(), y.drop_last());
        assert(x =~= x.drop_last().push(lx));
        assert(y =~= y.drop_last().push(ly));
    }
}

/// A list with the same entries as one with distinct names has distinct names.
pub proof fn lemma_names_stay_distinct(
    a: Seq<(Seq<char>, Seq<char>)>,
    b: Seq<(Seq<char>, Seq<char>)>,
)
    requires
        names_distinct(a),
        a.to_multiset() == b.to_multiset(),
    ensures
        names_distinct(b),
{
    broadcast use vstd::seq_lib::group_to_multiset_ensures;

    assert(a.no_duplicates());
    a.lemma_multiset_has_no_duplicates();
    b.lemma_multiset_has_no_duplicates_conv();
    assert forall|i: int, j: int| 0 <= i < j < b.len() implies b[i].0 != b[j].0 by {
        assert(b.contains(b[i]));
        assert(b.contains(b[j]));
        assert(a.to_multiset().count(b[i]) > 0);
        assert(a.to_multiset().count(b[j]) > 0);
        assert(a.contains(b[i]));
        assert(a.contains(b[j]));
        let k = choose|k: int| 0 <= k < a.len() && a[k] == b[i];
        let l = choose|l: int| 0 <= l < a.len() && a[l] == b[j];
        assert(b[i] != b[j]);
        assert(k != l);
    }
}

/// The key does not depend on the order in which the variables are given:
/// two lists that hold the same variables, each name once, give the same
/// bytes, the same key and the same image name.
pub proof fn lemma_key_ignores_env_order(
    base_image: Seq<char>,
    context: WorkspaceContextView,
    a: Seq<(Seq<char>, Seq<char>)>,
    b: Seq<(Seq<char>, Seq<char>)>,
)
    requires
        names_distinct(a),
        a.to_multiset() == b.to_multiset(),
    ensures
        sorted_env(a) == sorted_env(b),
        context_bytes(context, a) == context_bytes(context, b),
        derivation_key(context_bytes(context, a)) == derivation_key(context_bytes(context, b)),
        context_image_name(base_image, context, a) == context_image_name(base_image, context, b),
{
    lemma_names_stay_distinct(a, b);
    lemma_sorted_env_properties(a);
    lemma_sorted_env_properties(b);
    lemma_ordered_unique(sorted_env(a), sorted_env(b));
}

/// Two hexadecimal digits are the same only for the same value.
pub proof fn lemma_hex_digit_injective(a: int, b: int)
    requires
        0 <= a < 16,
        0 <= b < 16,
        hex_digit(a) == hex_digit(b),
    ensures
        a == b,
{
}

/// Hexadecimal text is twice as long as the bytes it writes.
pub proof fn lemma_hex_len(data: Seq<u8>)
    ensures
        hex_text(data).len() == 2 * data.len(),
    decreases data.len(),
{
    if data.len() > 0 {
        lemma_hex_len(data.drop_last());
    }
}

/// The first `2 * k` digits write the first `k` bytes.
pub proof fn lemma_hex_take(data: Seq<u8>, k: int)
    requires
        0 <= k <= data.len(),
    ensures
        hex_text(data).take(2 * k) == hex_text(data.take(k)),
    decreases data.len(),
{
    lemma_hex_len(data);
    if k == data.len() {
        assert(data.take(k) =~= data);
        assert(hex_text(data).take(2 * k) =~= hex_text(data));
    } else {
        lemma_hex_len(data.drop_last());
        lemma_hex_take(data.drop_last(), k);
        assert(data.drop_last().take(k) =~= data.take(k));
        assert(hex_text(data).take(2 * k) =~= hex_text(data.drop_last()).take(2 * k));
    }
}

/// Different bytes are written differently.
pub proof fn lemma_hex_injective(a: Seq<u8>, b: Seq<u8>)
    requires
        hex_text(a) == hex_text(b),
    ensures
        a == b,
    decreases a.len(),
{
    lemma_hex_len(a);
    lemma_hex_len(b);
    if a.len() > 0 {
        lemma_hex_len(a.drop_last());
        lemma_hex_len(b.drop_last());
        let ta = hex_text(a);
        let tb = hex_text(b);
        let n = 2 * (a.len() - 1);
        assert(ta[n] == hex_digit(a.last() as int / 16));
        assert(ta[n + 1] == hex_digit(a.last() as int % 16));
        assert(tb[n] == hex_digit(b.last() as int / 16));
        assert(tb[n + 1] == hex_digit(b.last() as int % 16));
        lemma_hex_digit_injective(a.last() as int / 16, b.last() as int / 16);
        lemma_hex_digit_injective(a.last() as int % 16, b.last() as int % 16);
        assert(a.last() == b.last());
        assert(hex_text(a.drop_last()) =~= ta.take(n));
        assert(hex_text(b.drop_last()) =~= tb.take(n));
        lemma_hex_injective(a.drop_last(), b.drop_last());
        assert(a =~= a.drop_last().push(a.last()));
        assert(b =~= b.drop_last().push(b.last()));
    } else {
        assert(a =~= b);
    }
}

/// A key is as sensitive as the digest it is cut from: two byte strings
/// have the same key exactly when their digests agree in the first eight
/// bytes. Whatever changes those bytes changes the key, and nothing else does.
pub proof fn lemma_key_follows_digest(a: Seq<u8>, b: Seq<u8>)
    requires
        is_key(derivation_key(a)),
        is_key(derivation_key(b)),
    ensures
        sha256(a).len() >= 8,
        sha256(b).len() >= 8,
        derivation_key(a) == derivation_key(b) <==> sha256(a).take(8) == sha256(b).take(8),
{
    lemma_hex_len(sha256(a));
    lemma_hex_len(sha256(b));
    lemma_hex_take(sha256(a), 8);
    lemma_hex_take(sha256(b), 8);
    if derivation_key(a) == derivation_key(b) {
        lemma_hex_injective(sha256(a).take(8), sha256(b).take(8));
    }
}

/// The key is a function of what it is taken over: the same context with
/// the same variables gives the same key and the same image name, call
/// after call.
pub proof fn lemma_same_inputs_same_key(
    base_image: Seq<char>,
    first: WorkspaceContextView,
    first_env: Seq<(Seq<char>, Seq<char>)>,
    second: WorkspaceContextView,
    second_env: Seq<(Seq<char>, Seq<char>)>,
)
    requires
        first == second,
        first_env == second_env,
    ensures
        derivation_key(context_bytes(first, first_env)) == derivation_key(
            context_bytes(second, second_env),
        ),
        context_image_name(base_image, first, first_env) == context_image_name(
            base_image,
            second,
            second_env,
        ),
{
}

/// A full image that is found is used as it is: the pass is over at once,
/// and what is left to do is to start from that image. No layer is built, so
/// no setup script runs.
pub proof fn lemma_cache_hit_builds_nothing(cache: ImageCache)
    requires
        cache.stage == CacheStage::CheckContext,
    ensures
        after_inspect(cache.stage, true) == CacheStage::Ready,
        (ImageCache { stage: after_inspect(cache.stage, true), ..cache }).action_spec()
            == CacheAction::Start(cache.context_image),
{
}

/// A pass never builds the full image before the repositories layer is
/// there: from a miss on both, the repositories are provisioned and
/// committed first, and the full image is built on top of that layer.
pub proof fn lemma_layers_in_order(cache: ImageCache)
    requires
        cache.stage == CacheStage::CheckContext,
    ensures
        after_inspect(after_inspect(cache.stage, false), false) == CacheStage::BuildRepositories,
        after_layer(CacheStage::BuildRepositories, 0) == CacheStage::CommitRepositories,
        after_commit(CacheStage::CommitRepositories) == CacheStage::BuildContext,
        after_layer(CacheStage::BuildContext, 0) == CacheStage::CommitContext,
        after_commit(CacheStage::CommitContext) == CacheStage::Ready,
        after_inspect(after_inspect(cache.stage, false), true) == CacheStage::BuildContext,
{
}

/// Changing anything changes what the key is taken over, and the key
/// follows the digest of that: two contexts with their variables that
/// differ in the name, in a repository, in the setup script or in a variable
/// are written as different bytes, and their keys are the same only if the
/// SHA-256 digests of those different bytes agree in their first eight bytes.
pub proof fn lemma_key_changes_with_inputs(
    first: WorkspaceContextView,
    first_env: Seq<(Seq<char>, Seq<char>)>,
    second: WorkspaceContextView,
    second_env: Seq<(Seq<char>, Seq<char>)>,
)
    requires
        first != second || sorted_env(first_env) != sorted_env(second_env),
        is_key(derivation_key(context_bytes(first, first_env))),
        is_key(derivation_key(context_bytes(second, second_env))),
    ensures
        context_bytes(first, first_env) != context_bytes(second, second_env),
        derivation_key(context_bytes(first, first_env)) == derivation_key(
            context_bytes(second, second_env),
        ) <==> sha256(context_bytes(first, first_env)).take(8) == sha256(
            context_bytes(second, second_env),
        ).take(8),
{
    if context_bytes(first, first_env) == context_bytes(second, second_env) {
        lemma_bytes_tell_contexts_apart(first, first_env, second, second_env);
    }
    lemma_key_follows_digest(
        context_bytes(first, first_env),
        context_bytes(second, second_env),
    );
}

} // verus!
