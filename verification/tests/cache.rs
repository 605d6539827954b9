use derrick::cache::{
    context_hash, context_image, repositories_hash, repositories_image, setup_outcome, sort_env,
    CacheAction, CacheStage, ImageCache, BASE_IMAGE,
};
use derrick::controller::CommandOutput;
use derrick::encoding::{write_field, write_number, write_repositories, write_variables};
use derrick::error::WorkspaceError;
use derrick::provider::WorkspaceContext;
use derrick::repository::Repository;

fn repo(url: &str, path: &str, reference: Option<&str>) -> Repository {
    Repository {
        url: url.to_string(),
        path: path.to_string(),
        reference: reference.map(|r| r.to_string()),
    }
}

fn context() -> WorkspaceContext {
    WorkspaceContext {
        name: "demo".to_string(),
        repositories: vec![repo("https://example.test/x/y", "/src", None)],
        setup_script: "echo hi".to_string(),
    }
}

fn env(pairs: &[(&str, &str)]) -> Vec<(String, String)> {
    pairs.iter().map(|(k, v)| (k.to_string(), v.to_string())).collect()
}

#[test]
fn repositories_key_is_the_start_of_the_digest() {
    assert_eq!(repositories_hash(&vec![]), "f1ab6b1fa3e07be0");
    assert_eq!(
        repositories_hash(&vec![repo("https://example.test/x/y", "/src", None)]),
        "03ca4b9a3eba57bc"
    );
    assert_eq!(
        repositories_hash(&vec![repo("https://example.test/x/y", "/src", Some("main"))]),
        "c826435919d83762"
    );
}

#[test]
fn context_key_is_the_start_of_the_digest() {
    assert_eq!(context_hash(&context(), &vec![]), "7e55b39e2493f29c");
    assert_eq!(context_hash(&context(), &env(&[("A", "1"), ("B", "2")])), "84c6a863561fdd53");
}

#[test]
fn keys_have_sixteen_hex_digits() {
    let key = context_hash(&context(), &env(&[("PATH", "/bin")]));
    assert_eq!(key.len(), 16);
    assert!(key.chars().all(|c| c.is_ascii_hexdigit() && !c.is_ascii_uppercase()));
}

#[test]
fn same_inputs_same_key() {
    let e = env(&[("A", "1")]);
    assert_eq!(context_hash(&context(), &e), context_hash(&context(), &e));
    assert_eq!(
        context_image(BASE_IMAGE, &context(), &e),
        context_image(BASE_IMAGE, &context(), &e)
    );
}

#[test]
fn key_does_not_depend_on_the_order_of_the_variables() {
    let one = env(&[("A", "1"), ("B", "2"), ("C", "3")]);
    let other = env(&[("C", "3"), ("A", "1"), ("B", "2")]);
    assert_eq!(context_hash(&context(), &one), context_hash(&context(), &other));
}

#[test]
fn sort_env_orders_by_name_and_keeps_ties() {
    let sorted = sort_env(&env(&[("b", "1"), ("a", "2"), ("b", "0"), ("A", "3")]));
    assert_eq!(sorted, env(&[("A", "3"), ("a", "2"), ("b", "1"), ("b", "0")]));
    assert_eq!(sort_env(&vec![]), vec![]);
}

#[test]
fn key_changes_with_each_input() {
    let base = context_hash(&context(), &env(&[("A", "1")]));
    let mut renamed = context();
    renamed.name = "demo2".to_string();
    let mut other_url = context();
    other_url.repositories[0].url = "https://example.test/x/z".to_string();
    let mut other_path = context();
    other_path.repositories[0].path = "/srv".to_string();
    let mut other_ref = context();
    other_ref.repositories[0].reference = Some("v1".to_string());
    let mut other_script = context();
    other_script.setup_script = "echo ho".to_string();
    for changed in [renamed, other_url, other_path, other_ref, other_script] {
        assert_ne!(context_hash(&changed, &env(&[("A", "1")])), base);
    }
    assert_ne!(context_hash(&context(), &env(&[("A", "2")])), base);
    assert_ne!(context_hash(&context(), &env(&[("B", "1")])), base);
    assert_ne!(context_hash(&context(), &env(&[])), base);
}

#[test]
fn image_names() {
    let repositories = vec![repo("https://example.test/x/y", "/src", None)];
    assert_eq!(
        repositories_image(BASE_IMAGE, &repositories),
        "bosunai-build-baseimage-cache-03ca4b9a3eba57bc"
    );
    assert_eq!(
        context_image(BASE_IMAGE, &context(), &vec![]),
        "demo-bosunai-build-baseimage-cache-7e55b39e2493f29c"
    );
}

#[test]
fn cache_hit_starts_from_the_image_at_once() {
    let mut cache = ImageCache::prepare_image(BASE_IMAGE, &context(), &vec![]);
    assert_eq!(cache.stage, CacheStage::CheckContext);
    assert_eq!(cache.action(), CacheAction::Inspect(cache.context_image.clone()));
    cache.inspected(true);
    assert_eq!(cache.stage, CacheStage::Ready);
    assert_eq!(cache.action(), CacheAction::Start(cache.context_image.clone()));
}

#[test]
fn cold_cache_builds_both_layers_in_order() {
    let ok = CommandOutput { output: "".to_string(), exit_code: 0 };
    let mut cache = ImageCache::prepare_image(BASE_IMAGE, &context(), &vec![]);
    cache.inspected(false);
    assert_eq!(cache.action(), CacheAction::Inspect(cache.repositories_image.clone()));
    cache.inspected(false);
    assert_eq!(
        cache.action(),
        CacheAction::BuildRepositoriesLayer { from_image: BASE_IMAGE.to_string() }
    );
    assert_eq!(cache.layer_finished(&ok), Ok(()));
    assert_eq!(cache.action(), CacheAction::Commit { image: cache.repositories_image.clone() });
    cache.committed();
    assert_eq!(
        cache.action(),
        CacheAction::BuildContextLayer { from_image: cache.repositories_image.clone() }
    );
    assert_eq!(cache.layer_finished(&ok), Ok(()));
    assert_eq!(cache.action(), CacheAction::Commit { image: cache.context_image.clone() });
    cache.committed();
    assert_eq!(cache.action(), CacheAction::Start(cache.context_image.clone()));
}

#[test]
fn cached_repositories_layer_is_reused() {
    let mut cache = ImageCache::prepare_image(BASE_IMAGE, &context(), &vec![]);
    cache.inspected(false);
    cache.inspected(true);
    assert_eq!(cache.stage, CacheStage::BuildContext);
}

#[test]
fn clone_fresh_then_reprovision_hits_the_cache() {
    let ok = CommandOutput { output: "".to_string(), exit_code: 0 };
    let recipe = WorkspaceContext {
        name: "demo".to_string(),
        repositories: vec![repo("https://example.test/x/y", "/src", None)],
        setup_script: "touch /marker".to_string(),
    };
    let mut first = ImageCache::prepare_image(BASE_IMAGE, &recipe, &vec![]);
    first.inspected(false);
    first.inspected(false);
    first.layer_finished(&ok).unwrap();
    first.committed();
    first.layer_finished(&ok).unwrap();
    first.committed();
    assert_eq!(first.stage, CacheStage::Ready);
    let mut second = ImageCache::prepare_image(BASE_IMAGE, &recipe, &vec![]);
    assert_eq!(second.context_image, first.context_image);
    second.inspected(true);
    assert!(matches!(second.action(), CacheAction::Start(_)));
}

#[test]
fn setup_script_failure_aborts_provisioning() {
    let failed = CommandOutput { output: "no such file\n".to_string(), exit_code: 7 };
    let expected = Err(WorkspaceError::Backend(
        "Setup script failed with exit code 7: no such file\n".to_string(),
    ));
    assert_eq!(setup_outcome(&failed), expected);
    let mut cache = ImageCache::prepare_image(BASE_IMAGE, &context(), &vec![]);
    cache.inspected(false);
    cache.inspected(true);
    assert_eq!(cache.stage, CacheStage::BuildContext);
    assert_eq!(cache.layer_finished(&failed), expected);
    assert_eq!(cache.stage, CacheStage::BuildContext);
    assert!(!matches!(cache.action(), CacheAction::Commit { .. }));
    let mut retry = ImageCache::prepare_image(BASE_IMAGE, &context(), &vec![]);
    retry.inspected(false);
    retry.inspected(true);
    assert!(matches!(retry.action(), CacheAction::BuildContextLayer { .. }));
}

#[test]
fn failed_provisioning_commits_no_repositories_layer() {
    let failed = CommandOutput { output: "fatal: not found".to_string(), exit_code: 128 };
    let mut cache = ImageCache::prepare_image(BASE_IMAGE, &context(), &vec![]);
    cache.inspected(false);
    cache.inspected(false);
    assert_eq!(
        cache.layer_finished(&failed),
        Err(WorkspaceError::Backend(
            "Provisioning repositories failed with exit code 128: fatal: not found".to_string()
        ))
    );
    assert_eq!(cache.stage, CacheStage::BuildRepositories);
    assert!(matches!(cache.action(), CacheAction::BuildRepositoriesLayer { .. }));
}

#[test]
fn reports_out_of_turn_leave_the_pass_alone() {
    let ok = CommandOutput { output: "".to_string(), exit_code: 0 };
    let mut cache = ImageCache::prepare_image(BASE_IMAGE, &context(), &vec![]);
    cache.committed();
    assert_eq!(cache.layer_finished(&ok), Ok(()));
    assert_eq!(cache.stage, CacheStage::CheckContext);
}

#[test]
fn setup_script_success_lets_the_image_be_committed() {
    let fine = CommandOutput { output: "done".to_string(), exit_code: 0 };
    assert_eq!(setup_outcome(&fine), Ok(()));
}

#[test]
fn fields_that_run_together_get_different_keys() {
    let one = vec![repo("ab", "c", None)];
    let other = vec![repo("a", "bc", None)];
    assert_ne!(repositories_hash(&one), repositories_hash(&other));
    let mut first = context();
    first.repositories = one;
    let mut second = context();
    second.repositories = other;
    assert_ne!(context_hash(&first, &vec![]), context_hash(&second, &vec![]));
    assert_ne!(
        context_hash(&context(), &env(&[("A", "BC")])),
        context_hash(&context(), &env(&[("AB", "C")]))
    );
}

#[test]
fn reference_none_and_empty_get_different_keys() {
    assert_ne!(
        repositories_hash(&vec![repo("https://example.test/x/y", "/src", None)]),
        repositories_hash(&vec![repo("https://example.test/x/y", "/src", Some(""))])
    );
}

#[test]
fn repositories_in_another_order_get_another_key() {
    let a = repo("https://example.test/a", "/a", None);
    let b = repo("https://example.test/b", "/b", None);
    assert_ne!(
        repositories_hash(&vec![a.clone(), b.clone()]),
        repositories_hash(&vec![b, a])
    );
}

#[test]
fn name_and_script_do_not_run_together() {
    let mut first = context();
    first.name = "demo1".to_string();
    first.repositories = vec![];
    first.setup_script = "x".to_string();
    let mut second = context();
    second.name = "demo".to_string();
    second.repositories = vec![];
    second.setup_script = "1x".to_string();
    assert_ne!(context_hash(&first, &vec![]), context_hash(&second, &vec![]));
}

#[test]
fn canonical_text_puts_lengths_in_front() {
    let mut text = String::new();
    write_field(&mut text, "demo");
    write_field(&mut text, "");
    write_field(&mut text, "é🌍");
    write_number(&mut text, 12, ';');
    assert_eq!(text, "4:demo0:2:é🌍12;");
    let mut repositories = String::from("x");
    write_repositories(
        &mut repositories,
        &vec![
            repo("https://example.test/x/y", "/src", None),
            repo("u", "p", Some("main")),
            repo("u", "p", Some("")),
        ],
    );
    assert_eq!(repositories, "x3;24:https://example.test/x/y4:/src-1:u1:p+4:main1:u1:p+0:");
    let mut variables = String::new();
    write_variables(&mut variables, &env(&[("A", "BC"), ("AB", "C")]));
    assert_eq!(variables, "2;1:A2:BC2:AB1:C");
    let mut none = String::new();
    write_variables(&mut none, &vec![]);
    assert_eq!(none, "0;");
}
