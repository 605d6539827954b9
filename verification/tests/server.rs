use derrick::error::WorkspaceError;
use derrick::provider::WorkspaceContext;
use derrick::server::Server;

fn server() -> Server<&'static str, u32> {
    let context = WorkspaceContext {
        name: "demo".to_string(),
        repositories: vec![],
        setup_script: "true".to_string(),
    };
    Server::create_server(context, "provider").unwrap()
}

fn not_found(id: &str) -> WorkspaceError {
    WorkspaceError::NotFound(format!("Workspace not found: {}", id))
}

#[test]
fn new_server_has_no_workspaces() {
    let s = server();
    assert_eq!(s.list_workspaces(), Vec::<String>::new());
    assert_eq!(s.context().name, "demo");
    assert_eq!(*s.provider(), "provider");
    assert_eq!(s.workspace("anything"), Err(not_found("anything")));
}

#[test]
fn created_workspace_is_found_under_its_id() {
    let mut s = server();
    let id = s.create_workspace(7);
    assert_eq!(id.len(), 36);
    assert_eq!(s.workspace(&id), Ok(&7));
    assert_eq!(s.list_workspaces(), vec![id]);
}

#[test]
fn ids_are_fresh() {
    let mut s = server();
    let a = s.create_workspace(1);
    let b = s.create_workspace(2);
    assert_ne!(a, b);
    assert_eq!(s.workspace(&a), Ok(&1));
    assert_eq!(s.workspace(&b), Ok(&2));
    assert_eq!(s.list_workspaces(), vec![a, b]);
}

#[test]
fn destroy_is_authoritative() {
    let mut s = server();
    let id = s.create_workspace(7);
    let other = s.create_workspace(8);
    assert_eq!(s.destroy_workspace(&id), Some(7));
    assert_eq!(s.workspace(&id), Err(not_found(&id)));
    assert_eq!(s.destroy_workspace(&id), None);
    assert_eq!(s.workspace(&other), Ok(&8));
    assert_eq!(s.list_workspaces(), vec![other]);
}

#[test]
fn destroy_of_an_unknown_id_changes_nothing() {
    let mut s = server();
    let id = s.create_workspace(7);
    assert_eq!(s.destroy_workspace("nope"), None);
    assert_eq!(s.workspace(&id), Ok(&7));
}

#[test]
fn register_replaces_what_had_the_id() {
    let mut s = server();
    assert_eq!(s.register("a".to_string(), 1), None);
    assert_eq!(s.register("b".to_string(), 2), None);
    assert_eq!(s.register("a".to_string(), 3), Some(1));
    assert_eq!(s.workspace("a"), Ok(&3));
    assert_eq!(s.workspace("b"), Ok(&2));
    assert_eq!(s.list_workspaces(), vec!["b".to_string(), "a".to_string()]);
}
