use neorg_ls::state::State;
use neorg_ls::workspace::{Workspace, WorkspaceManager};

fn ws(name: &str, path: &str) -> Workspace {
    Workspace { name: String::from(name), path: String::from(path) }
}

#[test]
fn single_workspace_is_current() {
    let m = WorkspaceManager::from_single_workspace(ws("main", "file:///m/"));
    assert_eq!(m.get_current_workspace().name, "main");
    assert_eq!(m.get_current_workspace().path, "file:///m/");
    assert!(m.get_workspace(&String::from("main")).is_some());
    assert!(m.get_workspace(&String::from("other")).is_none());
}

#[test]
fn new_requires_the_default_to_exist() {
    let list = vec![ws("a", "file:///a/"), ws("b", "file:///b/")];
    let m = WorkspaceManager::new(list, String::from("b")).unwrap();
    assert_eq!(m.get_current_workspace().name, "b");

    let list2 = vec![ws("a", "file:///a/")];
    let err = WorkspaceManager::new(list2, String::from("missing")).unwrap_err();
    assert_eq!(err.workspace, "missing");
}

#[test]
fn set_current_workspace_checks_the_name() {
    let list = vec![ws("a", "file:///a/"), ws("b", "file:///b/")];
    let mut m = WorkspaceManager::new(list, String::from("a")).unwrap();
    m.set_current_workspace(String::from("b")).unwrap();
    assert_eq!(m.get_current_workspace().name, "b");
    let err = m.set_current_workspace(String::from("zzz")).unwrap_err();
    assert_eq!(err.workspace, "zzz");
    // a failed switch leaves the selection unchanged
    assert_eq!(m.get_current_workspace().name, "b");
}

#[test]
fn add_workspace_overwrites_by_name() {
    let mut m = WorkspaceManager::from_single_workspace(ws("a", "file:///old/"));
    m.add_workspace(ws("a", "file:///new/"));
    assert_eq!(m.get_workspace(&String::from("a")).unwrap().path, "file:///new/");
    m.add_workspace(ws("b", "file:///b/"));
    assert_eq!(m.get_workspace(&String::from("b")).unwrap().path, "file:///b/");
    assert_eq!(m.get_current_workspace().name, "a");
}

#[test]
fn state_holds_the_opened_workspace() {
    let s = State::new(Some(ws("root", "file:///r/")));
    assert_eq!(s.workspace.as_ref().unwrap().name, "root");
    let none = State::new(None);
    assert!(none.workspace.is_none());
}
