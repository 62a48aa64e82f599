//! Projects in the store.

use claustre::store::models::{PushMode, TaskMode};
use claustre::store::Store;

#[test]
fn create_and_get_project() {
    let mut store = Store::open_in_memory().unwrap();
    let project = store
        .create_project("my-app", "/home/user/my-app", "main", true)
        .unwrap();

    assert_eq!(project.name, "my-app");
    assert_eq!(project.repo_path, "/home/user/my-app");
    assert_eq!(project.default_branch, "main");
    assert!(project.is_git_linked);

    let fetched = store.get_project(&project.id).unwrap();
    assert_eq!(fetched.id, project.id);
    assert_eq!(fetched.name, "my-app");
}

#[test]
fn list_projects_ordered_by_name() {
    let mut store = Store::open_in_memory().unwrap();
    store
        .create_project("zebra", "/tmp/z", "main", true)
        .unwrap();
    store
        .create_project("alpha", "/tmp/a", "main", true)
        .unwrap();
    store
        .create_project("middle", "/tmp/m", "main", true)
        .unwrap();

    let projects = store.list_projects().unwrap();
    assert_eq!(projects.len(), 3);
    assert_eq!(projects[0].name, "alpha");
    assert_eq!(projects[1].name, "middle");
    assert_eq!(projects[2].name, "zebra");
}

#[test]
fn delete_project_cascades_to_tasks_and_sessions() {
    let mut store = Store::open_in_memory().unwrap();
    let project = store.create_project("p", "/tmp/p", "main", true).unwrap();
    store
        .create_task(&project.id, "t", "", TaskMode::Supervised, None, None, PushMode::Pr, false)
        .unwrap();
    store
        .create_session(&project.id, "feat", "/tmp/wt", "tab")
        .unwrap();

    store.delete_project(&project.id).unwrap();

    assert!(store.list_projects().unwrap().is_empty());
    assert!(
        store
            .list_tasks_for_project(&project.id)
            .unwrap()
            .is_empty()
    );
    assert!(
        store
            .list_active_sessions_for_project(&project.id)
            .unwrap()
            .is_empty()
    );
}

#[test]
fn duplicate_repo_path_fails() {
    let mut store = Store::open_in_memory().unwrap();
    store
        .create_project("first", "/tmp/same", "main", true)
        .unwrap();

    // repo_path has UNIQUE constraint
    let result = store.create_project("second", "/tmp/same", "main", true);
    assert!(result.is_err());
}

#[test]
fn get_nonexistent_project_fails() {
    let mut store = Store::open_in_memory().unwrap();
    let result = store.get_project("nonexistent-id");
    assert!(result.is_err());
}
