use rdpm::scheduler::StaggeredScheduler;
use rdpm::workspace::{TabSnapshot, Workspace, WorkspaceFile};
use rdpm::workspace_manager::WorkspaceManager;
use std::time::Duration;

#[test]
fn test_staggered_execution() {
    let scheduler = StaggeredScheduler::new(10);
    let items = vec!["Server-0", "Server-1", "Server-2"];
    let (first, rest) = scheduler.plan(items, 1);
    let mut res = Vec::new();
    res.extend(first);
    res.extend(rest);
    assert_eq!(res[0], (1, "Server-1"));
    assert_eq!(res[1], (0, "Server-0"));
    assert_eq!(res[2], (2, "Server-2"));
    assert_eq!(scheduler.interval(), Duration::from_millis(10));
}

#[test]
fn staggered_plan_without_active_item() {
    let scheduler = StaggeredScheduler::new(250);
    let (first, rest) = scheduler.plan(vec!['a', 'b'], 7);
    assert!(first.is_none());
    assert_eq!(rest, vec![(0, 'a'), (1, 'b')]);
    assert_eq!(scheduler.interval_ms(), 250);
}

fn tabs(ids: &[&str]) -> Vec<TabSnapshot> {
    ids.iter().map(|i| TabSnapshot::new(i)).collect()
}

#[test]
fn last_session_is_recorded() {
    let mut m = WorkspaceManager::load(WorkspaceFile::default());
    assert!(m.get_last_session().is_none());
    m.save_last_session(1, tabs(&["a", "b"]), 1_700_000_000);
    let w = m.get_last_session().unwrap();
    assert_eq!(w.name, "最后一次运维环境");
    assert_eq!(w.active_tab_index, 1);
    assert_eq!(w.tabs.len(), 2);
    assert_eq!(w.tabs[1].server_id, "b");
    assert_eq!(w.updated_at, 1_700_000_000);
    assert!(m.list_workspaces().is_empty());
}

#[test]
fn named_workspace_replaces_same_name() {
    let mut m = WorkspaceManager::load(WorkspaceFile::default());
    let first = m.save_named_workspace("prod", 0, tabs(&["a"]), 10);
    let other = m.save_named_workspace("test", 0, tabs(&["b"]), 20);
    let second = m.save_named_workspace("prod", 2, tabs(&["c", "d", "e"]), 30);
    assert_eq!(m.list_workspaces()[1].updated_at, 30);
    assert_ne!(first, second);
    let list = m.list_workspaces();
    assert_eq!(list.len(), 2);
    assert_eq!(list[0].id, other);
    assert_eq!(list[1].id, second);
    assert_eq!(list[1].tabs.len(), 3);
    assert_eq!(list.iter().filter(|w| w.name == "prod").count(), 1);
    assert_eq!(m.save().active_workspace_id, Some(second));
}

#[test]
fn new_workspace_is_empty() {
    let w = Workspace::new("x", 42);
    assert_eq!(w.updated_at, 42);
    assert_eq!(w.id.len(), 36);
    assert!(w.tabs.is_empty());
    assert_eq!(w.active_tab_index, 0);
    let c = w.clone();
    assert_eq!(c, w);
}
