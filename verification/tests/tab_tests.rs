use rdpm::geometry::PhysicalBounds;
use rdpm::server::ServerEntry;
use rdpm::tabs::{TabCommand, TabContainer};

#[test]
fn opening_a_server_twice_reuses_its_tab() {
    let mut tc = TabContainer::new();
    let a = ServerEntry::new("a", "1", "u");
    let b = ServerEntry::new("b", "2", "u");
    let (ia, cmds) = tc.open_server(&a);
    assert_eq!(ia, 0);
    assert_eq!(cmds, vec![TabCommand::Show(0), TabCommand::Place(0, PhysicalBounds::default())]);
    let (ib, cmds) = tc.open_server(&b);
    assert_eq!(ib, 1);
    assert_eq!(cmds, vec![TabCommand::Hide(0), TabCommand::Show(1), TabCommand::Place(1, PhysicalBounds::default())]);
    let (again, cmds) = tc.open_server(&a);
    assert_eq!(again, 0);
    assert_eq!(cmds, vec![TabCommand::Hide(1), TabCommand::Show(0)]);
    assert_eq!(tc.tabs().len(), 2);
    assert_eq!(tc.active_index(), Some(0));
    assert_eq!(tc.position_of(&b.id), Some(1));
}

#[test]
fn set_active_tab_out_of_range_does_nothing() {
    let mut tc = TabContainer::new();
    tc.open_server(&ServerEntry::new("a", "1", "u"));
    assert!(tc.set_active_tab(5).is_empty());
    assert_eq!(tc.active_index(), Some(0));
}

#[test]
fn closing_tabs_moves_the_selection() {
    let mut tc = TabContainer::new();
    for n in ["a", "b", "c"] {
        tc.open_server(&ServerEntry::new(n, "h", "u"));
    }
    assert!(tc.close_tab(9).is_none());
    let removed = tc.close_tab(2).unwrap();
    assert_eq!(removed.title, "c");
    let cmds = tc.select_after_close(2);
    assert_eq!(tc.active_index(), Some(1));
    assert!(cmds.contains(&TabCommand::Show(1)));
    tc.close_tab(0).unwrap();
    tc.select_after_close(0);
    assert_eq!(tc.active_index(), Some(0));
    assert_eq!(tc.tabs()[0].title, "b");
    tc.close_tab(0).unwrap();
    assert!(tc.select_after_close(0).is_empty());
    assert_eq!(tc.active_index(), None);
}

#[test]
fn resizing_places_only_the_active_tab() {
    let mut tc = TabContainer::new();
    tc.open_server(&ServerEntry::new("a", "1", "u"));
    tc.open_server(&ServerEntry::new("b", "2", "u"));
    let b = PhysicalBounds::new(0, 40, 800, 600);
    assert_eq!(tc.update_content_bounds(b), vec![TabCommand::Place(1, b)]);
    assert!(tc.update_content_bounds(b).is_empty());
    assert_eq!(tc.tabs()[1].applied_bounds, Some(b));
    assert_eq!(tc.tabs()[0].applied_bounds, Some(PhysicalBounds::default()));
    let cmds = tc.set_active_tab(0);
    assert_eq!(cmds, vec![TabCommand::Hide(1), TabCommand::Show(0), TabCommand::Place(0, b)]);
}

#[test]
fn dialogs_hide_and_restore_the_active_tab() {
    let mut tc = TabContainer::new();
    assert!(tc.temporarily_hide_active().is_empty());
    tc.open_server(&ServerEntry::new("a", "1", "u"));
    assert_eq!(tc.temporarily_hide_active(), vec![TabCommand::Hide(0)]);
    assert_eq!(tc.restore_active(), vec![TabCommand::Show(0)]);
}

#[test]
fn snapshot_lists_open_servers() {
    let mut tc = TabContainer::new();
    let a = ServerEntry::new("a", "1", "u");
    let b = ServerEntry::new("b", "2", "u");
    tc.open_server(&a);
    tc.open_server(&b);
    let snap = tc.export_snapshot();
    assert_eq!(snap.len(), 2);
    assert_eq!(snap[0].server_id, a.id);
    assert_eq!(snap[1].server_id, b.id);
    assert!(!snap[0].is_pinned && snap[0].custom_title.is_none());
}
