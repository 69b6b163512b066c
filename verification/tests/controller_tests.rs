use rdpm::controller::{ActiveDialog, AppController, ControllerError};
use rdpm::dialog::ServerFormDraft;
use rdpm::server::{ServerGroup, ServerTree};
use rdpm::settings::AppSettings;
use rdpm::tabs::TabCommand;
use rdpm::vault::CredentialVault;
use rdpm::workspace::WorkspaceFile;
use rdpm::workspace_manager::WorkspaceManager;

fn controller(tree: ServerTree) -> AppController {
    AppController::new(
        tree,
        AppSettings::default(),
        CredentialVault::new(),
        WorkspaceManager::load(WorkspaceFile::default()),
    )
}

#[test]
fn test_controller_search_and_dialog_flow() {
    let mut ctrl = controller(ServerTree::new());

    let mut draft = ServerFormDraft::default();
    draft.name = "北京核心网关".to_string();
    draft.host = "10.0.0.1".to_string();
    draft.username = "root".to_string();
    draft.password = "MyTestPassword".to_string();

    assert_eq!(ctrl.add_server(draft, None), Ok(true));
    ctrl.refresh_filter();
    ctrl.close_dialog();
    assert_eq!(ctrl.tree.total_server_count(), 1);

    ctrl.set_search_query("网关");
    assert_eq!(ctrl.filtered_tree.total_server_count(), 1);

    ctrl.set_search_query("shanghai");
    assert_eq!(ctrl.filtered_tree.total_server_count(), 0);

    ctrl.clear_search();
    assert_eq!(ctrl.filtered_tree.total_server_count(), 1);

    ctrl.open_dialog(ActiveDialog::NewServer);
    assert_eq!(ctrl.active_dialog, Some(ActiveDialog::NewServer));

    ctrl.close_dialog();
    assert_eq!(ctrl.active_dialog, None);
}

#[test]
fn added_password_is_kept_in_the_vault() {
    let mut ctrl = controller(ServerTree::new());
    let mut draft = ServerFormDraft::default();
    draft.name = " gw ".to_string();
    draft.host = "10.0.0.1".to_string();
    draft.password = "pw".to_string();
    ctrl.add_server(draft, None).unwrap();
    let id = ctrl.tree.ungrouped_servers[0].id.clone();
    let cred = ctrl.tree.ungrouped_servers[0].credential_id.clone().unwrap();
    let item = ctrl.vault.get(&cred).unwrap();
    assert_eq!(item.name, "gw-凭据");
    assert_eq!(item.username, "administrator");
    let (server, password) = ctrl.connection_for(&id).unwrap();
    assert_eq!(server.name, "gw");
    assert_eq!(password, Some("pw".to_string()));
    assert_eq!(ctrl.connection_for("nope").unwrap_err(), ControllerError::ServerNotFound);
}

#[test]
fn add_server_into_a_group_or_root() {
    let mut tree = ServerTree::new();
    let g = ServerGroup::new("prod");
    let gid = g.id.clone();
    tree.groups.push(g);
    let mut ctrl = controller(tree);
    let mut draft = ServerFormDraft::default();
    draft.name = "a".to_string();
    draft.host = "h".to_string();
    assert_eq!(ctrl.add_server(draft.clone(), Some(&gid)), Ok(false));
    assert_eq!(ctrl.tree.groups[0].servers.len(), 1);
    assert_eq!(ctrl.add_server(draft.clone(), Some("unknown")), Ok(false));
    assert_eq!(ctrl.tree.ungrouped_servers.len(), 1);
    assert!(ctrl.vault.list().is_empty());
    draft.port = "x".to_string();
    assert!(ctrl.add_server(draft, None).is_err());
    assert_eq!(ctrl.tree.total_server_count(), 2);
}

#[test]
fn snapshots_follow_the_tabs() {
    let mut tree = ServerTree::new();
    let mut d = ServerFormDraft::default();
    d.name = "a".to_string();
    d.host = "h".to_string();
    let (s, _) = d.validate_and_convert().unwrap();
    tree.ungrouped_servers.push(s.clone());
    let mut ctrl = controller(tree);
    ctrl.tab_container.open_server(&s);
    assert_eq!(ctrl.open_dialog(ActiveDialog::SaveWorkspace), vec![TabCommand::Hide(0)]);
    let id = ctrl.save_named_workspace("ops", 100);
    assert_eq!(ctrl.workspace_mgr.list_workspaces()[0].id, id);
    ctrl.record_session_snapshot(200);
    let last = ctrl.workspace_mgr.get_last_session().unwrap();
    assert_eq!(last.tabs[0].server_id, s.id);
    assert_eq!(last.active_tab_index, 0);
    assert_eq!(last.name, "最后一次运维环境");
    assert_eq!(last.updated_at, 200);
    assert!(last.tabs[0].custom_title.is_none() && !last.tabs[0].is_pinned);
}
