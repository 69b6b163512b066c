use crate::dialog::{form_error, form_fields, FormError, ServerFormDraft};
use crate::search::{filter_tree_view, ServerSearch};
use crate::server::{
    entries_view, group_view, groups_view, lemma_groups_view_index, lemma_groups_view_update,
    opt_str, text_equals, tree_find, group_count, groups_count, tree_count, ServerEntry, ServerEntryView, ServerGroupView, ServerTree,
    ServerTreeView,
};
use crate::settings::AppSettings;
use crate::tabs::{active_or_zero, tab_snapshots, TabCommand, TabContainer};
use crate::text::trimmed;
use crate::vault::{CredentialItem, CredentialVault, CredentialView};
use crate::workspace::{snapshots_view, WorkspaceView};
use crate::workspace_manager::{last_session_name, without_name, WorkspaceManager};
use vstd::prelude::*;

verus! {

/// The dialog currently open.
#[derive(Debug, Clone, PartialEq, Eq)]
pub enum ActiveDialog {
    NewServer,
    EditServer { server_id: String },
    SaveWorkspace,
    Settings,
}

/// Why the controller refused a request.
#[derive(Debug, Clone, Copy, PartialEq, Eq)]
pub enum ControllerError {
    /// No server has the requested id.
    ServerNotFound,
}

impl ControllerError {
    /// The message shown to the user.
    pub fn message(&self) -> (m: String)
        ensures
            m@ == "未找到指定 ID 的服务器"@,
    {
        "未找到指定 ID 的服务器".to_string()
    }
}

/// Index of the first top-level group with the given id.
pub open spec fn group_id_index(gs: Seq<ServerGroupView>, id: Seq<char>) -> Option<int>
    decreases gs.len(),
{
    if gs.len() == 0 {
        None
    } else {
        match group_id_index(gs.drop_last(), id) {
            Some(k) => Some(k),
            None => if gs.last().id == id {
                Some(gs.len() - 1)
            } else {
                None
            },
        }
    }
}

pub proof fn lemma_group_id_index(gs: Seq<ServerGroupView>, id: Seq<char>)
    ensures
        match group_id_index(gs, id) {
            Some(k) => 0 <= k < gs.len() && gs[k].id == id && forall|j: int|
                0 <= j < k ==> #[trigger] gs[j].id != id,
            None => forall|j: int| 0 <= j < gs.len() ==> #[trigger] gs[j].id != id,
        },
    decreases gs.len(),
{
    if gs.len() > 0 {
        let t = gs.drop_last();
        lemma_group_id_index(t, id);
        assert forall|j: int| 0 <= j < t.len() implies #[trigger] gs[j] == t[j] by {}
    }
}

/// The tree with `e` added to the top-level group `target` (the first with
/// that id), or to the ungrouped servers when there is no such group.
pub open spec fn tree_insert(t: ServerTreeView, target: Option<Seq<char>>, e: ServerEntryView) -> ServerTreeView {
    let ungrouped = ServerTreeView { ungrouped_servers: t.ungrouped_servers.push(e), ..t };
    match target {
        Some(g) => match group_id_index(t.groups, g) {
            Some(k) => ServerTreeView {
                groups: t.groups.update(
                    k,
                    ServerGroupView { servers: t.groups[k].servers.push(e), ..t.groups[k] },
                ),
                ..t
            },
            None => ungrouped,
        },
        None => ungrouped,
    }
}

/// Replacing one group of a list changes the list's server count by the
/// difference between the new group's count and the old one's.
proof fn lemma_groups_count_update(gs: Seq<ServerGroupView>, k: int, x: ServerGroupView)
    requires
        0 <= k < gs.len(),
    ensures
        groups_count(gs.update(k, x)) == groups_count(gs) - group_count(gs[k]) + group_count(x),
    decreases gs.len(),
{
    let u = gs.update(k, x);
    if k == gs.len() - 1 {
        assert(u.drop_last() =~= gs.drop_last());
    } else {
        lemma_groups_count_update(gs.drop_last(), k, x);
        assert(u.drop_last() =~= gs.drop_last().update(k, x));
    }
}

/// Adding a server, into a group or among the ungrouped servers, adds
/// exactly one to the number of servers in the tree.
pub proof fn lemma_insert_counts_one(t: ServerTreeView, target: Option<Seq<char>>, e: ServerEntryView)
    ensures
        tree_count(tree_insert(t, target, e)) == tree_count(t) + 1,
{
    if let Some(g) = target {
        lemma_group_id_index(t.groups, g);
        if let Some(k) = group_id_index(t.groups, g) {
            let x = ServerGroupView { servers: t.groups[k].servers.push(e), ..t.groups[k] };
            lemma_groups_count_update(t.groups, k, x);
        }
    }
}

/// The credential a new server's password is stored under, given its id.
pub open spec fn server_credential(d: ServerFormDraft, id: Seq<char>) -> CredentialView {
    CredentialView {
        id,
        name: trimmed(d.name@) + "-凭据"@,
        username: trimmed(d.username@),
        domain: None,
        password: d.password@,
        description: None,
    }
}

/// Which parts of the controller an operation may change.
pub struct Parts {
    pub tree: bool,
    pub filtered_tree: bool,
    pub search_query: bool,
    pub vault: bool,
    pub tab_container: bool,
    pub workspace_mgr: bool,
    pub active_dialog: bool,
}

/// No part of the controller changes.
pub open spec fn no_parts() -> Parts {
    Parts {
        tree: false,
        filtered_tree: false,
        search_query: false,
        vault: false,
        tab_container: false,
        workspace_mgr: false,
        active_dialog: false,
    }
}

/// `b` equals `a` in every part not listed in `may_change`; the settings never change.
pub open spec fn unchanged_except(a: AppController, b: AppController, may_change: Parts) -> bool {
    &&& may_change.tree || b.tree@ == a.tree@
    &&& may_change.filtered_tree || b.filtered_tree@ == a.filtered_tree@
    &&& may_change.search_query || b.search_query@ == a.search_query@
    &&& may_change.vault || b.vault@ == a.vault@
    &&& may_change.tab_container || b.tab_container@ == a.tab_container@
    &&& may_change.workspace_mgr || b.workspace_mgr@ == a.workspace_mgr@
    &&& may_change.active_dialog || b.active_dialog == a.active_dialog
    &&& b.settings == a.settings
}

/// Main interaction state: the server tree and its filtered view, the search
/// query, the vault, the tabs, the workspaces, the settings and the open
/// dialog. Reading and writing files, and the native session windows, are
/// the caller's part.
pub struct AppController {
    /// The whole server tree.
    pub tree: ServerTree,
    /// The tree as filtered by the search query.
    pub filtered_tree: ServerTree,
    pub search_query: String,
    pub vault: CredentialVault,
    pub tab_container: TabContainer,
    pub workspace_mgr: WorkspaceManager,
    pub settings: AppSettings,
    pub active_dialog: Option<ActiveDialog>,
}

impl AppController {
    /// A controller over the loaded data: nothing filtered, no tab, no dialog.
    pub fn new(tree: ServerTree, settings: AppSettings, vault: CredentialVault, workspace_mgr: WorkspaceManager) -> (c: Self)
        ensures
            c.tree@ == tree@,
            c.filtered_tree@ == tree@,
            c.search_query@.len() == 0,
            c.vault@ == vault@,
            c.tab_container@.tabs.len() == 0,
            c.tab_container@.active_index is None,
            c.workspace_mgr@ == workspace_mgr@,
            c.settings == settings,
            c.active_dialog is None,
    {
        let filtered_tree = tree.clone();
        AppController {
            tree,
            filtered_tree,
            search_query: String::new(),
            vault,
            tab_container: TabContainer::new(),
            workspace_mgr,
            settings,
            active_dialog: None,
        }
    }

    /// Sets the search query and filters the tree with it.
    pub fn set_search_query(&mut self, query: &str)
        ensures
            final(self).search_query@ == query@,
            final(self).filtered_tree@ == filter_tree_view(old(self).tree@, query@),
            unchanged_except(
                *old(self),
                *final(self),
                Parts { filtered_tree: true, search_query: true, ..no_parts() },
            ),
    {
        self.search_query = query.to_string();
        self.filtered_tree = ServerSearch::filter_tree(&self.tree, query);
    }

    /// Clears the search: the whole tree is shown again.
    pub fn clear_search(&mut self)
        ensures
            final(self).search_query@.len() == 0,
            final(self).filtered_tree@ == old(self).tree@,
            unchanged_except(
                *old(self),
                *final(self),
                Parts { filtered_tree: true, search_query: true, ..no_parts() },
            ),
    {
        self.search_query = String::new();
        self.filtered_tree = self.tree.clone();
    }

    /// Filters the tree again with the current query (after the tree changed).
    pub fn refresh_filter(&mut self)
        ensures
            final(self).filtered_tree@ == filter_tree_view(old(self).tree@, old(self).search_query@),
            unchanged_except(*old(self), *final(self), Parts { filtered_tree: true, ..no_parts() }),
    {
        self.filtered_tree = ServerSearch::filter_tree(&self.tree, self.search_query.as_str());
    }

    /// The server to connect to and its stored password, if its credential
    /// is in the vault.
    pub fn connection_for(&self, server_id: &str) -> (r: Result<(ServerEntry, Option<String>), ControllerError>)
        ensures
            match tree_find(self.tree@, server_id@) {
                Some(e) => r matches Ok((s, p)) && s@ == e && opt_str(p) == match e.credential_id {
                    Some(c) => if self.vault@.contains_key(c) {
                        Some(self.vault@[c].password)
                    } else {
                        None
                    },
                    None => None,
                },
                None => r == Err::<(ServerEntry, Option<String>), ControllerError>(ControllerError::ServerNotFound),
            },
    {
        let server = match self.tree.find_server(server_id) {
            Some(s) => s.clone(),
            None => return Err(ControllerError::ServerNotFound),
        };
        let password = match &server.credential_id {
            Some(cred_id) => match self.vault.get(cred_id.as_str()) {
                Some(item) => Some(item.password.expose()),
                None => None,
            },
            None => None,
        };
        Ok((server, password))
    }

    /// Opens a dialog; the active session window is hidden meanwhile.
    pub fn open_dialog(&mut self, dialog: ActiveDialog) -> (cmds: Vec<TabCommand>)
        ensures
            final(self).active_dialog == Some(dialog),
            cmds@ == match old(self).tab_container@.active_index {
                Some(a) if a < old(self).tab_container@.tabs.len() => seq![TabCommand::Hide(a)],
                _ => Seq::<TabCommand>::empty(),
            },
            unchanged_except(*old(self), *final(self), Parts { active_dialog: true, ..no_parts() }),
    {
        self.active_dialog = Some(dialog);
        self.tab_container.temporarily_hide_active()
    }

    /// Closes the dialog; the active session window is shown again.
    pub fn close_dialog(&mut self) -> (cmds: Vec<TabCommand>)
        ensures
            final(self).active_dialog is None,
            cmds@ == match old(self).tab_container@.active_index {
                Some(a) if a < old(self).tab_container@.tabs.len() => seq![TabCommand::Show(a)],
                _ => Seq::<TabCommand>::empty(),
            },
            unchanged_except(*old(self), *final(self), Parts { active_dialog: true, ..no_parts() }),
    {
        self.active_dialog = None;
        self.tab_container.restore_active()
    }

    /// Records the open tabs (and the active one, or 0) as the session to
    /// restore at the next start, stamped with `now` (seconds since the Unix
    /// epoch, read from the clock by the caller).
    pub fn record_session_snapshot(&mut self, now: i64)
        ensures
            final(self).workspace_mgr@.workspaces == old(self).workspace_mgr@.workspaces,
            final(self).workspace_mgr@.last_session_snapshot matches Some(w) && w.name
                == last_session_name() && w.active_tab_index == active_or_zero(
                old(self).tab_container@,
            ) && w.tabs == tab_snapshots(old(self).tab_container@) && w.updated_at == now,
            final(self).workspace_mgr@.active_workspace_id == old(self).workspace_mgr@.active_workspace_id,
            unchanged_except(*old(self), *final(self), Parts { workspace_mgr: true, ..no_parts() }),
    {
        let active_idx = match self.tab_container.active_index() {
            Some(a) => a,
            None => 0,
        };
        let snapshots = self.tab_container.export_snapshot();
        assert(snapshots_view(snapshots@) =~= tab_snapshots(self.tab_container@));
        self.workspace_mgr.save_last_session(active_idx, snapshots, now);
    }

    /// Saves the open tabs as the named workspace `name`, stamped with `now`
    /// (seconds since the Unix epoch); returns its id.
    pub fn save_named_workspace(&mut self, name: &str, now: i64) -> (id: String)
        ensures
            final(self).workspace_mgr@.active_workspace_id == Some(id@),
            final(self).workspace_mgr@.workspaces.len() > 0,
            final(self).workspace_mgr@.workspaces.last() == (WorkspaceView {
                id: id@,
                name: name@,
                active_tab_index: active_or_zero(old(self).tab_container@),
                tabs: tab_snapshots(old(self).tab_container@),
                updated_at: now,
            }),
            final(self).workspace_mgr@.workspaces.drop_last() == without_name(
                old(self).workspace_mgr@.workspaces,
                name@,
            ),
            final(self).workspace_mgr@.last_session_snapshot == old(self).workspace_mgr@.last_session_snapshot,
            unchanged_except(*old(self), *final(self), Parts { workspace_mgr: true, ..no_parts() }),
    {
        let active_idx = match self.tab_container.active_index() {
            Some(a) => a,
            None => 0,
        };
        let snapshots = self.tab_container.export_snapshot();
        assert(snapshots_view(snapshots@) =~= tab_snapshots(self.tab_container@));
        self.workspace_mgr.save_named_workspace(name, active_idx, snapshots, now)
    }

    /// Adds the server described by the form to the top-level group
    /// `target_group_id` (or to the ungrouped servers when there is no such
    /// group). A typed password is stored in the vault under a new
    /// credential named after the server, which the server then refers to;
    /// the result says whether the vault changed. A refused form changes
    /// nothing. The filtered tree and the open dialog are left as they are:
    /// once the tree is saved, the caller runs `refresh_filter` and
    /// `close_dialog`, as a save that fails must leave both untouched.
    pub fn add_server(&mut self, draft: ServerFormDraft, target_group_id: Option<&str>) -> (r: Result<bool, FormError>)
        ensures
            match r {
                Err(e) => form_error(draft) == Some(e) && final(self).tree@ == old(self).tree@
                    && final(self).vault@ == old(self).vault@,
                Ok(vault_changed) => {
                    &&& form_error(draft) is None
                    &&& vault_changed == (draft.password@.len() > 0)
                    &&& exists|e: ServerEntryView|
                        {
                            &&& form_fields(draft, e)
                            &&& final(self).tree@ == tree_insert(
                                old(self).tree@,
                                match target_group_id {
                                    Some(g) => Some(g@),
                                    None => None,
                                },
                                e,
                            )
                            &&& if draft.password@.len() == 0 {
                                &&& e.credential_id == opt_str(draft.credential_id)
                                &&& final(self).vault@ == old(self).vault@
                            } else {
                                &&& e.credential_id matches Some(c)
                                &&& final(self).vault@ == old(self).vault@.insert(
                                    c,
                                    server_credential(draft, c),
                                )
                            }
                        }
                },
            },
            unchanged_except(*old(self), *final(self), Parts { tree: true, vault: true, ..no_parts() }),
    {
        let ghost d = draft;
        let (server, password) = match draft.validate_and_convert() {
            Ok(v) => v,
            Err(e) => return Err(e),
        };
        let mut server = server;
        let vault_changed = match password {
            Some(pass) => {
                let mut cred_name = server.name.clone();
                cred_name.append("-凭据");
                let cred_item = CredentialItem::new(
                    cred_name.as_str(),
                    server.username.as_str(),
                    pass.as_str(),
                );
                let cred_id = cred_item.id.clone();
                self.vault.insert(cred_item);
                server.credential_id = Some(cred_id);
                true
            },
            None => false,
        };
        let ghost ev = server@;
        assert(form_fields(d, ev));
        self.insert_server(server, target_group_id);
        Ok(vault_changed)
    }

    /// Puts `server` into the top-level group `target_group_id`, or among
    /// the ungrouped servers.
    fn insert_server(&mut self, server: ServerEntry, target_group_id: Option<&str>)
        ensures
            final(self).tree@ == tree_insert(
                old(self).tree@,
                match target_group_id {
                    Some(g) => Some(g@),
                    None => None,
                },
                server@,
            ),
            unchanged_except(*old(self), *final(self), Parts { tree: true, ..no_parts() }),
    {
        let ghost gs = groups_view(self.tree.groups@);
        proof {
            lemma_groups_view_index(self.tree.groups@);
        }
        if let Some(group_id) = target_group_id {
            proof {
                lemma_group_id_index(gs, group_id@);
            }
            let mut k: usize = 0;
            while k < self.tree.groups.len()
                invariant
                    *self == *old(self),
                    target_group_id == Some(group_id),
                    k <= self.tree.groups.len(),
                    gs == groups_view(self.tree.groups@),
                    gs.len() == self.tree.groups@.len(),
                    forall|j: int| 0 <= j < gs.len() ==> #[trigger] gs[j] == group_view(self.tree.groups@[j]),
                    forall|j: int| 0 <= j < k ==> #[trigger] gs[j].id != group_id@,
                    match group_id_index(gs, group_id@) {
                        Some(m) => 0 <= m < gs.len() && gs[m].id == group_id@ && forall|j: int|
                            0 <= j < m ==> #[trigger] gs[j].id != group_id@,
                        None => forall|j: int| 0 <= j < gs.len() ==> #[trigger] gs[j].id != group_id@,
                    },
                decreases self.tree.groups.len() - k,
            {
                if text_equals(self.tree.groups[k].id.as_str(), group_id) {
                    assert(gs[k as int].id == group_id@);
                    assert(group_id_index(gs, group_id@) == Some(k as int));
                    let ghost old_groups = self.tree.groups@;
                    let mut g = self.tree.groups.remove(k);
                    let ghost old_g = g;
                    g.servers.push(server);
                    proof {
                        assert(entries_view(g.servers@) =~= entries_view(old_g.servers@).push(server@));
                        lemma_groups_view_update(old_groups, k as int, g);
                    }
                    self.tree.groups.insert(k, g);
                    proof {
                        assert(self.tree.groups@ =~= old_groups.update(k as int, g));
                        assert(old_g == old_groups[k as int]);
                        assert(group_view(g) == ServerGroupView {
                            servers: gs[k as int].servers.push(server@),
                            ..gs[k as int]
                        });
                        assert(groups_view(self.tree.groups@) == gs.update(
                            k as int,
                            ServerGroupView { servers: gs[k as int].servers.push(server@), ..gs[k as int] },
                        ));
                        assert(self.tree.ungrouped_servers == old(self).tree.ungrouped_servers);
                        assert(old(self).tree@.groups == gs);
                        assert(self.tree@ == tree_insert(old(self).tree@, Some(group_id@), server@));
                    }
                    return;
                }
                k = k + 1;
            }
        }
        let ghost old_ungrouped = self.tree.ungrouped_servers@;
        self.tree.ungrouped_servers.push(server);
        assert(entries_view(self.tree.ungrouped_servers@) =~= entries_view(old_ungrouped).push(server@));
    }
}

} // verus!
