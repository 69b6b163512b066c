use crate::ident::{is_hyphenated_uuid, new_unique_id};
use crate::server::{clone_opt_string, opt_str};
use vstd::prelude::*;

verus! {

/// The value of a saved tab.
pub struct TabSnapshotView {
    pub server_id: Seq<char>,
    pub custom_title: Option<Seq<char>>,
    pub is_pinned: bool,
}

/// Saved state of one tab.
#[derive(Debug, PartialEq, Eq)]
pub struct TabSnapshot {
    /// Id of the server the tab shows.
    pub server_id: String,
    /// Title chosen by the user, if any.
    pub custom_title: Option<String>,
    /// Whether the tab is pinned.
    pub is_pinned: bool,
}

impl View for TabSnapshot {
    type V = TabSnapshotView;

    open spec fn view(&self) -> TabSnapshotView {
        TabSnapshotView {
            server_id: self.server_id@,
            custom_title: opt_str(self.custom_title),
            is_pinned: self.is_pinned,
        }
    }
}

impl Clone for TabSnapshot {
    fn clone(&self) -> (r: Self)
        ensures
            r@ == self@,
    {
        TabSnapshot {
            server_id: self.server_id.clone(),
            custom_title: clone_opt_string(&self.custom_title),
            is_pinned: self.is_pinned,
        }
    }
}

impl TabSnapshot {
    /// A snapshot of an unpinned tab without a custom title.
    pub fn new(server_id: &str) -> (t: Self)
        ensures
            t@ == (TabSnapshotView { server_id: server_id@, custom_title: None, is_pinned: false }),
    {
        TabSnapshot { server_id: server_id.to_string(), custom_title: None, is_pinned: false }
    }
}

pub open spec fn snapshots_view(s: Seq<TabSnapshot>) -> Seq<TabSnapshotView> {
    s.map_values(|t: TabSnapshot| t@)
}

/// The value of a workspace.
pub struct WorkspaceView {
    pub id: Seq<char>,
    pub name: Seq<char>,
    pub active_tab_index: usize,
    pub tabs: Seq<TabSnapshotView>,
    pub updated_at: i64,
}

/// A saved set of open sessions.
#[derive(Debug, PartialEq, Eq)]
pub struct Workspace {
    pub id: String,
    pub name: String,
    /// Index of the tab to activate first when restoring.
    pub active_tab_index: usize,
    /// The saved tabs, in order.
    pub tabs: Vec<TabSnapshot>,
    /// Time of the last save, in seconds since the Unix epoch.
    pub updated_at: i64,
}

impl View for Workspace {
    type V = WorkspaceView;

    open spec fn view(&self) -> WorkspaceView {
        WorkspaceView {
            id: self.id@,
            name: self.name@,
            active_tab_index: self.active_tab_index,
            tabs: snapshots_view(self.tabs@),
            updated_at: self.updated_at,
        }
    }
}

/// Copies a list of snapshots, keeping each value.
pub fn clone_snapshots(v: &Vec<TabSnapshot>) -> (r: Vec<TabSnapshot>)
    ensures
        snapshots_view(r@) == snapshots_view(v@),
{
    let mut r: Vec<TabSnapshot> = Vec::new();
    let mut i: usize = 0;
    while i < v.len()
        invariant
            i <= v.len(),
            r@.len() == i,
            snapshots_view(r@) =~= snapshots_view(v@.subrange(0, i as int)),
        decreases v.len() - i,
    {
        let c = v[i].clone();
        let ghost prev = r@;
        r.push(c);
        proof {
            assert(r@ == prev.push(c));
            assert forall|k: int| 0 <= k < i + 1 implies #[trigger] snapshots_view(r@)[k]
                == snapshots_view(v@.subrange(0, i + 1))[k] by {
                if k < i {
                    assert(snapshots_view(prev)[k] == snapshots_view(v@.subrange(0, i as int))[k]);
                    assert(r@[k] == prev[k]);
                } else {
                    assert(r@[k] == c);
                }
            }
        }
        i = i + 1;
        assert(snapshots_view(r@) =~= snapshots_view(v@.subrange(0, i as int)));
    }
    assert(v@.subrange(0, v.len() as int) =~= v@);
    r
}

impl Clone for Workspace {
    fn clone(&self) -> (r: Self)
        ensures
            r@ == self@,
    {
        Workspace {
            id: self.id.clone(),
            name: self.name.clone(),
            active_tab_index: self.active_tab_index,
            tabs: clone_snapshots(&self.tabs),
            updated_at: self.updated_at,
        }
    }
}

impl Workspace {
    /// An empty workspace with a fresh id, stamped with `updated_at`
    /// (seconds since the Unix epoch, read from the clock by the caller).
    pub fn new(name: &str, updated_at: i64) -> (w: Self)
        ensures
            is_hyphenated_uuid(w.id@),
            w.name@ == name@,
            w.active_tab_index == 0,
            w.tabs@.len() == 0,
            w.updated_at == updated_at,
    {
        Workspace {
            id: new_unique_id(),
            name: name.to_string(),
            active_tab_index: 0,
            tabs: Vec::new(),
            updated_at,
        }
    }
}

/// The value of an optional workspace.
pub open spec fn opt_workspace(w: Option<Workspace>) -> Option<WorkspaceView> {
    match w {
        Some(w) => Some(w@),
        None => None,
    }
}

pub open spec fn workspaces_view(s: Seq<Workspace>) -> Seq<WorkspaceView> {
    s.map_values(|w: Workspace| w@)
}

/// The value of the workspace file.
pub struct WorkspaceFileView {
    pub active_workspace_id: Option<Seq<char>>,
    pub workspaces: Seq<WorkspaceView>,
    pub last_session_snapshot: Option<WorkspaceView>,
}

/// Content of the workspace file: named workspaces and the session saved at exit.
#[derive(Debug, PartialEq, Eq)]
pub struct WorkspaceFile {
    /// Id of the selected workspace.
    pub active_workspace_id: Option<String>,
    /// Named workspaces saved by the user.
    pub workspaces: Vec<Workspace>,
    /// Session saved automatically at exit, restored at the next start.
    pub last_session_snapshot: Option<Workspace>,
}

impl View for WorkspaceFile {
    type V = WorkspaceFileView;

    open spec fn view(&self) -> WorkspaceFileView {
        WorkspaceFileView {
            active_workspace_id: opt_str(self.active_workspace_id),
            workspaces: workspaces_view(self.workspaces@),
            last_session_snapshot: opt_workspace(self.last_session_snapshot),
        }
    }
}

impl Default for WorkspaceFile {
    fn default() -> (f: Self)
        ensures
            f@.active_workspace_id is None,
            f@.workspaces.len() == 0,
            f@.last_session_snapshot is None,
    {
        WorkspaceFile { active_workspace_id: None, workspaces: Vec::new(), last_session_snapshot: None }
    }
}

} // verus!
