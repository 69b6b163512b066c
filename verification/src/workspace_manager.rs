use crate::ident::is_hyphenated_uuid;
use crate::server::text_equals;
use crate::workspace::{
    opt_workspace, snapshots_view, workspaces_view, TabSnapshot, Workspace, WorkspaceFile,
    WorkspaceFileView, WorkspaceView,
};
use vstd::prelude::*;

verus! {

/// The named workspaces of `ws` whose name is not `name`, in order.
pub open spec fn without_name(ws: Seq<WorkspaceView>, name: Seq<char>) -> Seq<WorkspaceView>
    decreases ws.len(),
{
    if ws.len() == 0 {
        Seq::empty()
    } else {
        let rest = without_name(ws.drop_last(), name);
        if ws.last().name == name {
            rest
        } else {
            rest.push(ws.last())
        }
    }
}

/// None of the workspaces kept by `without_name` has the name.
pub proof fn lemma_without_name(ws: Seq<WorkspaceView>, name: Seq<char>)
    ensures
        forall|i: int|
            0 <= i < without_name(ws, name).len() ==> #[trigger] without_name(ws, name)[i].name
                != name,
        without_name(ws, name).len() <= ws.len(),
    decreases ws.len(),
{
    if ws.len() > 0 {
        lemma_without_name(ws.drop_last(), name);
    }
}

/// The workspaces kept when saving under `name` are exactly those whose name
/// is not `name`, in their order: each other workspace stays, whatever its
/// name has in common with `name`.
pub proof fn lemma_without_name_is_filter(ws: Seq<WorkspaceView>, name: Seq<char>)
    ensures
        without_name(ws, name) == ws.filter(|w: WorkspaceView| w.name != name),
        forall|i: int|
            0 <= i < ws.len() && (#[trigger] ws[i]).name != name ==> without_name(ws, name).contains(
                ws[i],
            ),
    decreases ws.len(),
{
    let pred = |w: WorkspaceView| w.name != name;
    reveal(Seq::filter);
    if ws.len() > 0 {
        lemma_without_name_is_filter(ws.drop_last(), name);
    }
    assert(without_name(ws, name) == ws.filter(pred));
    assert forall|i: int| 0 <= i < ws.len() && (#[trigger] ws[i]).name != name implies without_name(
        ws,
        name,
    ).contains(ws[i]) by {
        ws.lemma_filter_contains(pred, i);
    }
}

/// Name of the snapshot saved at exit.
pub open spec fn last_session_name() -> Seq<char> {
    "最后一次运维环境"@
}

/// Life cycle of the saved workspaces; the file itself is read and written
/// by the caller, which hands over what it read and persists `save`.
pub struct WorkspaceManager {
    file_data: WorkspaceFile,
}

impl View for WorkspaceManager {
    type V = WorkspaceFileView;

    closed spec fn view(&self) -> WorkspaceFileView {
        self.file_data@
    }
}

impl WorkspaceManager {
    /// A manager over the content read from the workspace file.
    pub fn load(file_data: WorkspaceFile) -> (m: Self)
        ensures
            m@ == file_data@,
    {
        WorkspaceManager { file_data }
    }

    /// The content to write to the workspace file.
    pub fn save(&self) -> (f: &WorkspaceFile)
        ensures
            f@ == self@,
    {
        &self.file_data
    }

    /// Records the open tabs as the session to restore at the next start:
    /// a new snapshot named "最后一次运维环境", stamped with `now` (seconds
    /// since the Unix epoch); the named workspaces are untouched.
    pub fn save_last_session(&mut self, active_tab_index: usize, tabs: Vec<TabSnapshot>, now: i64)
        ensures
            final(self)@.workspaces == old(self)@.workspaces,
            final(self)@.active_workspace_id == old(self)@.active_workspace_id,
            final(self)@.last_session_snapshot matches Some(w) && is_hyphenated_uuid(w.id) && w.name
                == last_session_name() && w.active_tab_index == active_tab_index && w.tabs
                == snapshots_view(tabs@) && w.updated_at == now,
    {
        let name = "最后一次运维环境";
        let mut snapshot = Workspace::new(name, now);
        snapshot.active_tab_index = active_tab_index;
        snapshot.tabs = tabs;
        self.file_data.last_session_snapshot = Some(snapshot);
    }

    /// The session saved at the last exit, if any.
    pub fn get_last_session(&self) -> (w: Option<&Workspace>)
        ensures
            match w {
                Some(w) => self@.last_session_snapshot == Some(w@),
                None => self@.last_session_snapshot is None,
            },
    {
        self.file_data.last_session_snapshot.as_ref()
    }

    /// Saves the open tabs as the named workspace `name`, replacing any
    /// workspace of that name, and selects it; it is stamped with `now`
    /// (seconds since the Unix epoch). Returns its new id.
    pub fn save_named_workspace(&mut self, name: &str, active_tab_index: usize, tabs: Vec<TabSnapshot>, now: i64) -> (id: String)
        ensures
            is_hyphenated_uuid(id@),
            final(self)@.active_workspace_id == Some(id@),
            final(self)@.last_session_snapshot == old(self)@.last_session_snapshot,
            final(self)@.workspaces.len() > 0,
            final(self)@.workspaces.drop_last() == without_name(old(self)@.workspaces, name@),
            final(self)@.workspaces.last().id == id@,
            final(self)@.workspaces.last().name == name@,
            final(self)@.workspaces.last().active_tab_index == active_tab_index,
            final(self)@.workspaces.last().tabs == snapshots_view(tabs@),
            final(self)@.workspaces.last().updated_at == now,
    {
        let mut ws = Workspace::new(name, now);
        ws.active_tab_index = active_tab_index;
        ws.tabs = tabs;
        let id = ws.id.clone();
        let ghost old_ws = workspaces_view(self.file_data.workspaces@);
        let mut kept: Vec<Workspace> = Vec::new();
        let mut old_list = Vec::new();
        std::mem::swap(&mut old_list, &mut self.file_data.workspaces);
        assert(workspaces_view(old_list@) == old_ws);
        let n = old_list.len();
        let mut i: usize = 0;
        while i < n
            invariant
                n == old_ws.len(),
                i <= n,
                old_list@.len() == n - i,
                workspaces_view(old_list@) =~= old_ws.subrange(i as int, n as int),
                workspaces_view(kept@) == without_name(old_ws.subrange(0, i as int), name@),
            decreases n - i,
        {
            assert(workspaces_view(old_list@)[0] == old_list@[0]@);
            let ghost prev_list = old_list@;
            let w = old_list.remove(0);
            proof {
                assert(old_list@ =~= prev_list.subrange(1, prev_list.len() as int));
                assert forall|k: int| 0 <= k < old_list@.len() implies #[trigger] workspaces_view(
                    old_list@,
                )[k] == old_ws.subrange(i + 1, n as int)[k] by {
                    assert(workspaces_view(prev_list)[k + 1] == prev_list[k + 1]@);
                    assert(old_ws.subrange(i as int, n as int)[k + 1] == old_ws.subrange(i + 1, n as int)[k]);
                }
            }
            assert(w@ == old_ws[i as int]);
            proof {
                assert(old_ws.subrange(0, i + 1).drop_last() =~= old_ws.subrange(0, i as int));
            }
            if !text_equals(w.name.as_str(), name) {
                let ghost prev = kept@;
                kept.push(w);
                proof {
                    assert(workspaces_view(kept@) =~= workspaces_view(prev).push(w@));
                }
            }
            i = i + 1;
            assert(workspaces_view(old_list@) =~= old_ws.subrange(i as int, n as int));
        }
        assert(old_ws.subrange(0, n as int) =~= old_ws);
        let ghost kept_view = workspaces_view(kept@);
        kept.push(ws);
        assert(workspaces_view(kept@) =~= kept_view.push(workspaces_view(kept@).last()));
        self.file_data.workspaces = kept;
        self.file_data.active_workspace_id = Some(id.clone());
        id
    }

    /// The named workspaces, in order.
    pub fn list_workspaces(&self) -> (ws: &[Workspace])
        ensures
            workspaces_view(ws@) == self@.workspaces,
    {
        self.file_data.workspaces.as_slice()
    }
}

/// After saving a named workspace, exactly one workspace carries that
/// name, the one just saved.
pub proof fn lemma_named_workspace_unique(ws: Seq<WorkspaceView>, name: Seq<char>, saved: WorkspaceView)
    requires
        saved.name == name,
    ensures
        forall|i: int|
            0 <= i < without_name(ws, name).push(saved).len() ==> (#[trigger] without_name(
                ws,
                name,
            ).push(saved)[i].name == name <==> i == without_name(ws, name).len()),
{
    lemma_without_name(ws, name);
}

} // verus!
