use crate::geometry::PhysicalBounds;
use crate::server::{text_equals, ServerEntry};
use crate::workspace::{snapshots_view, TabSnapshot, TabSnapshotView};
use vstd::prelude::*;

verus! {

/// What the window host must do to the native session window of a tab.
#[derive(Debug, Clone, Copy, PartialEq, Eq, Structural)]
pub enum TabCommand {
    /// Show the tab's window and give it the keyboard focus.
    Show(usize),
    /// Hide the tab's window.
    Hide(usize),
    /// Move and resize the tab's window to the given bounds.
    Place(usize, PhysicalBounds),
}

/// The value of one tab.
pub struct TabView {
    pub session_id: Seq<char>,
    pub title: Seq<char>,
    pub applied_bounds: Option<PhysicalBounds>,
}

/// Book-keeping of one open tab.
#[derive(Debug)]
pub struct TabItem {
    /// Id of the session, which is the id of its server.
    pub session_id: String,
    pub title: String,
    /// Bounds last applied to the tab's window.
    pub applied_bounds: Option<PhysicalBounds>,
}

impl View for TabItem {
    type V = TabView;

    open spec fn view(&self) -> TabView {
        TabView {
            session_id: self.session_id@,
            title: self.title@,
            applied_bounds: self.applied_bounds,
        }
    }
}

pub open spec fn tabs_view(s: Seq<TabItem>) -> Seq<TabView> {
    s.map_values(|t: TabItem| t@)
}

/// The value of the tab container.
pub struct TabContainerView {
    pub tabs: Seq<TabView>,
    pub active_index: Option<usize>,
    pub content_bounds: PhysicalBounds,
}

/// Hide commands for every tab below `n` except `index`, in order.
pub open spec fn hide_others(n: nat, index: nat) -> Seq<TabCommand>
    decreases n,
{
    if n == 0 {
        Seq::empty()
    } else {
        let rest = hide_others((n - 1) as nat, index);
        if n - 1 == index {
            rest
        } else {
            rest.push(TabCommand::Hide((n - 1) as usize))
        }
    }
}

/// Commands and new state when tab `index` of `c` is activated: all other
/// windows hidden, the tab shown, and placed in the content area unless
/// it already is.
pub open spec fn activation(c: TabContainerView, index: usize) -> (TabContainerView, Seq<TabCommand>) {
    if index >= c.tabs.len() {
        (c, Seq::empty())
    } else {
        let t = c.tabs[index as int];
        let placed = t.applied_bounds == Some(c.content_bounds);
        let cmds = hide_others(c.tabs.len(), index as nat).push(TabCommand::Show(index)) + if placed {
            Seq::<TabCommand>::empty()
        } else {
            seq![TabCommand::Place(index, c.content_bounds)]
        };
        (
            TabContainerView {
                tabs: c.tabs.update(index as int, TabView { applied_bounds: Some(c.content_bounds), ..t }),
                active_index: Some(index),
                ..c
            },
            cmds,
        )
    }
}

/// Index of the first tab showing the given session.
pub open spec fn tab_position(tabs: Seq<TabView>, id: Seq<char>) -> Option<int>
    decreases tabs.len(),
{
    if tabs.len() == 0 {
        None
    } else {
        match tab_position(tabs.drop_last(), id) {
            Some(i) => Some(i),
            None => if tabs.last().session_id == id {
                Some(tabs.len() - 1)
            } else {
                None
            },
        }
    }
}

pub proof fn lemma_tab_position(tabs: Seq<TabView>, id: Seq<char>)
    ensures
        match tab_position(tabs, id) {
            Some(i) => 0 <= i < tabs.len() && tabs[i].session_id == id && forall|j: int|
                0 <= j < i ==> #[trigger] tabs[j].session_id != id,
            None => forall|j: int| 0 <= j < tabs.len() ==> #[trigger] tabs[j].session_id != id,
        },
    decreases tabs.len(),
{
    if tabs.len() > 0 {
        let t = tabs.drop_last();
        lemma_tab_position(t, id);
        assert forall|j: int| 0 <= j < t.len() implies #[trigger] tabs[j] == t[j] by {}
    }
}

/// Coordinates the open tabs, which one is active, and the native windows.
pub struct TabContainer {
    tabs: Vec<TabItem>,
    active_index: Option<usize>,
    current_content_bounds: PhysicalBounds,
}

impl View for TabContainer {
    type V = TabContainerView;

    closed spec fn view(&self) -> TabContainerView {
        TabContainerView {
            tabs: tabs_view(self.tabs@),
            active_index: self.active_index,
            content_bounds: self.current_content_bounds,
        }
    }
}

/// The active index names an open tab, if any.
pub open spec fn tabs_wf(c: TabContainerView) -> bool {
    c.active_index matches Some(a) ==> a < c.tabs.len()
}

/// No session is open in two tabs.
pub open spec fn tabs_distinct(c: TabContainerView) -> bool {
    forall|i: int, j: int|
        0 <= i < j < c.tabs.len() ==> #[trigger] c.tabs[i].session_id != #[trigger] c.tabs[j].session_id
}

impl TabContainer {
    /// An empty container with no active tab and empty content bounds.
    pub fn new() -> (c: Self)
        ensures
            c@.tabs.len() == 0,
            c@.active_index is None,
            c@.content_bounds == (PhysicalBounds { x: 0, y: 0, width: 0, height: 0 }),
    {
        let c = TabContainer {
            tabs: Vec::new(),
            active_index: None,
            current_content_bounds: PhysicalBounds::default(),
        };
        assert(c@.tabs =~= Seq::<TabView>::empty());
        c
    }

    /// The open tabs, in order.
    pub fn tabs(&self) -> (t: &[TabItem])
        ensures
            tabs_view(t@) == self@.tabs,
    {
        self.tabs.as_slice()
    }

    /// Index of the active tab.
    pub fn active_index(&self) -> (a: Option<usize>)
        ensures
            a == self@.active_index,
    {
        self.active_index
    }

    /// Index of the tab showing the session of the given server.
    pub fn position_of(&self, server_id: &str) -> (r: Option<usize>)
        ensures
            match r {
                Some(i) => tab_position(self@.tabs, server_id@) == Some(i as int),
                None => tab_position(self@.tabs, server_id@) is None,
            },
    {
        let ghost tv = self@.tabs;
        proof {
            lemma_tab_position(tv, server_id@);
        }
        let mut i: usize = 0;
        while i < self.tabs.len()
            invariant
                i <= self.tabs.len(),
                tv == tabs_view(self.tabs@),
                tv.len() == self.tabs@.len(),
                forall|j: int| 0 <= j < i ==> #[trigger] tv[j].session_id != server_id@,
                match tab_position(tv, server_id@) {
                    Some(k) => 0 <= k < tv.len() && tv[k].session_id == server_id@ && forall|j: int|
                        0 <= j < k ==> #[trigger] tv[j].session_id != server_id@,
                    None => forall|j: int| 0 <= j < tv.len() ==> #[trigger] tv[j].session_id != server_id@,
                },
            decreases self.tabs.len() - i,
        {
            assert(tv[i as int] == self.tabs@[i as int]@);
            if text_equals(self.tabs[i].session_id.as_str(), server_id) {
                assert(tv[i as int].session_id == server_id@);
                return Some(i);
            }
            i = i + 1;
        }
        None
    }

    /// Activates tab `index` (nothing happens when there is no such tab)
    /// and returns the window commands this takes (see `activation`).
    pub fn set_active_tab(&mut self, index: usize) -> (cmds: Vec<TabCommand>)
        ensures
            (final(self)@, cmds@) == activation(old(self)@, index),
    {
        if index >= self.tabs.len() {
            return Vec::new();
        }
        let ghost c = self@;
        let mut cmds: Vec<TabCommand> = Vec::new();
        let mut i: usize = 0;
        while i < self.tabs.len()
            invariant
                i <= self.tabs.len(),
                index < self.tabs.len(),
                self@ == c,
                cmds@ == hide_others(i as nat, index as nat),
            decreases self.tabs.len() - i,
        {
            if i != index {
                cmds.push(TabCommand::Hide(i));
            }
            i = i + 1;
        }
        self.active_index = Some(index);
        cmds.push(TabCommand::Show(index));
        let b = self.current_content_bounds;
        let placed = match self.tabs[index].applied_bounds {
            Some(a) => a == b,
            None => false,
        };
        if !placed {
            cmds.push(TabCommand::Place(index, b));
        }
        let ghost old_tabs = self.tabs@;
        let mut t = self.tabs.remove(index);
        t.applied_bounds = Some(b);
        self.tabs.insert(index, t);
        proof {
            assert(self.tabs@ =~= old_tabs.update(index as int, t));
            assert(tabs_view(self.tabs@) =~= c.tabs.update(
                index as int,
                TabView { applied_bounds: Some(c.content_bounds), ..c.tabs[index as int] },
            ));
            assert(cmds@ =~= activation(c, index).1);
        }
        cmds
    }

    /// Opens a tab for `server` and activates it; when the server already
    /// has a tab, that tab is activated instead. Returns the tab's index and
    /// the window commands. Keeps one tab per server.
    pub fn open_server(&mut self, server: &ServerEntry) -> (r: (usize, Vec<TabCommand>))
        ensures
            match tab_position(old(self)@.tabs, server.id@) {
                Some(i) => r.0 == i && (final(self)@, r.1@) == activation(old(self)@, r.0),
                None => r.0 == old(self)@.tabs.len() && (final(self)@, r.1@) == activation(
                    opened(old(self)@, server.id@, server.name@),
                    r.0,
                ),
            },
            tabs_wf(final(self)@),
            tabs_distinct(old(self)@) ==> tabs_distinct(final(self)@),
    {
        proof {
            lemma_tab_position(old(self)@.tabs, server.id@);
        }
        if let Some(idx) = self.position_of(server.id.as_str()) {
            let cmds = self.set_active_tab(idx);
            return (idx, cmds);
        }
        let ghost before = self@;
        self.tabs.push(TabItem { session_id: server.id.clone(), title: server.name.clone(), applied_bounds: None });
        proof {
            assert(self@.tabs =~= opened(before, server.id@, server.name@).tabs);
        }
        let new_idx = self.tabs.len() - 1;
        let cmds = self.set_active_tab(new_idx);
        (new_idx, cmds)
    }

    /// Removes tab `index` and returns it (nothing happens when there is no
    /// such tab). The active index is left for `select_after_close`, which
    /// the caller runs once the removed session is disconnected.
    pub fn close_tab(&mut self, index: usize) -> (r: Option<TabItem>)
        ensures
            index >= old(self)@.tabs.len() ==> r is None && final(self)@ == old(self)@,
            index < old(self)@.tabs.len() ==> (r matches Some(t) && t@ == old(self)@.tabs[index as int]
                && final(self)@ == (TabContainerView {
                    tabs: old(self)@.tabs.remove(index as int),
                    ..old(self)@
                })),
            tabs_distinct(old(self)@) ==> tabs_distinct(final(self)@),
    {
        if index >= self.tabs.len() {
            return None;
        }
        let ghost before = self.tabs@;
        let removed = self.tabs.remove(index);
        proof {
            assert(tabs_view(self.tabs@) =~= tabs_view(before).remove(index as int));
        }
        Some(removed)
    }

    /// After tab `closed_index` was removed: no tab is active when none is
    /// left, otherwise the tab now at that position (or the last tab) is
    /// activated. Returns the window commands.
    pub fn select_after_close(&mut self, closed_index: usize) -> (cmds: Vec<TabCommand>)
        ensures
            old(self)@.tabs.len() == 0 ==> cmds@.len() == 0 && final(self)@ == (TabContainerView {
                active_index: None,
                ..old(self)@
            }),
            old(self)@.tabs.len() > 0 ==> (final(self)@, cmds@) == activation(
                old(self)@,
                if closed_index < old(self)@.tabs.len() {
                    closed_index
                } else {
                    (old(self)@.tabs.len() - 1) as usize
                },
            ),
            tabs_wf(final(self)@),
            tabs_distinct(old(self)@) ==> tabs_distinct(final(self)@),
    {
        if self.tabs.len() == 0 {
            self.active_index = None;
            return Vec::new();
        }
        let last = self.tabs.len() - 1;
        let next = if closed_index < last {
            closed_index
        } else {
            last
        };
        self.set_active_tab(next)
    }

    /// Sets the bounds of the content area (the window was resized) and
    /// places only the active tab's window there; nothing happens when the
    /// bounds are unchanged.
    pub fn update_content_bounds(&mut self, bounds: PhysicalBounds) -> (cmds: Vec<TabCommand>)
        ensures
            old(self)@.content_bounds == bounds ==> final(self)@ == old(self)@ && cmds@.len() == 0,
            old(self)@.content_bounds != bounds ==> match old(self)@.active_index {
                Some(a) if a < old(self)@.tabs.len() => final(self)@ == (TabContainerView {
                    tabs: old(self)@.tabs.update(
                        a as int,
                        TabView { applied_bounds: Some(bounds), ..old(self)@.tabs[a as int] },
                    ),
                    content_bounds: bounds,
                    ..old(self)@
                }) && cmds@ == seq![TabCommand::Place(a, bounds)],
                _ => final(self)@ == (TabContainerView { content_bounds: bounds, ..old(self)@ })
                    && cmds@.len() == 0,
            },
            tabs_wf(old(self)@) ==> tabs_wf(final(self)@),
            tabs_distinct(old(self)@) ==> tabs_distinct(final(self)@),
    {
        if self.current_content_bounds == bounds {
            return Vec::new();
        }
        self.current_content_bounds = bounds;
        let mut cmds: Vec<TabCommand> = Vec::new();
        if let Some(a) = self.active_index {
            if a < self.tabs.len() {
                let ghost old_tabs = self.tabs@;
                let mut t = self.tabs.remove(a);
                t.applied_bounds = Some(bounds);
                self.tabs.insert(a, t);
                proof {
                    assert(self.tabs@ =~= old_tabs.update(a as int, t));
                    assert(tabs_view(self.tabs@) =~= tabs_view(old_tabs).update(
                        a as int,
                        TabView { applied_bounds: Some(bounds), ..tabs_view(old_tabs)[a as int] },
                    ));
                }
                cmds.push(TabCommand::Place(a, bounds));
            }
        }
        cmds
    }

    /// Hides the active tab's window while a dialog is open.
    pub fn temporarily_hide_active(&self) -> (cmds: Vec<TabCommand>)
        ensures
            cmds@ == match self@.active_index {
                Some(a) if a < self@.tabs.len() => seq![TabCommand::Hide(a)],
                _ => Seq::<TabCommand>::empty(),
            },
    {
        let mut cmds: Vec<TabCommand> = Vec::new();
        if let Some(a) = self.active_index {
            if a < self.tabs.len() {
                cmds.push(TabCommand::Hide(a));
            }
        }
        cmds
    }

    /// Shows the active tab's window again once the dialog is closed.
    pub fn restore_active(&self) -> (cmds: Vec<TabCommand>)
        ensures
            cmds@ == match self@.active_index {
                Some(a) if a < self@.tabs.len() => seq![TabCommand::Show(a)],
                _ => Seq::<TabCommand>::empty(),
            },
    {
        let mut cmds: Vec<TabCommand> = Vec::new();
        if let Some(a) = self.active_index {
            if a < self.tabs.len() {
                cmds.push(TabCommand::Show(a));
            }
        }
        cmds
    }

    /// Snapshots of the open tabs, in order, for saving the workspace.
    pub fn export_snapshot(&self) -> (s: Vec<TabSnapshot>)
        ensures
            snapshots_view(s@).len() == self@.tabs.len(),
            forall|i: int|
                0 <= i < self@.tabs.len() ==> #[trigger] snapshots_view(s@)[i] == (TabSnapshotView {
                    server_id: self@.tabs[i].session_id,
                    custom_title: None,
                    is_pinned: false,
                }),
    {
        let mut s: Vec<TabSnapshot> = Vec::new();
        let mut i: usize = 0;
        while i < self.tabs.len()
            invariant
                i <= self.tabs.len(),
                s@.len() == i,
                self@.tabs == tabs_view(self.tabs@),
                forall|k: int|
                    0 <= k < i ==> #[trigger] s@[k]@ == (TabSnapshotView {
                        server_id: self@.tabs[k].session_id,
                        custom_title: None,
                        is_pinned: false,
                    }),
            decreases self.tabs.len() - i,
        {
            assert(self@.tabs[i as int] == self.tabs@[i as int]@);
            s.push(TabSnapshot::new(self.tabs[i].session_id.as_str()));
            i = i + 1;
        }
        s
    }
}

/// The saved form of the open tabs: each tab's server, no custom title,
/// not pinned, in order.
pub open spec fn tab_snapshots(c: TabContainerView) -> Seq<TabSnapshotView> {
    Seq::new(
        c.tabs.len(),
        |i: int| TabSnapshotView { server_id: c.tabs[i].session_id, custom_title: None, is_pinned: false },
    )
}

/// The index of the active tab, or 0 when none is active.
pub open spec fn active_or_zero(c: TabContainerView) -> usize {
    match c.active_index {
        Some(a) => a,
        None => 0,
    }
}

/// The container with a new, unplaced tab for a server appended.
pub open spec fn opened(c: TabContainerView, id: Seq<char>, title: Seq<char>) -> TabContainerView {
    TabContainerView {
        tabs: c.tabs.push(TabView { session_id: id, title, applied_bounds: None }),
        ..c
    }
}

} // verus!
