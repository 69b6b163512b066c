use crate::ident::{is_hyphenated_uuid, new_unique_id};
use vstd::prelude::*;

verus! {

/// Where the remote audio is played.
#[derive(Debug, Clone, Copy, PartialEq, Eq)]
pub enum AudioMode {
    /// Play on the local computer.
    Local,
    /// Play on the remote computer.
    Remote,
    /// Audio disabled.
    Disabled,
}

impl AudioMode {
    /// The numeric code the RDP control uses for this mode.
    pub fn code(&self) -> (c: u32)
        ensures
            c == audio_code(*self),
    {
        match self {
            AudioMode::Local => 0,
            AudioMode::Remote => 1,
            AudioMode::Disabled => 2,
        }
    }
}

pub open spec fn audio_code(m: AudioMode) -> u32 {
    match m {
        AudioMode::Local => 0,
        AudioMode::Remote => 1,
        AudioMode::Disabled => 2,
    }
}

impl Default for AudioMode {
    fn default() -> (m: Self)
        ensures
            m == AudioMode::Local,
    {
        AudioMode::Local
    }
}

/// How the remote desktop is fitted into its window.
#[derive(Debug, Clone, Copy, PartialEq, Eq)]
pub enum DisplayMode {
    /// Scale the remote desktop to the window (smart sizing).
    SmartSizing,
    /// Resize the remote resolution to match the window.
    DynamicResolution,
    /// Fixed resolution.
    Fixed { width: u32, height: u32 },
}

impl Default for DisplayMode {
    fn default() -> (m: Self)
        ensures
            m == DisplayMode::SmartSizing,
    {
        DisplayMode::SmartSizing
    }
}

/// RDP connection preferences and device redirection.
#[derive(Debug, Clone, Copy, PartialEq, Eq)]
pub struct RdpOptions {
    pub display_mode: DisplayMode,
    pub audio_mode: AudioMode,
    pub redirect_clipboard: bool,
    pub redirect_drives: bool,
    pub redirect_printers: bool,
    /// Console / administrator session (`/admin`).
    pub admin_session: bool,
    /// Connection timeout in seconds.
    pub timeout_seconds: u32,
}

/// The default RDP options: smart sizing, local audio, clipboard only, 15 s timeout.
pub open spec fn default_rdp_options() -> RdpOptions {
    RdpOptions {
        display_mode: DisplayMode::SmartSizing,
        audio_mode: AudioMode::Local,
        redirect_clipboard: true,
        redirect_drives: false,
        redirect_printers: false,
        admin_session: false,
        timeout_seconds: 15,
    }
}

impl Default for RdpOptions {
    fn default() -> (o: Self)
        ensures
            o == default_rdp_options(),
    {
        RdpOptions {
            display_mode: DisplayMode::SmartSizing,
            audio_mode: AudioMode::Local,
            redirect_clipboard: true,
            redirect_drives: false,
            redirect_printers: false,
            admin_session: false,
            timeout_seconds: 15,
        }
    }
}

/// The mathematical value of an optional string.
pub open spec fn opt_str(o: Option<String>) -> Option<Seq<char>> {
    match o {
        Some(s) => Some(s@),
        None => None,
    }
}

pub fn clone_opt_string(o: &Option<String>) -> (r: Option<String>)
    ensures
        opt_str(r) == opt_str(*o),
{
    match o {
        Some(s) => Some(s.clone()),
        None => None,
    }
}

/// The value of a server entry.
pub struct ServerEntryView {
    pub id: Seq<char>,
    pub name: Seq<char>,
    pub host: Seq<char>,
    pub port: u16,
    pub username: Seq<char>,
    pub domain: Option<Seq<char>>,
    pub credential_id: Option<Seq<char>>,
    pub notes: Option<Seq<char>>,
    pub options: RdpOptions,
}

/// One server connection profile.
#[derive(Debug, PartialEq, Eq)]
pub struct ServerEntry {
    /// Unique id of the node.
    pub id: String,
    /// Display name in the tree.
    pub name: String,
    /// Host name or IP address.
    pub host: String,
    /// RDP port (3389 by default).
    pub port: u16,
    pub username: String,
    pub domain: Option<String>,
    /// Id of the vault credential used for this server, if any.
    pub credential_id: Option<String>,
    pub notes: Option<String>,
    pub options: RdpOptions,
}

impl View for ServerEntry {
    type V = ServerEntryView;

    open spec fn view(&self) -> ServerEntryView {
        ServerEntryView {
            id: self.id@,
            name: self.name@,
            host: self.host@,
            port: self.port,
            username: self.username@,
            domain: opt_str(self.domain),
            credential_id: opt_str(self.credential_id),
            notes: opt_str(self.notes),
            options: self.options,
        }
    }
}

impl Clone for ServerEntry {
    fn clone(&self) -> (r: Self)
        ensures
            r@ == self@,
    {
        ServerEntry {
            id: self.id.clone(),
            name: self.name.clone(),
            host: self.host.clone(),
            port: self.port,
            username: self.username.clone(),
            domain: clone_opt_string(&self.domain),
            credential_id: clone_opt_string(&self.credential_id),
            notes: clone_opt_string(&self.notes),
            options: self.options,
        }
    }
}

impl ServerEntry {
    /// A new server entry with a fresh id, port 3389, no domain, credential
    /// or notes, and the default options.
    pub fn new(name: &str, host: &str, username: &str) -> (e: Self)
        ensures
            is_hyphenated_uuid(e.id@),
            e.name@ == name@,
            e.host@ == host@,
            e.port == 3389,
            e.username@ == username@,
            e.domain is None,
            e.credential_id is None,
            e.notes is None,
            e.options == default_rdp_options(),
    {
        ServerEntry {
            id: new_unique_id(),
            name: name.to_string(),
            host: host.to_string(),
            port: 3389,
            username: username.to_string(),
            domain: None,
            credential_id: None,
            notes: None,
            options: RdpOptions::default(),
        }
    }
}

/// The value of a group node.
pub struct ServerGroupView {
    pub id: Seq<char>,
    pub name: Seq<char>,
    pub is_expanded: bool,
    pub subgroups: Seq<ServerGroupView>,
    pub servers: Seq<ServerEntryView>,
}

/// A group node of the server tree.
#[derive(Debug, PartialEq, Eq)]
pub struct ServerGroup {
    pub id: String,
    pub name: String,
    /// Whether the group is expanded in the UI.
    pub is_expanded: bool,
    pub subgroups: Vec<ServerGroup>,
    pub servers: Vec<ServerEntry>,
}

pub open spec fn entries_view(s: Seq<ServerEntry>) -> Seq<ServerEntryView> {
    s.map_values(|e: ServerEntry| e@)
}

pub open spec fn group_view(g: ServerGroup) -> ServerGroupView
    decreases g,
{
    ServerGroupView {
        id: g.id@,
        name: g.name@,
        is_expanded: g.is_expanded,
        subgroups: groups_view(g.subgroups@),
        servers: entries_view(g.servers@),
    }
}

pub open spec fn groups_view(gs: Seq<ServerGroup>) -> Seq<ServerGroupView>
    decreases gs,
{
    if gs.len() == 0 {
        Seq::empty()
    } else {
        groups_view(gs.drop_last()).push(group_view(gs.last()))
    }
}

impl View for ServerGroup {
    type V = ServerGroupView;

    open spec fn view(&self) -> ServerGroupView {
        group_view(*self)
    }
}


/// `groups_view` keeps the length and maps each group to its value.
pub proof fn lemma_groups_view_index(gs: Seq<ServerGroup>)
    ensures
        groups_view(gs).len() == gs.len(),
        forall|i: int| 0 <= i < gs.len() ==> #[trigger] groups_view(gs)[i] == group_view(gs[i]),
    decreases gs.len(),
{
    if gs.len() > 0 {
        lemma_groups_view_index(gs.drop_last());
    }
}

/// `groups_view` of a vector grown by one group.
pub proof fn lemma_groups_view_push(gs: Seq<ServerGroup>, g: ServerGroup)
    ensures
        groups_view(gs.push(g)) == groups_view(gs).push(group_view(g)),
{
    assert(gs.push(g).drop_last() =~= gs);
}

/// Copies a list of entries, keeping each entry's value.
pub fn clone_entries(v: &Vec<ServerEntry>) -> (r: Vec<ServerEntry>)
    ensures
        entries_view(r@) == entries_view(v@),
{
    let mut r: Vec<ServerEntry> = Vec::new();
    let mut i: usize = 0;
    while i < v.len()
        invariant
            i <= v.len(),
            r@.len() == i,
            entries_view(r@) =~= entries_view(v@.subrange(0, i as int)),
        decreases v.len() - i,
    {
        let c = v[i].clone();
        let ghost cv = c@;
        let ghost prev = r@;
        assert(cv == v@[i as int]@);
        r.push(c);
        proof {
            assert(r@ == prev.push(c));
            assert forall|k: int| 0 <= k < i + 1 implies #[trigger] entries_view(r@)[k]
                == entries_view(v@.subrange(0, i + 1))[k] by {
                assert(entries_view(r@)[k] == r@[k]@);
                assert(entries_view(v@.subrange(0, i + 1))[k] == v@.subrange(0, i + 1)[k]@);
                if k < i {
                    assert(entries_view(prev)[k] == entries_view(v@.subrange(0, i as int))[k]);
                    assert(r@[k] == prev[k]);
                } else {
                    assert(r@[k] == c);
                }
            }
        }
        i = i + 1;
        assert(entries_view(r@) =~= entries_view(v@.subrange(0, i as int)));
    }
    assert(v@.subrange(0, v.len() as int) =~= v@);
    r
}

/// Copies a group and everything below it, keeping its value.
pub fn clone_group(g: &ServerGroup) -> (r: ServerGroup)
    ensures
        r@ == g@,
    decreases g,
{
    let subgroups = clone_groups(&g.subgroups);
    ServerGroup {
        id: g.id.clone(),
        name: g.name.clone(),
        is_expanded: g.is_expanded,
        subgroups,
        servers: clone_entries(&g.servers),
    }
}

/// Copies a list of groups, keeping each group's value.
pub fn clone_groups(v: &Vec<ServerGroup>) -> (r: Vec<ServerGroup>)
    ensures
        groups_view(r@) == groups_view(v@),
    decreases v,
{
    let mut r: Vec<ServerGroup> = Vec::new();
    let mut i: usize = 0;
    while i < v.len()
        invariant
            i <= v.len(),
            groups_view(r@) == groups_view(v@.subrange(0, i as int)),
        decreases v.len() - i,
    {
        proof {
            assert(decreases_to!(v => v@[i as int]));
        }
        let c = clone_group(&v[i]);
        proof {
            lemma_groups_view_push(r@, c);
            assert(v@.subrange(0, i + 1).drop_last() =~= v@.subrange(0, i as int));
        }
        r.push(c);
        i = i + 1;
    }
    assert(v@.subrange(0, v.len() as int) =~= v@);
    r
}

impl Clone for ServerGroup {
    fn clone(&self) -> (r: Self)
        ensures
            r@ == self@,
    {
        clone_group(self)
    }
}


/// Whether two strings hold the same characters.
pub fn text_equals(a: &str, b: &str) -> (r: bool)
    ensures
        r == (a@ == b@),
{
    let x = crate::text::chars_of(a);
    let y = crate::text::chars_of(b);
    if x.len() != y.len() {
        return false;
    }
    let mut i: usize = 0;
    while i < x.len()
        invariant
            x@ == a@,
            y@ == b@,
            x.len() == y.len(),
            i <= x.len(),
            forall|j: int| 0 <= j < i ==> x@[j] == y@[j],
        decreases x.len() - i,
    {
        if x[i] != y[i] {
            return false;
        }
        i = i + 1;
    }
    assert(x@ =~= y@);
    true
}

/// Index of the first entry with the given id.
pub open spec fn first_entry_index(s: Seq<ServerEntryView>, id: Seq<char>) -> Option<int>
    decreases s.len(),
{
    if s.len() == 0 {
        None
    } else {
        match first_entry_index(s.drop_last(), id) {
            Some(i) => Some(i),
            None => if s.last().id == id {
                Some(s.len() - 1)
            } else {
                None
            },
        }
    }
}

/// `first_entry_index` finds the least index whose entry has the id.
pub proof fn lemma_first_entry_index(s: Seq<ServerEntryView>, id: Seq<char>)
    ensures
        match first_entry_index(s, id) {
            Some(i) => 0 <= i < s.len() && s[i].id == id && forall|j: int|
                0 <= j < i ==> #[trigger] s[j].id != id,
            None => forall|j: int| 0 <= j < s.len() ==> #[trigger] s[j].id != id,
        },
    decreases s.len(),
{
    if s.len() > 0 {
        let t = s.drop_last();
        lemma_first_entry_index(t, id);
        assert forall|j: int| 0 <= j < t.len() implies #[trigger] s[j] == t[j] by {}
    }
}

/// The entry with the given id in a group: first among its own servers,
/// then depth-first through its subgroups in order.
pub open spec fn group_find(g: ServerGroupView, id: Seq<char>) -> Option<ServerEntryView>
    decreases g,
{
    match first_entry_index(g.servers, id) {
        Some(i) => Some(g.servers[i]),
        None => groups_find(g.subgroups, id),
    }
}

/// The entry with the given id in the first group (in order) that holds one.
pub open spec fn groups_find(gs: Seq<ServerGroupView>, id: Seq<char>) -> Option<ServerEntryView>
    decreases gs,
{
    if gs.len() == 0 {
        None
    } else {
        match groups_find(gs.drop_last(), id) {
            Some(e) => Some(e),
            None => group_find(gs.last(), id),
        }
    }
}

/// Index of the first group (in order) that holds an entry with the id.
pub open spec fn first_group_index(gs: Seq<ServerGroupView>, id: Seq<char>) -> Option<int>
    decreases gs.len(),
{
    if gs.len() == 0 {
        None
    } else {
        match first_group_index(gs.drop_last(), id) {
            Some(k) => Some(k),
            None => if group_find(gs.last(), id) is Some {
                Some(gs.len() - 1)
            } else {
                None
            },
        }
    }
}

/// `first_group_index` finds the least group holding the id, and
/// `groups_find` answers with that group's entry.
pub proof fn lemma_first_group_index(gs: Seq<ServerGroupView>, id: Seq<char>)
    ensures
        match first_group_index(gs, id) {
            Some(k) => 0 <= k < gs.len() && group_find(gs[k], id) is Some && (forall|j: int|
                0 <= j < k ==> #[trigger] group_find(gs[j], id) is None) && groups_find(gs, id)
                == group_find(gs[k], id),
            None => (forall|j: int| 0 <= j < gs.len() ==> #[trigger] group_find(gs[j], id) is None)
                && groups_find(gs, id) is None,
        },
    decreases gs.len(),
{
    if gs.len() > 0 {
        let t = gs.drop_last();
        lemma_first_group_index(t, id);
        assert forall|j: int| 0 <= j < t.len() implies #[trigger] gs[j] == t[j] by {}
    }
}

/// The value an optional entry reference points to.
pub open spec fn found_view(r: Option<&ServerEntry>) -> Option<ServerEntryView> {
    match r {
        Some(e) => Some(e@),
        None => None,
    }
}

/// Index of the first entry of `v` whose id is `id`.
pub fn entry_index(v: &Vec<ServerEntry>, id: &str) -> (r: Option<usize>)
    ensures
        match r {
            Some(i) => first_entry_index(entries_view(v@), id@) == Some(i as int),
            None => first_entry_index(entries_view(v@), id@) is None,
        },
{
    let ghost ev = entries_view(v@);
    proof {
        lemma_first_entry_index(ev, id@);
    }
    let mut i: usize = 0;
    while i < v.len()
        invariant
            i <= v.len(),
            ev == entries_view(v@),
            ev.len() == v@.len(),
            forall|j: int| 0 <= j < i ==> #[trigger] ev[j].id != id@,
            match first_entry_index(ev, id@) {
                Some(k) => 0 <= k < ev.len() && ev[k].id == id@ && forall|j: int|
                    0 <= j < k ==> #[trigger] ev[j].id != id@,
                None => forall|j: int| 0 <= j < ev.len() ==> #[trigger] ev[j].id != id@,
            },
        decreases v.len() - i,
    {
        assert(ev[i as int] == v@[i as int]@);
        if text_equals(v[i].id.as_str(), id) {
            assert(ev[i as int].id == id@);
            return Some(i);
        }
        i = i + 1;
    }
    None
}

/// The group with the entry that `group_find` finds replaced by `e`
/// (unchanged when there is no such entry).
pub open spec fn group_replace(g: ServerGroupView, id: Seq<char>, e: ServerEntryView) -> ServerGroupView
    decreases g,
{
    match first_entry_index(g.servers, id) {
        Some(i) => ServerGroupView { servers: g.servers.update(i, e), ..g },
        None => match first_group_index(g.subgroups, id) {
            Some(k) => if 0 <= k < g.subgroups.len() {
                ServerGroupView {
                    subgroups: g.subgroups.update(k, group_replace(g.subgroups[k], id, e)),
                    ..g
                }
            } else {
                g
            },
            None => g,
        },
    }
}

/// `groups_view` of a list with one group replaced.
pub proof fn lemma_groups_view_update(gs: Seq<ServerGroup>, k: int, g: ServerGroup)
    requires
        0 <= k < gs.len(),
    ensures
        groups_view(gs.update(k, g)) == groups_view(gs).update(k, group_view(g)),
{
    lemma_groups_view_index(gs);
    lemma_groups_view_index(gs.update(k, g));
    assert(groups_view(gs.update(k, g)) =~= groups_view(gs).update(k, group_view(g)));
}

/// `entries_view` of a list with one entry replaced, for every replacement.
pub proof fn lemma_entries_view_update_all(s: Seq<ServerEntry>, i: int)
    requires
        0 <= i < s.len(),
    ensures
        forall|x: ServerEntry| #[trigger] entries_view(s.update(i, x)) == entries_view(s).update(i, x@),
{
    assert forall|x: ServerEntry| #[trigger] entries_view(s.update(i, x)) == entries_view(s).update(i, x@) by {
        assert(entries_view(s.update(i, x)) =~= entries_view(s).update(i, x@));
    }
}

/// `groups_view` of a list with one group replaced, for every replacement.
pub proof fn lemma_groups_view_update_all(gs: Seq<ServerGroup>, k: int)
    requires
        0 <= k < gs.len(),
    ensures
        forall|g: ServerGroup| #[trigger] groups_view(gs.update(k, g)) == groups_view(gs).update(k, group_view(g)),
{
    assert forall|g: ServerGroup| #[trigger] groups_view(gs.update(k, g)) == groups_view(gs).update(k, group_view(g)) by {
        lemma_groups_view_update(gs, k, g);
    }
}

/// Replacing inside the subgroup that holds the id is replacing inside the group.
pub proof fn lemma_replace_in_subgroup(g: ServerGroup, k: int, id: Seq<char>)
    requires
        first_entry_index(g@.servers, id) is None,
        first_group_index(g@.subgroups, id) == Some(k),
        0 <= k < g.subgroups@.len(),
    ensures
        forall|e: ServerEntryView|
            #[trigger] group_replace(g@, id, e) == (ServerGroupView {
                subgroups: groups_view(g.subgroups@).update(k, group_replace(g.subgroups@[k]@, id, e)),
                ..g@
            }),
        forall|ns: Seq<ServerGroup>|
            ns == g.subgroups@.update(k, ns[k]) ==> #[trigger] groups_view(ns) == groups_view(
                g.subgroups@,
            ).update(k, group_view(ns[k])),
{
    lemma_groups_view_index(g.subgroups@);
    lemma_groups_view_update_all(g.subgroups@, k);
}

/// A group that differs from `g` only inside the subgroup holding the id,
/// where that subgroup was replaced-into, is `g` replaced-into.
pub proof fn lemma_replace_compose(g: ServerGroup, k: int, id: Seq<char>)
    requires
        first_entry_index(g@.servers, id) is None,
        first_group_index(g@.subgroups, id) == Some(k),
        0 <= k < g.subgroups@.len(),
    ensures
        forall|ng: ServerGroup, e: ServerEntryView|
            #![trigger ng@, group_replace(g@, id, e)]
            ng.id == g.id && ng.name == g.name && ng.is_expanded == g.is_expanded && ng.servers
                == g.servers && ng.subgroups@ == g.subgroups@.update(k, ng.subgroups@[k])
                && ng.subgroups@[k]@ == group_replace(g.subgroups@[k]@, id, e) ==> ng@
                == group_replace(g@, id, e),
{
    assert forall|ng: ServerGroup, e: ServerEntryView|
        #![trigger ng@, group_replace(g@, id, e)]
        ng.id == g.id && ng.name == g.name && ng.is_expanded == g.is_expanded && ng.servers
            == g.servers && ng.subgroups@ == g.subgroups@.update(k, ng.subgroups@[k])
            && ng.subgroups@[k]@ == group_replace(g.subgroups@[k]@, id, e) implies ng@
            == group_replace(g@, id, e) by {
        lemma_replace_in_subgroup(g, k, id);
        lemma_groups_view_update(g.subgroups@, k, ng.subgroups@[k]);
        lemma_groups_view_index(g.subgroups@);
        assert(group_replace(g@, id, e).subgroups =~= ng@.subgroups);
    }
}

/// After writing an entry that keeps its id through `find_server_mut`,
/// looking the id up again finds exactly what was written.
pub proof fn lemma_find_after_replace(g: ServerGroupView, id: Seq<char>, e: ServerEntryView)
    requires
        group_find(g, id) is Some,
        e.id == id,
    ensures
        group_find(group_replace(g, id, e), id) == Some(e),
    decreases g,
{
    lemma_first_entry_index(g.servers, id);
    let ng = group_replace(g, id, e);
    match first_entry_index(g.servers, id) {
        Some(i) => {
            lemma_first_entry_index(ng.servers, id);
            assert(ng.servers[i] == e);
        },
        None => {
            lemma_first_group_index(g.subgroups, id);
            let k = first_group_index(g.subgroups, id)->0;
            assert(decreases_to!(g => g.subgroups[k]));
            lemma_find_after_replace(g.subgroups[k], id, e);
            assert(ng.servers == g.servers);
            lemma_first_group_index(ng.subgroups, id);
            assert forall|j: int| 0 <= j < k implies #[trigger] group_find(ng.subgroups[j], id) is None by {
                assert(ng.subgroups[j] == g.subgroups[j]);
            }
            assert(group_find(ng.subgroups[k], id) is Some);
        },
    }
}

/// A lookup by id only ever finds an entry carrying that id.
pub proof fn lemma_found_has_id(g: ServerGroupView, id: Seq<char>)
    ensures
        group_find(g, id) matches Some(e) ==> e.id == id,
    decreases g,
{
    lemma_first_entry_index(g.servers, id);
    if first_entry_index(g.servers, id) is None {
        lemma_first_group_index(g.subgroups, id);
        if let Some(k) = first_group_index(g.subgroups, id) {
            assert(decreases_to!(g => g.subgroups[k]));
            lemma_found_has_id(g.subgroups[k], id);
        }
    }
}

/// A lookup by id in the whole tree only ever finds an entry carrying that id.
pub proof fn lemma_tree_found_has_id(t: ServerTreeView, id: Seq<char>)
    ensures
        tree_find(t, id) matches Some(e) ==> e.id == id,
{
    lemma_first_entry_index(t.ungrouped_servers, id);
    if first_entry_index(t.ungrouped_servers, id) is None {
        lemma_first_group_index(t.groups, id);
        if let Some(k) = first_group_index(t.groups, id) {
            lemma_found_has_id(t.groups[k], id);
        }
    }
}

/// Index of the first group of `v` that holds an entry with the id.
pub fn group_index(v: &Vec<ServerGroup>, id: &str) -> (r: Option<usize>)
    ensures
        match r {
            Some(k) => first_group_index(groups_view(v@), id@) == Some(k as int),
            None => first_group_index(groups_view(v@), id@) is None,
        },
{
    let ghost gs = groups_view(v@);
    proof {
        lemma_groups_view_index(v@);
        lemma_first_group_index(gs, id@);
    }
    let mut j: usize = 0;
    while j < v.len()
        invariant
            j <= v.len(),
            gs == groups_view(v@),
            gs.len() == v@.len(),
            forall|k: int| 0 <= k < v@.len() ==> #[trigger] gs[k] == group_view(v@[k]),
            forall|k: int| 0 <= k < j ==> #[trigger] group_find(gs[k], id@) is None,
            match first_group_index(gs, id@) {
                Some(k) => 0 <= k < gs.len() && group_find(gs[k], id@) is Some && (forall|i: int|
                    0 <= i < k ==> #[trigger] group_find(gs[i], id@) is None),
                None => forall|i: int| 0 <= i < gs.len() ==> #[trigger] group_find(gs[i], id@) is None,
            },
        decreases v.len() - j,
    {
        let found = v[j].find_server(id);
        if found.is_some() {
            assert(group_find(gs[j as int], id@) is Some);
            return Some(j);
        }
        assert(group_find(gs[j as int], id@) is None);
        j = j + 1;
    }
    None
}

impl ServerGroup {
    /// A new, expanded, empty group with a fresh id.
    pub fn new(name: &str) -> (g: Self)
        ensures
            is_hyphenated_uuid(g.id@),
            g.name@ == name@,
            g.is_expanded,
            g.subgroups@.len() == 0,
            g.servers@.len() == 0,
    {
        ServerGroup {
            id: new_unique_id(),
            name: name.to_string(),
            is_expanded: true,
            subgroups: Vec::new(),
            servers: Vec::new(),
        }
    }

    /// Mutable access to the server with the given id in this group or its
    /// subgroups; what is written through it lands in that entry only.
    pub fn find_server_mut(&mut self, server_id: &str) -> (r: Option<&mut ServerEntry>)
        ensures
            match r {
                Some(e) => group_find(old(self)@, server_id@) == Some(e@) && final(self)@
                    == group_replace(old(self)@, server_id@, (*final(e))@),
                None => group_find(old(self)@, server_id@) is None && final(self)@ == old(self)@,
            },
        decreases *old(self),
    {
        if let Some(i) = entry_index(&self.servers, server_id) {
            proof {
                lemma_first_entry_index(entries_view(self.servers@), server_id@);
                lemma_entries_view_update_all(self.servers@, i as int);
            }
            return Some(&mut self.servers[i]);
        }
        let k = group_index(&self.subgroups, server_id);
        proof {
            lemma_first_group_index(groups_view(self.subgroups@), server_id@);
            lemma_groups_view_index(self.subgroups@);
        }
        match k {
            Some(k) => {
                proof {
                    assert(decreases_to!(*old(self) => old(self).subgroups@[k as int]));
                    lemma_replace_compose(*old(self), k as int, server_id@);
                }
                self.subgroups[k].find_server_mut(server_id)
            },
            None => None,
        }
    }

    /// The server with the given id in this group or its subgroups.
    pub fn find_server(&self, server_id: &str) -> (r: Option<&ServerEntry>)
        ensures
            found_view(r) == group_find(self@, server_id@),
        decreases self,
    {
        if let Some(i) = entry_index(&self.servers, server_id) {
            proof {
                lemma_first_entry_index(entries_view(self.servers@), server_id@);
            }
            return Some(&self.servers[i]);
        }
        proof {
            lemma_groups_view_index(self.subgroups@);
        }
        let mut j: usize = 0;
        while j < self.subgroups.len()
            invariant
                first_entry_index(entries_view(self.servers@), server_id@) is None,
                j <= self.subgroups.len(),
                groups_view(self.subgroups@).len() == self.subgroups@.len(),
                forall|k: int|
                    0 <= k < self.subgroups@.len() ==> #[trigger] groups_view(self.subgroups@)[k]
                        == group_view(self.subgroups@[k]),
                forall|k: int|
                    0 <= k < j ==> #[trigger] group_find(groups_view(self.subgroups@)[k], server_id@)
                        is None,
            decreases self.subgroups.len() - j,
        {
            proof {
                assert(decreases_to!(self => self.subgroups@[j as int]));
            }
            if let Some(s) = self.subgroups[j].find_server(server_id) {
                proof {
                    let gs = groups_view(self.subgroups@);
                    lemma_first_group_index(gs, server_id@);
                    assert(group_find(gs[j as int], server_id@) is Some);
                    assert(self@.subgroups == gs);
                }
                return Some(s);
            }
            j = j + 1;
        }
        proof {
            lemma_first_group_index(groups_view(self.subgroups@), server_id@);
        }
        None
    }
}

/// The value of the whole server tree.
pub struct ServerTreeView {
    pub groups: Seq<ServerGroupView>,
    pub ungrouped_servers: Seq<ServerEntryView>,
}

/// Root container of the server tree.
#[derive(Debug, PartialEq, Eq)]
pub struct ServerTree {
    /// Top-level groups.
    pub groups: Vec<ServerGroup>,
    /// Servers at the root, outside any group.
    pub ungrouped_servers: Vec<ServerEntry>,
}

impl View for ServerTree {
    type V = ServerTreeView;

    open spec fn view(&self) -> ServerTreeView {
        ServerTreeView {
            groups: groups_view(self.groups@),
            ungrouped_servers: entries_view(self.ungrouped_servers@),
        }
    }
}

impl Clone for ServerTree {
    fn clone(&self) -> (r: Self)
        ensures
            r@ == self@,
    {
        ServerTree {
            groups: clone_groups(&self.groups),
            ungrouped_servers: clone_entries(&self.ungrouped_servers),
        }
    }
}

impl Default for ServerTree {
    fn default() -> (t: Self)
        ensures
            t@.groups.len() == 0,
            t@.ungrouped_servers.len() == 0,
    {
        ServerTree { groups: Vec::new(), ungrouped_servers: Vec::new() }
    }
}

/// The entry with the given id: first among the ungrouped servers, then
/// depth-first through the groups in order.
pub open spec fn tree_find(t: ServerTreeView, id: Seq<char>) -> Option<ServerEntryView> {
    match first_entry_index(t.ungrouped_servers, id) {
        Some(i) => Some(t.ungrouped_servers[i]),
        None => groups_find(t.groups, id),
    }
}

/// Number of servers in a group and all of its subgroups.
pub open spec fn group_count(g: ServerGroupView) -> nat
    decreases g,
{
    g.servers.len() + groups_count(g.subgroups)
}

/// Number of servers in a list of groups.
pub open spec fn groups_count(gs: Seq<ServerGroupView>) -> nat
    decreases gs,
{
    if gs.len() == 0 {
        0
    } else {
        groups_count(gs.drop_last()) + group_count(gs.last())
    }
}

/// Number of servers in the whole tree.
pub open spec fn tree_count(t: ServerTreeView) -> nat {
    t.ungrouped_servers.len() + groups_count(t.groups)
}

/// A prefix of a group list holds no more servers than the whole list.
pub proof fn lemma_groups_count_prefix(gs: Seq<ServerGroupView>, i: int)
    requires
        0 <= i <= gs.len(),
    ensures
        groups_count(gs.subrange(0, i)) <= groups_count(gs),
    decreases gs.len(),
{
    if i < gs.len() {
        lemma_groups_count_prefix(gs.drop_last(), i);
        assert(gs.drop_last().subrange(0, i) =~= gs.subrange(0, i));
    } else {
        assert(gs.subrange(0, i) =~= gs);
    }
}

/// Counts the servers of a group and its subgroups.
fn count_group(g: &ServerGroup) -> (c: usize)
    requires
        group_count(g@) <= usize::MAX,
    ensures
        c == group_count(g@),
    decreases g,
{
    let mut c: usize = g.servers.len();
    let mut j: usize = 0;
    proof {
        lemma_groups_view_index(g.subgroups@);
    }
    let ghost gs = groups_view(g.subgroups@);
    while j < g.subgroups.len()
        invariant
            gs == groups_view(g.subgroups@),
            gs.len() == g.subgroups@.len(),
            forall|k: int| 0 <= k < gs.len() ==> #[trigger] gs[k] == group_view(g.subgroups@[k]),
            group_count(g@) <= usize::MAX,
            j <= g.subgroups.len(),
            c == g.servers.len() + groups_count(gs.subrange(0, j as int)),
        decreases g.subgroups.len() - j,
    {
        proof {
            assert(decreases_to!(g => g.subgroups@[j as int]));
            assert(gs.subrange(0, j + 1).drop_last() =~= gs.subrange(0, j as int));
            lemma_groups_count_prefix(gs, j + 1);
        }
        let sub = count_group(&g.subgroups[j]);
        c = c + sub;
        j = j + 1;
    }
    assert(gs.subrange(0, j as int) =~= gs);
    c
}

impl ServerTree {
    /// An empty tree.
    pub fn new() -> (t: Self)
        ensures
            t@.groups.len() == 0,
            t@.ungrouped_servers.len() == 0,
    {
        Self::default()
    }

    /// The server with the given id anywhere in the tree.
    pub fn find_server(&self, server_id: &str) -> (r: Option<&ServerEntry>)
        ensures
            found_view(r) == tree_find(self@, server_id@),
    {
        if let Some(i) = entry_index(&self.ungrouped_servers, server_id) {
            proof {
                lemma_first_entry_index(entries_view(self.ungrouped_servers@), server_id@);
            }
            return Some(&self.ungrouped_servers[i]);
        }
        proof {
            lemma_groups_view_index(self.groups@);
        }
        let mut j: usize = 0;
        while j < self.groups.len()
            invariant
                first_entry_index(entries_view(self.ungrouped_servers@), server_id@) is None,
                j <= self.groups.len(),
                groups_view(self.groups@).len() == self.groups@.len(),
                forall|k: int|
                    0 <= k < self.groups@.len() ==> #[trigger] groups_view(self.groups@)[k]
                        == group_view(self.groups@[k]),
                forall|k: int|
                    0 <= k < j ==> #[trigger] group_find(groups_view(self.groups@)[k], server_id@)
                        is None,
            decreases self.groups.len() - j,
        {
            if let Some(s) = self.groups[j].find_server(server_id) {
                proof {
                    let gs = groups_view(self.groups@);
                    lemma_first_group_index(gs, server_id@);
                    assert(group_find(gs[j as int], server_id@) is Some);
                }
                return Some(s);
            }
            j = j + 1;
        }
        proof {
            lemma_first_group_index(groups_view(self.groups@), server_id@);
        }
        None
    }

    /// Number of servers in the whole tree.
    pub fn total_server_count(&self) -> (c: usize)
        requires
            tree_count(self@) <= usize::MAX,
        ensures
            c == tree_count(self@),
    {
        let mut c: usize = self.ungrouped_servers.len();
        let mut j: usize = 0;
        proof {
            lemma_groups_view_index(self.groups@);
        }
        let ghost gs = groups_view(self.groups@);
        while j < self.groups.len()
            invariant
                gs == groups_view(self.groups@),
                gs.len() == self.groups@.len(),
                forall|k: int|
                    0 <= k < gs.len() ==> #[trigger] gs[k] == group_view(self.groups@[k]),
                tree_count(self@) <= usize::MAX,
                j <= self.groups.len(),
                c == self.ungrouped_servers.len() + groups_count(gs.subrange(0, j as int)),
            decreases self.groups.len() - j,
        {
            proof {
                assert(gs.subrange(0, j + 1).drop_last() =~= gs.subrange(0, j as int));
                lemma_groups_count_prefix(gs, j + 1);
            }
            let sub = count_group(&self.groups[j]);
            c = c + sub;
            j = j + 1;
        }
        assert(gs.subrange(0, j as int) =~= gs);
        c
    }
}

} // verus!
