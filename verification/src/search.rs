use crate::server::{
    clone_entries, entries_view, group_view, groups_view, lemma_groups_view_index,
    lemma_groups_view_push, ServerEntry, ServerEntryView, ServerGroup, ServerGroupView, ServerTree,
    ServerTreeView, group_count, groups_count, tree_count,
};
use crate::text::{chars_of, contains_seq, lowercase, seq_contains, to_lowercase, trim, trimmed};
use vstd::prelude::*;

verus! {

/// Whether `c` is an ASCII letter.
pub open spec fn is_ascii_letter(c: char) -> bool {
    (65 <= (c as u32) && (c as u32) <= 90) || (97 <= (c as u32) && (c as u32) <= 122)
}

/// ASCII lower-casing of one character (other characters are unchanged).
pub open spec fn ascii_lower(c: char) -> char {
    if 65 <= (c as u32) && (c as u32) <= 90 {
        ((((c as u32) + 32) as u8) as char)
    } else {
        c
    }
}

/// The pinyin initial of the common Chinese characters the search knows.
pub open spec fn char_initial(c: char) -> Option<char> {
    match c {
        '北' | '百' | '包' | '变' | '部' | '本' | '表' | '备' | '保' | '标' => Some('b'),
        '产' | '成' | '出' | '长' | '常' | '场' | '测' | '从' | '存' | '超' => Some('c'),
        '大' | '地' | '定' | '当' | '电' | '点' | '东' | '度' | '道' | '第' => Some('d'),
        '发' | '分' | '方' | '风' | '复' | '服' | '防' | '非' => Some('f'),
        '国' | '高' | '公' | '广' | '关' | '各' | '规' | '管' | '工' | '果' => Some('g'),
        '海' | '和' | '会' | '后' | '行' | '化' | '华' | '环' | '户' => Some('h'),
        '京' | '机' | '家' | '加' | '建' | '集' | '金' | '经' | '据' | '基' | '监' => Some('j'),
        '开' | '看' | '可' | '快' | '库' | '控' | '科' => Some('k'),
        '老' | '量' | '理' | '力' | '两' | '路' | '联' | '流' | '列' | '令' => Some('l'),
        '美' | '名' | '民' | '明' | '面' | '门' | '目' | '母' | '模' | '每' => Some('m'),
        '南' | '内' | '年' | '能' | '难' | '农' => Some('n'),
        '平' | '品' | '片' | '排' | '配' | '盘' => Some('p'),
        '前' | '全' | '区' | '情' | '强' | '期' | '器' | '群' | '企' | '取' => Some('q'),
        '人' | '日' | '入' | '如' | '任' | '容' | '热' => Some('r'),
        '生' | '上' | '实' | '时' | '事' | '手' | '市' | '深' | '数' | '试' | '算' | '收' => Some('s'),
        '天' | '同' | '通' | '头' | '体' | '台' | '特' | '提' | '统' | '图' => Some('t'),
        '万' | '文' | '问' | '无' | '网' | '微' | '物' | '务' | '外' | '位' => Some('w'),
        '小' | '新' | '下' | '系' | '线' | '信' | '现' | '项' | '型' | '需' => Some('x'),
        '一' | '有' | '用' | '要' | '以' | '月' | '应' | '原' | '运' | '云' | '营' | '域' => Some('y'),
        '中' | '主' | '正' | '自' | '在' | '总' | '政' | '重' | '站' | '转' | '州' => Some('z'),
        _ => None,
    }
}

/// The simplified-pinyin initials of a text: ASCII letters lower-cased,
/// known Chinese characters replaced by their initial, everything else dropped.
pub open spec fn pinyin_initials(s: Seq<char>) -> Seq<char>
    decreases s.len(),
{
    if s.len() == 0 {
        Seq::empty()
    } else {
        let rest = pinyin_initials(s.drop_last());
        let c = s.last();
        if is_ascii_letter(c) {
            rest.push(ascii_lower(c))
        } else {
            match char_initial(c) {
                Some(i) => rest.push(i),
                None => rest,
            }
        }
    }
}

/// Whether a server matches a search query: the trimmed, lower-cased query is
/// empty, or occurs in the lower-cased name, host, user name or notes, or in
/// the pinyin initials of the name.
pub open spec fn entry_matches(e: ServerEntryView, query: Seq<char>) -> bool {
    let q = lowercase(trimmed(query));
    ||| q.len() == 0
    ||| contains_seq(lowercase(e.name), q)
    ||| contains_seq(lowercase(e.host), q)
    ||| contains_seq(lowercase(e.username), q)
    ||| (e.notes matches Some(n) && contains_seq(lowercase(n), q))
    ||| contains_seq(pinyin_initials(e.name), q)
}

/// The servers of `s` that match the query, in order.
pub open spec fn matching_entries(s: Seq<ServerEntryView>, query: Seq<char>) -> Seq<ServerEntryView>
    decreases s.len(),
{
    if s.len() == 0 {
        Seq::empty()
    } else {
        let rest = matching_entries(s.drop_last(), query);
        if entry_matches(s.last(), query) {
            rest.push(s.last())
        } else {
            rest
        }
    }
}

/// A group filtered by the query: kept (and expanded) when its name matches
/// or anything below it matches; it then holds the matching servers (all of
/// its servers when only its name matched) and the kept subgroups.
pub open spec fn filter_group_view(g: ServerGroupView, query: Seq<char>) -> Option<ServerGroupView>
    decreases g,
{
    let ms = matching_entries(g.servers, query);
    let msub = filter_groups_view(g.subgroups, query);
    let name_matched = contains_seq(lowercase(g.name), lowercase(query));
    if name_matched || ms.len() > 0 || msub.len() > 0 {
        Some(
            ServerGroupView {
                is_expanded: true,
                servers: if name_matched && ms.len() == 0 {
                    g.servers
                } else {
                    ms
                },
                subgroups: msub,
                ..g
            },
        )
    } else {
        None
    }
}

/// The groups of `gs` kept by the filter, each filtered, in order.
pub open spec fn filter_groups_view(gs: Seq<ServerGroupView>, query: Seq<char>) -> Seq<ServerGroupView>
    decreases gs,
{
    if gs.len() == 0 {
        Seq::empty()
    } else {
        let rest = filter_groups_view(gs.drop_last(), query);
        match filter_group_view(gs.last(), query) {
            Some(f) => rest.push(f),
            None => rest,
        }
    }
}

/// The tree filtered by the query; a blank query leaves it unchanged.
pub open spec fn filter_tree_view(t: ServerTreeView, query: Seq<char>) -> ServerTreeView {
    let q = trimmed(query);
    if q.len() == 0 {
        t
    } else {
        ServerTreeView {
            groups: filter_groups_view(t.groups, q),
            ungrouped_servers: matching_entries(t.ungrouped_servers, q),
        }
    }
}

/// The matching servers are no more than the servers, and each of them matches.
pub proof fn lemma_matching_entries(s: Seq<ServerEntryView>, query: Seq<char>)
    ensures
        matching_entries(s, query).len() <= s.len(),
        forall|i: int|
            0 <= i < matching_entries(s, query).len() ==> entry_matches(
                #[trigger] matching_entries(s, query)[i],
                query,
            ),
    decreases s.len(),
{
    if s.len() > 0 {
        lemma_matching_entries(s.drop_last(), query);
    }
}

/// A filtered group holds no more servers than the group, and is expanded.
pub proof fn lemma_filter_group_count(g: ServerGroupView, query: Seq<char>)
    ensures
        filter_group_view(g, query) matches Some(f) ==> group_count(f) <= group_count(g)
            && f.is_expanded,
    decreases g,
{
    lemma_matching_entries(g.servers, query);
    lemma_filter_groups_count(g.subgroups, query);
}

/// Filtered groups hold no more servers than the groups.
pub proof fn lemma_filter_groups_count(gs: Seq<ServerGroupView>, query: Seq<char>)
    ensures
        groups_count(filter_groups_view(gs, query)) <= groups_count(gs),
    decreases gs,
{
    if gs.len() > 0 {
        lemma_filter_groups_count(gs.drop_last(), query);
        lemma_filter_group_count(gs.last(), query);
        let rest = filter_groups_view(gs.drop_last(), query);
        if let Some(f) = filter_group_view(gs.last(), query) {
            assert(rest.push(f).drop_last() =~= rest);
        }
    }
}

/// Filtering never adds servers to the tree, and every ungrouped server
/// left by a non-blank query matches it.
pub proof fn lemma_filter_tree_shrinks(t: ServerTreeView, query: Seq<char>)
    ensures
        tree_count(filter_tree_view(t, query)) <= tree_count(t),
        trimmed(query).len() != 0 ==> forall|i: int|
            0 <= i < filter_tree_view(t, query).ungrouped_servers.len() ==> entry_matches(
                #[trigger] filter_tree_view(t, query).ungrouped_servers[i],
                trimmed(query),
            ),
{
    lemma_matching_entries(t.ungrouped_servers, trimmed(query));
    lemma_filter_groups_count(t.groups, trimmed(query));
}

/// A run of characters inside a run inside `hay` is itself a run inside `hay`.
pub proof fn lemma_contains_trans(hay: Seq<char>, mid: Seq<char>, p: Seq<char>)
    requires
        contains_seq(hay, mid),
        contains_seq(mid, p),
    ensures
        contains_seq(hay, p),
{
    let i = choose|i: int|
        0 <= i && i + mid.len() <= hay.len() && #[trigger] hay.subrange(i, i + mid.len()) == mid;
    let j = choose|j: int|
        0 <= j && j + p.len() <= mid.len() && #[trigger] mid.subrange(j, j + p.len()) == p;
    assert(hay.subrange(i + j, i + j + p.len()) =~= p);
}

/// Shortening a query never loses a hit: when the trimmed, lower-cased form
/// of `p` occurs in that of `q`, every server that `q` matches, `p` matches
/// too (an empty form matches every server).
pub proof fn lemma_shorter_query_keeps_hits(e: ServerEntryView, q: Seq<char>, p: Seq<char>)
    requires
        entry_matches(e, q),
        contains_seq(lowercase(trimmed(q)), lowercase(trimmed(p))),
    ensures
        entry_matches(e, p),
{
    let qn = lowercase(trimmed(q));
    let pn = lowercase(trimmed(p));
    if pn.len() > 0 {
        if contains_seq(lowercase(e.name), qn) {
            lemma_contains_trans(lowercase(e.name), qn, pn);
        } else if contains_seq(lowercase(e.host), qn) {
            lemma_contains_trans(lowercase(e.host), qn, pn);
        } else if contains_seq(lowercase(e.username), qn) {
            lemma_contains_trans(lowercase(e.username), qn, pn);
        } else if e.notes is Some && contains_seq(lowercase(e.notes->0), qn) {
            lemma_contains_trans(lowercase(e.notes->0), qn, pn);
        } else if contains_seq(pinyin_initials(e.name), qn) {
            lemma_contains_trans(pinyin_initials(e.name), qn, pn);
        }
    }
}

/// The search keeps exactly the matching servers of a list, in order: the
/// result is the list filtered by `entry_matches`, so every server that
/// matches is kept and every kept server matches.
pub proof fn lemma_matching_entries_is_filter(s: Seq<ServerEntryView>, query: Seq<char>)
    ensures
        matching_entries(s, query) == s.filter(|e: ServerEntryView| entry_matches(e, query)),
        forall|i: int|
            0 <= i < s.len() && entry_matches(#[trigger] s[i], query) ==> matching_entries(
                s,
                query,
            ).contains(s[i]),
    decreases s.len(),
{
    let pred = |e: ServerEntryView| entry_matches(e, query);
    reveal(Seq::filter);
    if s.len() > 0 {
        lemma_matching_entries_is_filter(s.drop_last(), query);
    }
    assert(matching_entries(s, query) == s.filter(pred));
    assert forall|i: int| 0 <= i < s.len() && entry_matches(#[trigger] s[i], query) implies matching_entries(
        s,
        query,
    ).contains(s[i]) by {
        s.lemma_filter_contains(pred, i);
    }
}

/// A server matches every query whose trimmed, lower-cased form is empty or
/// occurs in the lower-cased name, host, user name or notes of the server,
/// or in the initials of its name.
pub proof fn lemma_field_hits_match(e: ServerEntryView, q: Seq<char>)
    ensures
        lowercase(trimmed(q)).len() == 0 ==> entry_matches(e, q),
        contains_seq(lowercase(e.name), lowercase(trimmed(q))) ==> entry_matches(e, q),
        contains_seq(lowercase(e.host), lowercase(trimmed(q))) ==> entry_matches(e, q),
        contains_seq(lowercase(e.username), lowercase(trimmed(q))) ==> entry_matches(e, q),
        (e.notes matches Some(n) && contains_seq(lowercase(n), lowercase(trimmed(q))))
            ==> entry_matches(e, q),
        contains_seq(pinyin_initials(e.name), lowercase(trimmed(q))) ==> entry_matches(e, q),
{
}

/// Matching ignores letter case: two servers with the same name whose host,
/// user name and notes agree once lower-cased match the same queries, and
/// two queries that agree once trimmed and lower-cased match the same servers.
pub proof fn lemma_match_ignores_case(e: ServerEntryView, f: ServerEntryView, q: Seq<char>, p: Seq<char>)
    requires
        e.name == f.name,
        lowercase(e.host) == lowercase(f.host),
        lowercase(e.username) == lowercase(f.username),
        e.notes is Some <==> f.notes is Some,
        e.notes is Some ==> lowercase(e.notes->0) == lowercase(f.notes->0),
        lowercase(trimmed(q)) == lowercase(trimmed(p)),
    ensures
        entry_matches(e, q) == entry_matches(f, q),
        entry_matches(e, q) == entry_matches(e, p),
{
}

/// The value of an optional group.
pub open spec fn opt_group_view(g: Option<ServerGroup>) -> Option<ServerGroupView> {
    match g {
        Some(g) => Some(g@),
        None => None,
    }
}

/// The pinyin initial of `c`, for the common characters the search knows.
pub fn char_to_initial(c: char) -> (r: Option<char>)
    ensures
        r == char_initial(c),
{
    let initial = match c {
        '北' | '百' | '包' | '变' | '部' | '本' | '表' | '备' | '保' | '标' => 'b',
        '产' | '成' | '出' | '长' | '常' | '场' | '测' | '从' | '存' | '超' => 'c',
        '大' | '地' | '定' | '当' | '电' | '点' | '东' | '度' | '道' | '第' => 'd',
        '发' | '分' | '方' | '风' | '复' | '服' | '防' | '非' => 'f',
        '国' | '高' | '公' | '广' | '关' | '各' | '规' | '管' | '工' | '果' => 'g',
        '海' | '和' | '会' | '后' | '行' | '化' | '华' | '环' | '户' => 'h',
        '京' | '机' | '家' | '加' | '建' | '集' | '金' | '经' | '据' | '基' | '监' => 'j',
        '开' | '看' | '可' | '快' | '库' | '控' | '科' => 'k',
        '老' | '量' | '理' | '力' | '两' | '路' | '联' | '流' | '列' | '令' => 'l',
        '美' | '名' | '民' | '明' | '面' | '门' | '目' | '母' | '模' | '每' => 'm',
        '南' | '内' | '年' | '能' | '难' | '农' => 'n',
        '平' | '品' | '片' | '排' | '配' | '盘' => 'p',
        '前' | '全' | '区' | '情' | '强' | '期' | '器' | '群' | '企' | '取' => 'q',
        '人' | '日' | '入' | '如' | '任' | '容' | '热' => 'r',
        '生' | '上' | '实' | '时' | '事' | '手' | '市' | '深' | '数' | '试' | '算' | '收' => 's',
        '天' | '同' | '通' | '头' | '体' | '台' | '特' | '提' | '统' | '图' => 't',
        '万' | '文' | '问' | '无' | '网' | '微' | '物' | '务' | '外' | '位' => 'w',
        '小' | '新' | '下' | '系' | '线' | '信' | '现' | '项' | '型' | '需' => 'x',
        '一' | '有' | '用' | '要' | '以' | '月' | '应' | '原' | '运' | '云' | '营' | '域' => 'y',
        '中' | '主' | '正' | '自' | '在' | '总' | '政' | '重' | '站' | '转' | '州' => 'z',
        _ => return None,
    };
    Some(initial)
}

/// The simplified-pinyin initials of `text` (see `pinyin_initials`).
pub fn get_pinyin_initials(text: &str) -> (r: String)
    ensures
        r@ == pinyin_initials(text@),
{
    let chars = chars_of(text);
    let mut initials = String::new();
    let mut i: usize = 0;
    while i < chars.len()
        invariant
            chars@ == text@,
            i <= chars.len(),
            initials@ == pinyin_initials(chars@.subrange(0, i as int)),
        decreases chars.len() - i,
    {
        let c = chars[i];
        let u = c as u32;
        proof {
            assert(chars@.subrange(0, i + 1).drop_last() =~= chars@.subrange(0, i as int));
        }
        if 65 <= u && u <= 90 {
            initials.push(((u + 32) as u8) as char);
        } else if 97 <= u && u <= 122 {
            initials.push(c);
        } else if let Some(initial) = char_to_initial(c) {
            initials.push(initial);
        }
        i = i + 1;
    }
    assert(chars@.subrange(0, chars.len() as int) =~= chars@);
    initials
}

/// Whether the lower-cased `text` contains `q`.
fn lower_contains(text: &str, q: &Vec<char>) -> (b: bool)
    ensures
        b == contains_seq(lowercase(text@), q@),
{
    let l = to_lowercase(text);
    let lv = chars_of(l.as_str());
    seq_contains(&lv, q)
}

/// The servers of `v` that match the query, copied, in order.
fn filter_entries(v: &Vec<ServerEntry>, query: &str) -> (r: Vec<ServerEntry>)
    ensures
        entries_view(r@) == matching_entries(entries_view(v@), query@),
{
    let ghost ev = entries_view(v@);
    let mut r: Vec<ServerEntry> = Vec::new();
    let mut i: usize = 0;
    while i < v.len()
        invariant
            i <= v.len(),
            ev == entries_view(v@),
            ev.len() == v.len(),
            entries_view(r@) == matching_entries(ev.subrange(0, i as int), query@),
        decreases v.len() - i,
    {
        proof {
            assert(ev.subrange(0, i + 1).drop_last() =~= ev.subrange(0, i as int));
            assert(ev.subrange(0, i + 1).last() == v@[i as int]@);
        }
        if ServerSearch::matches(&v[i], query) {
            let c = v[i].clone();
            let ghost prev = r@;
            r.push(c);
            proof {
                assert(entries_view(r@) =~= entries_view(prev).push(c@));
            }
        }
        i = i + 1;
    }
    assert(ev.subrange(0, v.len() as int) =~= ev);
    r
}

/// The group filtered by the query (see `filter_group_view`).
fn filter_group(group: &ServerGroup, query: &str) -> (r: Option<ServerGroup>)
    ensures
        opt_group_view(r) == filter_group_view(group@, query@),
    decreases group,
{
    let matching_servers = filter_entries(&group.servers, query);
    let ghost gs = groups_view(group.subgroups@);
    proof {
        lemma_groups_view_index(group.subgroups@);
    }
    let mut matching_subgroups: Vec<ServerGroup> = Vec::new();
    let mut j: usize = 0;
    while j < group.subgroups.len()
        invariant
            j <= group.subgroups.len(),
            gs == groups_view(group.subgroups@),
            gs.len() == group.subgroups@.len(),
            forall|k: int| 0 <= k < gs.len() ==> #[trigger] gs[k] == group_view(group.subgroups@[k]),
            groups_view(matching_subgroups@) == filter_groups_view(gs.subrange(0, j as int), query@),
        decreases group.subgroups.len() - j,
    {
        proof {
            assert(decreases_to!(group => group.subgroups@[j as int]));
            assert(gs.subrange(0, j + 1).drop_last() =~= gs.subrange(0, j as int));
            assert(gs.subrange(0, j + 1).last() == gs[j as int]);
        }
        if let Some(f) = filter_group(&group.subgroups[j], query) {
            proof {
                lemma_groups_view_push(matching_subgroups@, f);
            }
            matching_subgroups.push(f);
        }
        j = j + 1;
    }
    assert(gs.subrange(0, j as int) =~= gs);
    let lowered_query = to_lowercase(query);
    let qv = chars_of(lowered_query.as_str());
    let name_matched = lower_contains(group.name.as_str(), &qv);
    if name_matched || matching_servers.len() > 0 || matching_subgroups.len() > 0 {
        proof {
            lemma_groups_view_index(matching_subgroups@);
        }
        let servers = if name_matched && matching_servers.len() == 0 {
            clone_entries(&group.servers)
        } else {
            matching_servers
        };
        Some(
            ServerGroup {
                id: group.id.clone(),
                name: group.name.clone(),
                is_expanded: true,
                subgroups: matching_subgroups,
                servers,
            },
        )
    } else {
        proof {
            lemma_groups_view_index(matching_subgroups@);
        }
        None
    }
}

/// Search and filter over the server tree.
pub struct ServerSearch;

impl ServerSearch {
    /// Whether one server matches the search query (see `entry_matches`).
    pub fn matches(server: &ServerEntry, query: &str) -> (b: bool)
        ensures
            b == entry_matches(server@, query@),
            trimmed(query@).len() == 0 ==> b,
    {
        let q = to_lowercase(trim(query));
        if q.as_str().is_empty() {
            return true;
        }
        let qv = chars_of(q.as_str());
        if lower_contains(server.name.as_str(), &qv) {
            return true;
        }
        if lower_contains(server.host.as_str(), &qv) {
            return true;
        }
        if lower_contains(server.username.as_str(), &qv) {
            return true;
        }
        if let Some(notes) = &server.notes {
            if lower_contains(notes.as_str(), &qv) {
                return true;
            }
        }
        let initials = get_pinyin_initials(server.name.as_str());
        let iv = chars_of(initials.as_str());
        seq_contains(&iv, &qv)
    }

    /// The tree filtered by the query, matching groups expanded; a blank
    /// query gives back a copy of the whole tree (see `filter_tree_view`).
    pub fn filter_tree(tree: &ServerTree, query: &str) -> (r: ServerTree)
        ensures
            r@ == filter_tree_view(tree@, query@),
    {
        let q = trim(query);
        if q.is_empty() {
            return tree.clone();
        }
        let ungrouped_servers = filter_entries(&tree.ungrouped_servers, q);
        let ghost gs = groups_view(tree.groups@);
        proof {
            lemma_groups_view_index(tree.groups@);
        }
        let mut groups: Vec<ServerGroup> = Vec::new();
        let mut j: usize = 0;
        while j < tree.groups.len()
            invariant
                j <= tree.groups.len(),
                gs == groups_view(tree.groups@),
                gs.len() == tree.groups@.len(),
                forall|k: int| 0 <= k < gs.len() ==> #[trigger] gs[k] == group_view(tree.groups@[k]),
                groups_view(groups@) == filter_groups_view(gs.subrange(0, j as int), q@),
            decreases tree.groups.len() - j,
        {
            proof {
                assert(gs.subrange(0, j + 1).drop_last() =~= gs.subrange(0, j as int));
                assert(gs.subrange(0, j + 1).last() == gs[j as int]);
            }
            if let Some(f) = filter_group(&tree.groups[j], q) {
                proof {
                    lemma_groups_view_push(groups@, f);
                }
                groups.push(f);
            }
            j = j + 1;
        }
        assert(gs.subrange(0, j as int) =~= gs);
        ServerTree { groups, ungrouped_servers }
    }
}

} // verus!
