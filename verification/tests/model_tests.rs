use rdpm::server::{AudioMode, DisplayMode, RdpOptions, ServerEntry, ServerGroup, ServerTree};

fn is_uuid_shape(s: &str) -> bool {
    let c: Vec<char> = s.chars().collect();
    c.len() == 36 && c[8] == '-' && c[13] == '-' && c[18] == '-' && c[23] == '-'
}

#[test]
fn new_server_defaults() {
    let s = ServerEntry::new("n", "h", "u");
    assert!(is_uuid_shape(&s.id));
    assert_eq!(s.port, 3389);
    assert_eq!(s.options, RdpOptions::default());
    assert_eq!(s.options.display_mode, DisplayMode::SmartSizing);
    assert_eq!(s.options.audio_mode, AudioMode::Local);
    assert_eq!(s.options.timeout_seconds, 15);
    assert!(s.options.redirect_clipboard);
    let other = ServerEntry::new("n", "h", "u");
    assert_ne!(s.id, other.id);
}

#[test]
fn audio_codes() {
    assert_eq!(AudioMode::Local.code(), 0);
    assert_eq!(AudioMode::Remote.code(), 1);
    assert_eq!(AudioMode::Disabled.code(), 2);
}

#[test]
fn find_server_searches_ungrouped_then_groups_depth_first() {
    let mut tree = ServerTree::new();
    let a = ServerEntry::new("a", "1", "u");
    let a_id = a.id.clone();
    tree.ungrouped_servers.push(a);
    let mut g = ServerGroup::new("g");
    let mut sub = ServerGroup::new("sub");
    let b = ServerEntry::new("b", "2", "u");
    let b_id = b.id.clone();
    sub.servers.push(b);
    g.subgroups.push(sub);
    tree.groups.push(g);

    assert_eq!(tree.find_server(&a_id).unwrap().name, "a");
    assert_eq!(tree.find_server(&b_id).unwrap().name, "b");
    assert!(tree.find_server("missing").is_none());
    assert_eq!(tree.groups[0].find_server(&b_id).unwrap().host, "2");
    assert_eq!(tree.total_server_count(), 2);
}

#[test]
fn find_server_mut_writes_into_the_found_entry() {
    let mut g = ServerGroup::new("g");
    let mut sub = ServerGroup::new("sub");
    let b = ServerEntry::new("b", "2", "u");
    let b_id = b.id.clone();
    sub.servers.push(b);
    g.subgroups.push(sub);

    if let Some(e) = g.find_server_mut(&b_id) {
        e.host = "changed".to_string();
    } else {
        panic!("entry expected");
    }
    assert_eq!(g.find_server(&b_id).unwrap().host, "changed");
    assert!(g.find_server_mut("missing").is_none());
}

#[test]
fn clone_keeps_group_contents() {
    let mut g = ServerGroup::new("g");
    g.servers.push(ServerEntry::new("x", "y", "z"));
    let c = g.clone();
    assert_eq!(c, g);
}
