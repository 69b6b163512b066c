use rdpm::search::{char_to_initial, get_pinyin_initials, ServerSearch};
use rdpm::server::{ServerEntry, ServerGroup, ServerTree};
use rdpm::text::text_contains;

#[test]
fn test_search_matches() {
    let server = ServerEntry::new("北京生产服务器01", "10.0.1.10", "administrator");

    assert!(ServerSearch::matches(&server, "生产"));
    assert!(ServerSearch::matches(&server, "10.0.1"));
    assert!(ServerSearch::matches(&server, "admin"));
    assert!(ServerSearch::matches(&server, "bj"));
    assert!(ServerSearch::matches(&server, "sc"));
    assert!(!ServerSearch::matches(&server, "shanghai"));
}

#[test]
fn search_ignores_case_and_surrounding_blanks() {
    let server = ServerEntry::new("Alpha-DB", "db.example.com", "Root");
    assert!(ServerSearch::matches(&server, "ALPHA"));
    assert!(ServerSearch::matches(&server, "  alpha-db  "));
    assert!(ServerSearch::matches(&server, "root"));
    assert!(ServerSearch::matches(&server, "   "));
    assert!(!ServerSearch::matches(&server, "beta"));
}

#[test]
fn search_matches_notes() {
    let mut server = ServerEntry::new("web", "10.1.1.1", "ops");
    assert!(!ServerSearch::matches(&server, "nginx"));
    server.notes = Some("runs NGINX".to_string());
    assert!(ServerSearch::matches(&server, "nginx"));
}

#[test]
fn pinyin_initials_of_mixed_text() {
    assert_eq!(get_pinyin_initials("北京生产服务器01"), "bjscfwq");
    assert_eq!(get_pinyin_initials("Web测试"), "webcs");
    assert_eq!(char_to_initial('中'), Some('z'));
    assert_eq!(char_to_initial('好'), None);
}

#[test]
fn text_contains_is_substring() {
    assert!(text_contains("hello world", "lo w"));
    assert!(text_contains("abc", ""));
    assert!(!text_contains("abc", "abcd"));
    assert!(!text_contains("abc", "ac"));
}

fn sample_tree() -> ServerTree {
    let mut tree = ServerTree::new();
    tree.ungrouped_servers.push(ServerEntry::new("上海办公网", "10.2.0.1", "admin"));
    let mut prod = ServerGroup::new("生产");
    prod.servers.push(ServerEntry::new("web-01", "10.0.0.1", "root"));
    prod.servers.push(ServerEntry::new("db-01", "10.0.0.2", "root"));
    let mut cache = ServerGroup::new("cache");
    cache.servers.push(ServerEntry::new("redis-01", "10.0.0.9", "root"));
    prod.subgroups.push(cache);
    prod.is_expanded = false;
    tree.groups.push(prod);
    tree
}

#[test]
fn filter_keeps_matching_servers_and_expands_groups() {
    let tree = sample_tree();
    assert_eq!(tree.total_server_count(), 4);

    let f = ServerSearch::filter_tree(&tree, "redis");
    assert_eq!(f.total_server_count(), 1);
    assert_eq!(f.groups.len(), 1);
    assert!(f.groups[0].is_expanded);
    assert!(f.groups[0].servers.is_empty());
    assert_eq!(f.groups[0].subgroups[0].servers[0].name, "redis-01");
    assert!(f.ungrouped_servers.is_empty());
}

#[test]
fn filter_by_group_name_keeps_all_its_servers() {
    let tree = sample_tree();
    let f = ServerSearch::filter_tree(&tree, "生产");
    assert_eq!(f.groups.len(), 1);
    assert_eq!(f.groups[0].servers.len(), 2);
    assert!(f.groups[0].subgroups.is_empty());
    assert!(f.ungrouped_servers.is_empty());
}

#[test]
fn blank_filter_returns_whole_tree() {
    let tree = sample_tree();
    let f = ServerSearch::filter_tree(&tree, "   ");
    assert_eq!(f, tree);
}

#[test]
fn filter_never_adds_servers() {
    let tree = sample_tree();
    for q in ["10.0", "01", "root", "sh", "nothing", "cache"] {
        let f = ServerSearch::filter_tree(&tree, q);
        assert!(f.total_server_count() <= tree.total_server_count());
        for s in &f.ungrouped_servers {
            assert!(ServerSearch::matches(s, q));
        }
    }
}

#[test]
fn shorter_query_keeps_hits() {
    let server = ServerEntry::new("北京生产服务器01", "10.0.1.10", "Administrator");
    for (q, shorter) in [("  ADMIN ", "dmi"), ("bjsc", "js"), ("10.0.1.10", "0.1"), ("生产服务", "服")] {
        assert!(ServerSearch::matches(&server, q));
        assert!(ServerSearch::matches(&server, shorter), "{shorter}");
        assert!(ServerSearch::matches(&server, ""));
    }
}
