use hypivisor::node::{Event, NodeInfo, NodeStatus, NodeTable};

fn info(id: &str, machine: &str, port: u16) -> NodeInfo {
    NodeInfo {
        id: id.to_string(),
        machine: machine.to_string(),
        cwd: "/tmp".to_string(),
        port,
        status: NodeStatus::Active,
        offline_since: None,
        last_seen: None,
        pid: Some(7),
    }
}

fn snapshot(t: &NodeTable) -> Vec<(String, String, u16, NodeStatus, Option<i64>, Option<i64>)> {
    t.values()
        .into_iter()
        .map(|n| (n.id, n.machine, n.port, n.status, n.offline_since, n.last_seen))
        .collect()
}

#[test]
fn same_endpoint_eviction_scenario() {
    let mut t = NodeTable::new();
    t.register(info("old", "h", 8082), 1);
    let events = t.register(info("new", "h", 8082), 2);
    assert!(!t.contains_key("old"));
    assert!(t.contains_key("new"));
    assert_eq!(t.len(), 1);
    assert_eq!(events.len(), 2);
    assert!(matches!(&events[0], Event::NodeRemoved(id) if id == "old"));
    assert!(matches!(&events[1], Event::NodeJoined(n) if n.id == "new"));
}

#[test]
fn register_twice_is_idempotent() {
    let mut once = NodeTable::new();
    once.register(info("x", "h", 1), 0);
    once.register(info("a", "h", 5), 10);
    let mut twice = NodeTable::new();
    twice.register(info("x", "h", 1), 0);
    twice.register(info("a", "h", 5), 9);
    let events = twice.register(info("a", "h", 5), 10);
    assert_eq!(snapshot(&once), snapshot(&twice));
    assert_eq!(events.len(), 1);
}

#[test]
fn sweep_keeps_fresh_offline_and_unseen_active() {
    let mut t = NodeTable::new();
    let mut off = info("off", "h", 1);
    off.status = NodeStatus::Offline;
    off.offline_since = Some(940);
    t.insert(off);
    t.insert(info("unseen", "h", 2));
    hypivisor::janitor::cleanup_stale_nodes(&mut t, 1000, 60);
    hypivisor::janitor::cleanup_stale_nodes(&mut t, i64::MAX, 0);
    assert!(t.contains_key("unseen"));
    assert!(!t.contains_key("off"));
}

#[test]
fn register_and_list_scenario() {
    let mut t = NodeTable::new();
    t.register(info("n1", "127.0.0.1", 9999), 1);
    let v = t.values();
    assert_eq!(v.len(), 1);
    assert_eq!(v[0].id, "n1");
}

#[test]
fn table_insert_and_remove() {
    let mut t = NodeTable::new();
    t.insert(info("a", "h", 1));
    t.insert(info("b", "h", 2));
    t.insert(info("a", "g", 3));
    assert_eq!(t.len(), 2);
    assert_eq!(t.get("a").unwrap().machine, "g");
    assert_eq!(t.remove("a").unwrap().port, 3);
    assert!(t.remove("a").is_none());
    assert_eq!(t.len(), 1);
    assert_eq!(t.at(0).id, "b");
}
