use chrono::Utc;
use hypivisor::node::{Event, NodeInfo, NodeStatus, NodeTable};
use hypivisor::rpc::{Dispatched, RpcParams, RpcRequest, RpcResult};
use hypivisor::session::{
    lookup_proxy_target, mark_node_offline, process_registry_message, proxy_error_json,
    update_heartbeat, ProxyLookup, RegistrySession, TeardownStep,
};

fn make_node(id: &str, status: NodeStatus) -> NodeInfo {
    NodeInfo {
        id: id.to_string(),
        machine: "localhost".to_string(),
        cwd: "/tmp".to_string(),
        port: 8080,
        status,
        offline_since: None,
        last_seen: Some(Utc::now().timestamp()),
        pid: None,
    }
}

fn register_request(req_id: &str, node: NodeInfo) -> RpcRequest {
    RpcRequest {
        id: Some(req_id.to_string()),
        method: "register".to_string(),
        params: Some(RpcParams { node: Some(node), id: None, path: None, new_folder: None }),
    }
}

fn list_request(req_id: &str) -> RpcRequest {
    RpcRequest { id: Some(req_id.to_string()), method: "list_nodes".to_string(), params: None }
}

#[test]
fn proxy_lookup_active_node() {
    let mut nodes = NodeTable::new();
    nodes.insert(make_node("n1", NodeStatus::Active));
    assert_eq!(
        lookup_proxy_target(&nodes, "n1"),
        ProxyLookup::Found { host: "localhost".to_string(), port: 8080 }
    );
}

#[test]
fn proxy_lookup_offline_node() {
    let mut nodes = NodeTable::new();
    nodes.insert(make_node("n1", NodeStatus::Offline));
    assert_eq!(lookup_proxy_target(&nodes, "n1"), ProxyLookup::Offline);
}

#[test]
fn proxy_lookup_missing_node() {
    let nodes = NodeTable::new();
    assert_eq!(lookup_proxy_target(&nodes, "n1"), ProxyLookup::NotFound);
}

#[test]
fn proxy_error_offline() {
    let json = proxy_error_json(&ProxyLookup::Offline).unwrap();
    let parsed: serde_json::Value = serde_json::from_str(&json).unwrap();
    assert_eq!(parsed["error"], "Agent is offline");
}

#[test]
fn proxy_error_not_found() {
    let json = proxy_error_json(&ProxyLookup::NotFound).unwrap();
    let parsed: serde_json::Value = serde_json::from_str(&json).unwrap();
    assert_eq!(parsed["error"], "Agent not found");
    assert_eq!(json, "{\"error\":\"Agent not found\"}");
}

#[test]
fn proxy_error_found_returns_none() {
    assert!(proxy_error_json(&ProxyLookup::Found { host: "h".into(), port: 1 }).is_none());
}

#[test]
fn process_register_extracts_node_id() {
    let mut reg = NodeTable::new();
    let mut n = make_node("node-42", NodeStatus::Active);
    n.machine = "host".into();
    let (d, _, new_id) = process_registry_message(register_request("req-1", n), &mut reg, 1);
    assert!(new_id.is_some());
    assert_eq!(new_id.unwrap(), "node-42");
    match d {
        Dispatched::Reply(r) => assert!(matches!(r.result, Some(RpcResult::Registered))),
        _ => panic!("expected a reply"),
    }
}

#[test]
fn process_list_nodes_returns_none_new_id() {
    let mut reg = NodeTable::new();
    let (_, _, new_id) = process_registry_message(list_request("req-1"), &mut reg, 1);
    assert!(new_id.is_none());
}

#[test]
fn process_register_with_registered_node_id() {
    let mut reg = NodeTable::new();
    let mut n = make_node("node-1", NodeStatus::Active);
    n.machine = "host".into();
    process_registry_message(register_request("req-1", n), &mut reg, 1);
    let (d, _, _) = process_registry_message(list_request("req-2"), &mut reg, 2);
    match d {
        Dispatched::Reply(r) => match r.result {
            Some(RpcResult::Nodes(v)) => assert!(v.iter().any(|n| n.id == "node-1")),
            _ => panic!("expected nodes"),
        },
        _ => panic!("expected a reply"),
    }
}

#[test]
fn mark_offline_existing_node() {
    let mut reg = NodeTable::new();
    reg.insert(make_node("n1", NodeStatus::Active));
    let event = mark_node_offline(&mut reg, "n1", Utc::now().timestamp());
    assert!(event.is_some());
    assert!(matches!(event.unwrap(), Event::NodeOffline(id) if id == "n1"));
    let n = reg.get("n1").unwrap();
    assert_eq!(n.status, NodeStatus::Offline);
    assert!(n.offline_since.is_some());
}

#[test]
fn mark_offline_missing_node() {
    let mut reg = NodeTable::new();
    let event = mark_node_offline(&mut reg, "ghost", 1);
    assert!(event.is_none());
}

#[test]
fn heartbeat_updates_last_seen() {
    let mut reg = NodeTable::new();
    let old_ts = 1000i64;
    let mut node = make_node("n1", NodeStatus::Active);
    node.last_seen = Some(old_ts);
    reg.insert(node);
    update_heartbeat(&mut reg, "n1", Utc::now().timestamp());
    let new_ts = reg.get("n1").unwrap().last_seen.unwrap();
    assert!(new_ts > old_ts);
}

#[test]
fn heartbeat_missing_node_is_noop() {
    let mut reg = NodeTable::new();
    update_heartbeat(&mut reg, "ghost", 5);
    assert!(reg.is_empty());
}

#[test]
fn disconnect_marks_bound_node_offline() {
    let mut table = NodeTable::new();
    let mut session = RegistrySession::new();
    let mut n = make_node("n3", NodeStatus::Active);
    n.machine = "127.0.0.1".into();
    session.on_request(register_request("r1", n), &mut table, 100);
    assert_eq!(session.bound.as_deref(), Some("n3"));
    let event = session.on_close(&mut table, 200);
    assert!(matches!(event, Some(Event::NodeOffline(ref id)) if id == "n3"));
    let entry = table.get("n3").unwrap();
    assert_eq!(entry.status, NodeStatus::Offline);
    assert_eq!(entry.offline_since, Some(200));
}

#[test]
fn latest_register_wins_the_binding() {
    let mut table = NodeTable::new();
    let mut session = RegistrySession::new();
    session.on_request(register_request("r1", make_node("a", NodeStatus::Active)), &mut table, 1);
    let mut b = make_node("b", NodeStatus::Active);
    b.port = 9000;
    session.on_request(register_request("r2", b), &mut table, 2);
    session.on_request(list_request("r3"), &mut table, 3);
    assert_eq!(session.bound.as_deref(), Some("b"));
    session.on_ping(&mut table, 7);
    assert_eq!(table.get("b").unwrap().last_seen, Some(7));
    assert_eq!(table.get("a").unwrap().last_seen, Some(1));
}

#[test]
fn close_without_binding_publishes_nothing() {
    let mut table = NodeTable::new();
    table.insert(make_node("x", NodeStatus::Active));
    let session = RegistrySession::new();
    assert!(session.on_close(&mut table, 5).is_none());
    assert_eq!(table.get("x").unwrap().status, NodeStatus::Active);
}

#[test]
fn proxy_to_unknown_scenario() {
    let table = NodeTable::new();
    let verdict = hypivisor::http::classify_connection("GET /ws/agent/ghost HTTP/1.1\r\n\r\n", "");
    let id = match verdict {
        hypivisor::http::Verdict::Route(hypivisor::http::RouteMatch::AgentProxy(id)) => id,
        other => panic!("unexpected {:?}", other),
    };
    let lookup = lookup_proxy_target(&table, &id);
    assert_eq!(proxy_error_json(&lookup).unwrap(), "{\"error\":\"Agent not found\"}");
}

#[test]
fn teardown_publishes_offline_before_stopping() {
    let mut table = NodeTable::new();
    let mut session = RegistrySession::new();
    session.on_request(register_request("r1", make_node("n3", NodeStatus::Active)), &mut table, 1);
    let steps = session.teardown(&mut table, 9);
    assert_eq!(steps.len(), 3);
    assert!(matches!(&steps[0], TeardownStep::Publish(Event::NodeOffline(id)) if id == "n3"));
    assert!(matches!(steps[1], TeardownStep::StopForwarder));
    assert!(matches!(steps[2], TeardownStep::Shutdown));
    assert_eq!(table.get("n3").unwrap().offline_since, Some(9));
    let idle = RegistrySession::new();
    let steps = idle.teardown(&mut table, 10);
    assert_eq!(steps.len(), 2);
    assert!(matches!(steps[0], TeardownStep::StopForwarder));
}
