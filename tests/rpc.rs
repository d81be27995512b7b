use hypivisor::node::{Event, NodeInfo, NodeStatus, NodeTable};
use hypivisor::rpc::{delegated_reply, dispatch, Dispatched, RpcParams, RpcRequest, RpcResponse, RpcResult};

fn info(id: &str, machine: &str, cwd: &str, port: u16) -> NodeInfo {
    NodeInfo {
        id: id.to_string(),
        machine: machine.to_string(),
        cwd: cwd.to_string(),
        port,
        status: NodeStatus::Active,
        offline_since: None,
        last_seen: None,
        pid: None,
    }
}

fn params_node(n: NodeInfo) -> Option<RpcParams> {
    Some(RpcParams { node: Some(n), id: None, path: None, new_folder: None })
}

fn params_id(id: &str) -> Option<RpcParams> {
    Some(RpcParams { node: None, id: Some(id.to_string()), path: None, new_folder: None })
}

fn request(id: &str, method: &str, params: Option<RpcParams>) -> RpcRequest {
    RpcRequest { id: Some(id.to_string()), method: method.to_string(), params }
}

fn reply(d: Dispatched) -> RpcResponse {
    match d {
        Dispatched::Reply(r) => r,
        other => panic!("expected a reply, got {:?}", other),
    }
}

#[test]
fn register_adds_node() {
    let mut reg = NodeTable::new();
    let req = request("1", "register", params_node(info("test-node", "host", "/tmp", 8080)));
    let (d, _) = dispatch(req, &mut reg, 1);
    assert!(reply(d).error.is_none());
    assert!(reg.contains_key("test-node"));
}

#[test]
fn list_nodes_returns_registered() {
    let mut reg = NodeTable::new();
    dispatch(request("1", "register", params_node(info("n1", "h", "/tmp", 80))), &mut reg, 1);
    let (d, _) = dispatch(request("2", "list_nodes", None), &mut reg, 2);
    match reply(d).result {
        Some(RpcResult::Nodes(nodes)) => {
            assert_eq!(nodes.len(), 1);
            assert_eq!(nodes[0].id, "n1");
        }
        other => panic!("unexpected {:?}", other),
    }
}

#[test]
fn register_same_id_new_port_overwrites() {
    let mut reg = NodeTable::new();
    dispatch(
        request("1", "register", params_node(info("session-uuid", "host", "/project", 8082))),
        &mut reg,
        1,
    );
    assert_eq!(reg.get("session-uuid").unwrap().port, 8082);
    dispatch(
        request("2", "register", params_node(info("session-uuid", "host", "/project", 8080))),
        &mut reg,
        2,
    );
    assert_eq!(reg.len(), 1);
    assert_eq!(reg.get("session-uuid").unwrap().port, 8080);
}

#[test]
fn register_evicts_stale_node_same_machine_port() {
    let mut reg = NodeTable::new();
    dispatch(
        request("1", "register", params_node(info("host-old-session", "host", "/project", 8082))),
        &mut reg,
        1,
    );
    assert!(reg.contains_key("host-old-session"));
    dispatch(
        request("2", "register", params_node(info("host-new-session", "host", "/project", 8082))),
        &mut reg,
        2,
    );
    assert!(!reg.contains_key("host-old-session"));
    assert!(reg.contains_key("host-new-session"));
}

#[test]
fn register_keeps_different_port_same_machine() {
    let mut reg = NodeTable::new();
    dispatch(
        request("1", "register", params_node(info("host-session-a", "host", "/project-a", 8081))),
        &mut reg,
        1,
    );
    dispatch(
        request("2", "register", params_node(info("host-session-b", "host", "/project-a", 8082))),
        &mut reg,
        2,
    );
    assert_eq!(reg.len(), 2);
}

#[test]
fn deregister_removes_node() {
    let mut reg = NodeTable::new();
    dispatch(request("1", "register", params_node(info("dereg-node", "h", "/tmp", 80))), &mut reg, 1);
    assert_eq!(reg.len(), 1);
    let (d, events) = dispatch(request("2", "deregister", params_id("dereg-node")), &mut reg, 2);
    let resp = reply(d);
    assert!(resp.error.is_none());
    assert!(matches!(resp.result, Some(RpcResult::Deregistered)));
    assert_eq!(reg.len(), 0);
    assert!(matches!(&events[..], [Event::NodeRemoved(id)] if id == "dereg-node"));
}

#[test]
fn deregister_nonexistent_returns_not_found() {
    let mut reg = NodeTable::new();
    let (d, events) = dispatch(request("1", "deregister", params_id("ghost")), &mut reg, 1);
    let resp = reply(d);
    assert!(resp.error.is_none());
    assert!(matches!(resp.result, Some(RpcResult::NotFound)));
    assert!(events.is_empty());
}

#[test]
fn unknown_method_returns_error() {
    let mut reg = NodeTable::new();
    let (d, _) = dispatch(request("1", "bogus", None), &mut reg, 1);
    let resp = reply(d);
    assert!(resp.error.is_some());
    assert!(resp.error.unwrap().contains("Method not found"));
}

#[test]
fn unknown_method_names_the_method() {
    let mut reg = NodeTable::new();
    let (d, _) = dispatch(request("7", "totally_bogus", None), &mut reg, 1);
    let resp = reply(d);
    assert_eq!(resp.id.as_deref(), Some("7"));
    assert_eq!(resp.error.as_deref(), Some("Method not found: totally_bogus"));
    assert!(resp.result.is_none());
}

#[test]
fn register_param_errors() {
    let mut reg = NodeTable::new();
    let resp = reply(dispatch(request("1", "register", None), &mut reg, 1).0);
    assert_eq!(resp.error.as_deref(), Some("Missing params"));
    let empty = Some(RpcParams { node: None, id: None, path: None, new_folder: None });
    let resp = reply(dispatch(request("2", "register", empty), &mut reg, 1).0);
    assert_eq!(resp.error.as_deref(), Some("Invalid node info"));
    let resp = reply(dispatch(request("3", "deregister", None), &mut reg, 1).0);
    assert_eq!(resp.error.as_deref(), Some("Missing params.id"));
    assert!(reg.is_empty());
}

#[test]
fn register_sets_liveness_fields() {
    let mut reg = NodeTable::new();
    let mut n = info("n", "h", "/", 1);
    n.status = NodeStatus::Offline;
    n.offline_since = Some(3);
    let (_, events) = dispatch(request("1", "register", params_node(n)), &mut reg, 42);
    let e = reg.get("n").unwrap();
    assert_eq!(e.status, NodeStatus::Active);
    assert_eq!(e.offline_since, None);
    assert_eq!(e.last_seen, Some(42));
    assert!(matches!(&events[..], [Event::NodeJoined(j)] if j.id == "n" && j.last_seen == Some(42)));
}

#[test]
fn ping_reports_node_count() {
    let mut reg = NodeTable::new();
    dispatch(request("1", "register", params_node(info("a", "h", "/", 1))), &mut reg, 1);
    dispatch(request("2", "register", params_node(info("b", "h", "/", 2))), &mut reg, 1);
    let resp = reply(dispatch(request("3", "ping", None), &mut reg, 1).0);
    assert!(matches!(resp.result, Some(RpcResult::Health { nodes: 2 })));
}

#[test]
fn delegated_methods_are_handed_out() {
    let mut reg = NodeTable::new();
    let p = Some(RpcParams { node: None, id: None, path: Some("/x".into()), new_folder: None });
    match dispatch(request("1", "list_directories", p), &mut reg, 1).0 {
        Dispatched::ListDirectories { id, path } => {
            assert_eq!(id.as_deref(), Some("1"));
            assert_eq!(path.as_deref(), Some("/x"));
        }
        other => panic!("unexpected {:?}", other),
    }
    let p = Some(RpcParams { node: None, id: None, path: None, new_folder: Some("f".into()) });
    match dispatch(request("2", "spawn_agent", p), &mut reg, 1).0 {
        Dispatched::SpawnAgent { path, new_folder, .. } => {
            assert_eq!(path, "");
            assert_eq!(new_folder, "f");
        }
        other => panic!("unexpected {:?}", other),
    }
    let resp = reply(dispatch(request("3", "spawn_agent", None), &mut reg, 1).0);
    assert_eq!(resp.error.as_deref(), Some("Missing params"));
    let r = delegated_reply(Some("4".into()), Err("outside home".into()));
    assert_eq!(r.error.as_deref(), Some("outside home"));
    assert!(r.result.is_none());
}
