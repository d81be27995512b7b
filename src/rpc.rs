//! RPC dispatch against the node table.
use vstd::prelude::*;
use crate::node::{
    Event, EventModel, NodeInfo, NodeModel, NodeTable, events_view, has_id, register_events,
    registered, views,
};
use crate::text::push_str;

verus! {

/// The parameters of a request, as far as the methods read them.
#[derive(Debug)]
pub struct RpcParams {
    /// The parameters read as a node record, when they form one.
    pub node: Option<NodeInfo>,
    /// The string field `id`.
    pub id: Option<String>,
    /// The string field `path`.
    pub path: Option<String>,
    /// The string field `new_folder`.
    pub new_folder: Option<String>,
}

/// A request envelope `{id?, method, params?}`.
#[derive(Debug)]
pub struct RpcRequest {
    pub id: Option<String>,
    pub method: String,
    pub params: Option<RpcParams>,
}

/// What a successful call returns.
#[derive(Debug)]
pub enum RpcResult {
    /// `{status: "registered"}`
    Registered,
    /// `{status: "deregistered"}`
    Deregistered,
    /// `{status: "not_found"}`
    NotFound,
    /// The array of all records.
    Nodes(Vec<NodeInfo>),
    /// `{status: "healthy", nodes, version}`
    Health { nodes: usize },
    /// `{current, directories}`
    Directories { current: String, directories: Vec<String> },
    /// `{status: "spawning", path}`
    Spawning { path: String },
}

/// A response envelope: exactly one of `result` and `error` is present.
#[derive(Debug)]
pub struct RpcResponse {
    pub id: Option<String>,
    pub result: Option<RpcResult>,
    pub error: Option<String>,
}

/// What a request leads to: a reply, or a call that the file-system
/// collaborator has to answer.
#[derive(Debug)]
pub enum Dispatched {
    Reply(RpcResponse),
    ListDirectories { id: Option<String>, path: Option<String> },
    SpawnAgent { id: Option<String>, path: String, new_folder: String },
}

/// `d` replies to request `id` with the error `msg`.
pub open spec fn replies_error(d: Dispatched, id: Option<String>, msg: Seq<char>) -> bool {
    match d {
        Dispatched::Reply(r) => r.id == id && r.result is None && match r.error {
            Some(e) => e@ == msg,
            None => false,
        },
        _ => false,
    }
}

/// `d` replies to request `id` with a result.
pub open spec fn replies_ok(d: Dispatched, id: Option<String>) -> bool {
    match d {
        Dispatched::Reply(r) => r.id == id && r.error is None && r.result is Some,
        _ => false,
    }
}

/// The result that `d` carries.
pub open spec fn result_of(d: Dispatched) -> RpcResult
    recommends
        d matches Dispatched::Reply(r) && r.result is Some,
{
    d->Reply_0.result->0
}

/// The `path` field of optional parameters.
pub open spec fn path_param(p: Option<RpcParams>) -> Option<String> {
    match p {
        Some(q) => q.path,
        None => None,
    }
}

/// The `id` field of optional parameters.
pub open spec fn id_param(p: Option<RpcParams>) -> Option<String> {
    match p {
        Some(q) => q.id,
        None => None,
    }
}

/// A string field, or the empty string when it is absent.
pub open spec fn or_empty(s: Option<String>) -> Seq<char> {
    match s {
        Some(v) => v@,
        None => Seq::empty(),
    }
}

/// The outcome of `register` on table `before`, leaving `after`.
pub open spec fn register_done(
    id: Option<String>,
    params: Option<RpcParams>,
    before: Seq<NodeModel>,
    after: Seq<NodeModel>,
    r: (Dispatched, Vec<Event>),
    now: i64,
) -> bool {
    match params {
        None => replies_error(r.0, id, "Missing params"@) && after == before && r.1@.len() == 0,
        Some(p) => match p.node {
            None => replies_error(r.0, id, "Invalid node info"@) && after == before && r.1@.len() == 0,
            Some(n) => replies_ok(r.0, id) && result_of(r.0) is Registered && after == registered(
                before,
                n@,
                now,
            ) && events_view(r.1@) == register_events(before, n@, now),
        },
    }
}

/// The outcome of `deregister` on table `before`, leaving `after`.
pub open spec fn deregister_done(
    id: Option<String>,
    params: Option<RpcParams>,
    before: Seq<NodeModel>,
    after: Seq<NodeModel>,
    r: (Dispatched, Vec<Event>),
) -> bool {
    match id_param(params) {
        None => replies_error(r.0, id, "Missing params.id"@) && after == before && r.1@.len() == 0,
        Some(k) => if has_id(before, k@) {
            &&& replies_ok(r.0, id)
            &&& result_of(r.0) is Deregistered
            &&& !has_id(after, k@)
            &&& exists|i: int| 0 <= i < before.len() && before[i].id == k@ && after == before.remove(i)
            &&& events_view(r.1@) == seq![EventModel::Removed(k@)]
        } else {
            replies_ok(r.0, id) && result_of(r.0) is NotFound && after == before && r.1@.len() == 0
        },
    }
}

/// The outcome of `spawn_agent`.
pub open spec fn spawn_done(id: Option<String>, params: Option<RpcParams>, d: Dispatched) -> bool {
    match params {
        None => replies_error(d, id, "Missing params"@),
        Some(p) => match d {
            Dispatched::SpawnAgent { id: i, path, new_folder } => i == id && path@ == or_empty(p.path)
                && new_folder@ == or_empty(p.new_folder),
            _ => false,
        },
    }
}

/// The method names that `dispatch` knows.
pub open spec fn known_method(m: Seq<char>) -> bool {
    m == "register"@ || m == "deregister"@ || m == "list_nodes"@ || m == "list_directories"@ || m
        == "spawn_agent"@ || m == "ping"@
}

fn error_reply(id: Option<String>, msg: &str) -> (d: Dispatched)
    ensures
        replies_error(d, id, msg@),
{
    Dispatched::Reply(RpcResponse { id, result: None, error: Some(msg.to_owned()) })
}

fn ok_reply(id: Option<String>, result: RpcResult) -> (d: Dispatched)
    ensures
        replies_ok(d, id),
        result_of(d) == result,
{
    Dispatched::Reply(RpcResponse { id, result: Some(result), error: None })
}

/// Whether `s` holds exactly the characters of `lit`.
pub fn equals(s: &String, lit: &str) -> (r: bool)
    ensures
        r == (s@ == lit@),
{
    *s == lit.to_owned()
}

pub fn handle_register(id: Option<String>, params: Option<RpcParams>, table: &mut NodeTable, now: i64)
    -> (r: (Dispatched, Vec<Event>))
    requires
        old(table).wf(),
    ensures
        final(table).wf(),
        register_done(id, params, old(table)@, final(table)@, r, now),
{
    match params {
        None => (error_reply(id, "Missing params"), Vec::new()),
        Some(p) => match p.node {
            None => (error_reply(id, "Invalid node info"), Vec::new()),
            Some(n) => {
                let events = table.register(n, now);
                (ok_reply(id, RpcResult::Registered), events)
            },
        },
    }
}

pub fn handle_deregister(id: Option<String>, params: Option<RpcParams>, table: &mut NodeTable)
    -> (r: (Dispatched, Vec<Event>))
    requires
        old(table).wf(),
    ensures
        final(table).wf(),
        deregister_done(id, params, old(table)@, final(table)@, r),
{
    let key = match params {
        Some(p) => p.id,
        None => None,
    };
    match key {
        None => (error_reply(id, "Missing params.id"), Vec::new()),
        Some(k) => {
            let removed = table.remove(k.as_str());
            match removed {
                Some(_) => {
                    proof {
                        let i = choose|i: int| 0 <= i < old(table)@.len() && old(table)@[i].id == k@
                            && table@ == old(table)@.remove(i);
                        assert forall|j: int| 0 <= j < table@.len() implies table@[j].id != k@ by {
                            if j < i {
                                assert(table@[j] == old(table)@[j]);
                            } else {
                                assert(table@[j] == old(table)@[j + 1]);
                            }
                        }
                    }
                    let mut events: Vec<Event> = Vec::new();
                    events.push(Event::NodeRemoved(k));
                    assert(events_view(events@) =~= seq![EventModel::Removed(k@)]);
                    (ok_reply(id, RpcResult::Deregistered), events)
                },
                None => (ok_reply(id, RpcResult::NotFound), Vec::new()),
            }
        },
    }
}

fn handle_list_nodes(id: Option<String>, table: &NodeTable) -> (d: Dispatched)
    ensures
        replies_ok(d, id),
        result_of(d) matches RpcResult::Nodes(v) && views(v@) == table@,
{
    ok_reply(id, RpcResult::Nodes(table.values()))
}

fn handle_ping(id: Option<String>, table: &NodeTable) -> (d: Dispatched)
    ensures
        replies_ok(d, id),
        result_of(d) == (RpcResult::Health { nodes: table@.len() as usize }),
{
    ok_reply(id, RpcResult::Health { nodes: table.len() })
}

fn handle_list_directories(id: Option<String>, params: Option<RpcParams>) -> (d: Dispatched)
    ensures
        d == (Dispatched::ListDirectories { id, path: path_param(params) }),
{
    let path = match params {
        Some(p) => p.path,
        None => None,
    };
    Dispatched::ListDirectories { id, path }
}

fn handle_spawn_agent(id: Option<String>, params: Option<RpcParams>) -> (d: Dispatched)
    ensures
        spawn_done(id, params, d),
{
    match params {
        None => error_reply(id, "Missing params"),
        Some(p) => {
            let path = match p.path {
                Some(s) => s,
                None => String::new(),
            };
            let new_folder = match p.new_folder {
                Some(s) => s,
                None => String::new(),
            };
            Dispatched::SpawnAgent { id, path, new_folder }
        },
    }
}

/// What `dispatch` does with request `req` on table `before`, leaving
/// `after` and returning `r`.
pub open spec fn dispatched(
    req: RpcRequest,
    before: Seq<NodeModel>,
    after: Seq<NodeModel>,
    r: (Dispatched, Vec<Event>),
    now: i64,
) -> bool {
    let m = req.method@;
    &&& m == "register"@ ==> register_done(req.id, req.params, before, after, r, now)
    &&& m == "deregister"@ ==> deregister_done(req.id, req.params, before, after, r)
    &&& m != "register"@ && m != "deregister"@ ==> after == before && r.1@.len() == 0
    &&& m == "list_nodes"@ ==> replies_ok(r.0, req.id) && (result_of(r.0) matches RpcResult::Nodes(v)
        && views(v@) == before)
    &&& m == "ping"@ ==> replies_ok(r.0, req.id) && result_of(r.0) == (RpcResult::Health {
        nodes: before.len() as usize,
    })
    &&& m == "list_directories"@ ==> r.0 == (Dispatched::ListDirectories {
        id: req.id,
        path: path_param(req.params),
    })
    &&& m == "spawn_agent"@ ==> spawn_done(req.id, req.params, r.0)
    &&& !known_method(m) ==> replies_error(r.0, req.id, "Method not found: "@ + m)
}

/// Routes a request by its method name and returns what it leads to with
/// the events to publish, in order.
pub fn dispatch(req: RpcRequest, table: &mut NodeTable, now: i64) -> (r: (Dispatched, Vec<Event>))
    requires
        old(table).wf(),
    ensures
        final(table).wf(),
        dispatched(req, old(table)@, final(table)@, r, now),
{
    let RpcRequest { id, method, params } = req;
    proof {
        reveal_strlit("register");
        reveal_strlit("deregister");
        reveal_strlit("list_nodes");
        reveal_strlit("list_directories");
        reveal_strlit("spawn_agent");
        reveal_strlit("ping");
        assert("register"@[0] != "deregister"@[0]);
        assert("list_nodes"@[0] != "deregister"@[0]);
        assert("list_nodes"@[5] != "list_directories"@[5]);
        assert("register"@[0] != "list_nodes"@[0]);
        assert("register"@[0] != "list_directories"@[0]);
        assert("register"@[0] != "spawn_agent"@[0]);
        assert("register"@[0] != "ping"@[0]);
        assert("deregister"@[0] != "list_directories"@[0]);
        assert("deregister"@[0] != "spawn_agent"@[0]);
        assert("deregister"@[0] != "ping"@[0]);
        assert("list_nodes"@[0] != "spawn_agent"@[0]);
        assert("list_nodes"@[0] != "ping"@[0]);
        assert("list_directories"@[0] != "spawn_agent"@[0]);
        assert("list_directories"@[0] != "ping"@[0]);
        assert("spawn_agent"@[0] != "ping"@[0]);
    }
    if equals(&method, "register") {
        handle_register(id, params, table, now)
    } else if equals(&method, "deregister") {
        handle_deregister(id, params, table)
    } else if equals(&method, "list_nodes") {
        (handle_list_nodes(id, table), Vec::new())
    } else if equals(&method, "list_directories") {
        (handle_list_directories(id, params), Vec::new())
    } else if equals(&method, "spawn_agent") {
        (handle_spawn_agent(id, params), Vec::new())
    } else if equals(&method, "ping") {
        (handle_ping(id, table), Vec::new())
    } else {
        let mut msg = "Method not found: ".to_owned();
        push_str(&mut msg, method.as_str());
        (Dispatched::Reply(RpcResponse { id, result: None, error: Some(msg) }), Vec::new())
    }
}

/// The reply to a call that the file-system collaborator answered.
pub fn delegated_reply(id: Option<String>, outcome: Result<RpcResult, String>) -> (r: RpcResponse)
    ensures
        r.id == id,
        outcome matches Ok(x) ==> r.result == Some(x) && r.error is None,
        outcome matches Err(e) ==> r.result is None && r.error == Some(e),
{
    match outcome {
        Ok(x) => RpcResponse { id, result: Some(x), error: None },
        Err(e) => RpcResponse { id, result: None, error: Some(e) },
    }
}

} // verus!
