//! Per-connection bookkeeping of a registry session and the target lookup
//! of a proxy session.
use vstd::prelude::*;
use crate::node::{
    Event, EventModel, NodeStatus, NodeTable, has_id, refreshed, went_offline,
};
use crate::rpc::{Dispatched, RpcRequest, dispatch, dispatched, equals};

verus! {

/// The node id that a request binds to its connection: the id of the
/// record that a `register` call carries.
pub open spec fn bound_by(req: RpcRequest) -> Option<Seq<char>> {
    if req.method@ == "register"@ {
        match req.params {
            Some(p) => match p.node {
                Some(n) => Some(n.id@),
                None => None,
            },
            None => None,
        }
    } else {
        None
    }
}

/// Dispatches one request of a registry session. Returns what it leads to,
/// the events to publish, and the node id that the request binds to the
/// connection, if any.
pub fn process_registry_message(req: RpcRequest, table: &mut NodeTable, now: i64) -> (r: (
    Dispatched,
    Vec<Event>,
    Option<String>,
))
    requires
        old(table).wf(),
    ensures
        final(table).wf(),
        dispatched(req, old(table)@, final(table)@, (r.0, r.1), now),
        match r.2 {
            Some(s) => bound_by(req) == Some(s@),
            None => bound_by(req) is None,
        },
{
    let new_id = if equals(&req.method, "register") {
        match &req.params {
            Some(p) => match &p.node {
                Some(n) => Some(n.id.clone()),
                None => None,
            },
            None => None,
        }
    } else {
        None
    };
    let (d, events) = dispatch(req, table, now);
    (d, events, new_id)
}

/// Marks the node offline since `now`; returns the event to publish, or
/// nothing when the table holds no such node.
pub fn mark_node_offline(table: &mut NodeTable, node_id: &str, now: i64) -> (r: Option<Event>)
    requires
        old(table).wf(),
    ensures
        final(table).wf(),
        has_id(old(table)@, node_id@) ==> (r matches Some(e) && e@ == EventModel::Offline(node_id@)),
        !has_id(old(table)@, node_id@) ==> r is None && final(table)@ == old(table)@,
        forall|i: int| 0 <= i < old(table)@.len() && old(table)@[i].id == node_id@
            ==> final(table)@ == old(table)@.update(i, went_offline(old(table)@[i], now)),
{
    if table.mark_offline(node_id, now) {
        Some(Event::NodeOffline(node_id.to_owned()))
    } else {
        None
    }
}

/// Records a heartbeat of the node at `now`.
pub fn update_heartbeat(table: &mut NodeTable, node_id: &str, now: i64)
    requires
        old(table).wf(),
    ensures
        final(table).wf(),
        !has_id(old(table)@, node_id@) ==> final(table)@ == old(table)@,
        forall|i: int| 0 <= i < old(table)@.len() && old(table)@[i].id == node_id@
            ==> final(table)@ == old(table)@.update(i, refreshed(old(table)@[i], now)),
{
    table.touch(node_id, now);
}

/// The state of one registry connection: the node id it registered last.
pub struct RegistrySession {
    pub bound: Option<String>,
}

impl RegistrySession {
    pub fn new() -> (r: RegistrySession)
        ensures
            r.bound is None,
    {
        RegistrySession { bound: None }
    }

    /// Handles a request; a successful `register` binds its id, the latest
    /// one winning.
    pub fn on_request(&mut self, req: RpcRequest, table: &mut NodeTable, now: i64) -> (r: (
        Dispatched,
        Vec<Event>,
    ))
        requires
            old(table).wf(),
        ensures
            final(table).wf(),
            dispatched(req, old(table)@, final(table)@, r, now),
            match bound_by(req) {
                Some(id) => final(self).bound matches Some(b) && b@ == id,
                None => final(self).bound == old(self).bound,
            },
    {
        let (d, events, new_id) = process_registry_message(req, table, now);
        if let Some(id) = new_id {
            self.bound = Some(id);
        }
        (d, events)
    }

    /// Handles a ping: refreshes the bound node's heartbeat.
    pub fn on_ping(&self, table: &mut NodeTable, now: i64)
        requires
            old(table).wf(),
        ensures
            final(table).wf(),
            self.bound is None ==> final(table)@ == old(table)@,
            self.bound matches Some(b) ==> forall|i: int|
                0 <= i < old(table)@.len() && old(table)@[i].id == b@
                    ==> final(table)@ == old(table)@.update(i, refreshed(old(table)@[i], now)),
    {
        if let Some(b) = &self.bound {
            update_heartbeat(table, b.as_str(), now);
        }
    }

    /// Handles the end of the connection: the bound node goes offline, and
    /// the returned event is published before the session's broadcast
    /// forwarder stops.
    pub fn on_close(&self, table: &mut NodeTable, now: i64) -> (r: Option<Event>)
        requires
            old(table).wf(),
        ensures
            final(table).wf(),
            match self.bound {
                Some(b) => if has_id(old(table)@, b@) {
                    r matches Some(e) && e@ == EventModel::Offline(b@)
                } else {
                    r is None && final(table)@ == old(table)@
                },
                None => r is None && final(table)@ == old(table)@,
            },
            self.bound matches Some(b) ==> forall|i: int|
                0 <= i < old(table)@.len() && old(table)@[i].id == b@
                    ==> final(table)@ == old(table)@.update(i, went_offline(old(table)@[i], now)),
    {
        match &self.bound {
            Some(b) => mark_node_offline(table, b.as_str(), now),
            None => None,
        }
    }
}

/// One step of ending a registry session, in the order they are taken.
#[derive(Debug)]
pub enum TeardownStep {
    /// Publish this event on the bus.
    Publish(Event),
    /// Signal the broadcast forwarder to stop and wait for it.
    StopForwarder,
    /// Shut the stream down in both directions.
    Shutdown,
}

impl RegistrySession {
    /// Ends the session: the bound node goes offline, and the steps that
    /// follow, taken in order once the table is released, publish its
    /// `node_offline` event before the forwarder stops, then close the stream.
    pub fn teardown(&self, table: &mut NodeTable, now: i64) -> (steps: Vec<TeardownStep>)
        requires
            old(table).wf(),
        ensures
            final(table).wf(),
            self.bound is None ==> final(table)@ == old(table)@,
            self.bound matches Some(b) ==> forall|i: int|
                0 <= i < old(table)@.len() && old(table)@[i].id == b@
                    ==> final(table)@ == old(table)@.update(i, went_offline(old(table)@[i], now)),
            match self.bound {
                Some(b) => if has_id(old(table)@, b@) {
                    &&& steps@.len() == 3
                    &&& steps@[0] matches TeardownStep::Publish(e) && e@ == EventModel::Offline(b@)
                    &&& steps@[1] is StopForwarder
                    &&& steps@[2] is Shutdown
                } else {
                    steps@.len() == 2 && steps@[0] is StopForwarder && steps@[1] is Shutdown
                        && final(table)@ == old(table)@
                },
                None => steps@.len() == 2 && steps@[0] is StopForwarder && steps@[1] is Shutdown,
            },
    {
        let mut steps: Vec<TeardownStep> = Vec::new();
        if let Some(e) = self.on_close(table, now) {
            steps.push(TeardownStep::Publish(e));
        }
        steps.push(TeardownStep::StopForwarder);
        steps.push(TeardownStep::Shutdown);
        steps
    }
}

/// Where a proxy request goes.
#[derive(Debug)]
pub enum ProxyLookup {
    /// The node is active and listens at `host:port`.
    Found { host: String, port: u16 },
    /// The node is known but offline.
    Offline,
    /// No node has this id.
    NotFound,
}

impl PartialEq for ProxyLookup {
    fn eq(&self, other: &ProxyLookup) -> (r: bool) {
        match (self, other) {
            (ProxyLookup::Found { host: a, port: p }, ProxyLookup::Found { host: b, port: q }) => *a
                == *b && *p == *q,
            (ProxyLookup::Offline, ProxyLookup::Offline) => true,
            (ProxyLookup::NotFound, ProxyLookup::NotFound) => true,
            _ => false,
        }
    }
}

impl vstd::std_specs::cmp::PartialEqSpecImpl for ProxyLookup {
    open spec fn obeys_eq_spec() -> bool {
        true
    }

    open spec fn eq_spec(&self, other: &ProxyLookup) -> bool {
        match (self, other) {
            (ProxyLookup::Found { host: a, port: p }, ProxyLookup::Found { host: b, port: q }) => a@
                == b@ && p == q,
            (ProxyLookup::Offline, ProxyLookup::Offline) => true,
            (ProxyLookup::NotFound, ProxyLookup::NotFound) => true,
            _ => false,
        }
    }
}

/// Looks up the agent that a proxy request for `node_id` goes to.
pub fn lookup_proxy_target(table: &NodeTable, node_id: &str) -> (r: ProxyLookup)
    requires
        table.wf(),
    ensures
        !has_id(table@, node_id@) <==> r is NotFound,
        forall|i: int| 0 <= i < table@.len() && table@[i].id == node_id@ ==> {
            let m = table@[i];
            if m.status == NodeStatus::Active {
                r matches ProxyLookup::Found { host, port } && host@ == m.machine && port == m.port
            } else {
                r is Offline
            }
        },
{
    match table.get(node_id) {
        Some(n) => {
            proof {
                let j = choose|j: int| 0 <= j < table@.len() && table@[j] == n@;
                assert forall|i: int| 0 <= i < table@.len() && table@[i].id == node_id@ implies table@[i]
                    == n@ by {
                    if i != j {
                        assert(table@[i].id != table@[j].id);
                    }
                }
            }
            if n.status == NodeStatus::Active {
                ProxyLookup::Found { host: n.machine.clone(), port: n.port }
            } else {
                ProxyLookup::Offline
            }
        },
        None => ProxyLookup::NotFound,
    }
}

/// The error frame that a failed lookup sends before the stream closes.
pub fn proxy_error_json(lookup: &ProxyLookup) -> (r: Option<String>)
    ensures
        lookup is Offline ==> (r matches Some(s) && s@ == "{\"error\":\"Agent is offline\"}"@),
        lookup is NotFound ==> (r matches Some(s) && s@ == "{\"error\":\"Agent not found\"}"@),
        lookup is Found ==> r is None,
{
    match lookup {
        ProxyLookup::Offline => Some("{\"error\":\"Agent is offline\"}".to_owned()),
        ProxyLookup::NotFound => Some("{\"error\":\"Agent not found\"}".to_owned()),
        ProxyLookup::Found { .. } => None,
    }
}

} // verus!
