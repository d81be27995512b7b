//! Node records, bus events and the node table.
use vstd::prelude::*;
use crate::janitor::{is_stale, node_is_stale, stale_ids};

verus! {

/// Whether an agent is currently connected.
#[derive(Debug, Clone, Copy, PartialEq, Eq, Structural)]
pub enum NodeStatus {
    Active,
    Offline,
}

/// The record that a registered agent advertises.
#[derive(Debug, Clone)]
pub struct NodeInfo {
    pub id: String,
    pub machine: String,
    pub cwd: String,
    pub port: u16,
    pub status: NodeStatus,
    /// Unix seconds at which the node went offline.
    pub offline_since: Option<i64>,
    /// Unix seconds of the latest liveness signal (register or heartbeat).
    pub last_seen: Option<i64>,
    /// Process id of the agent, informational.
    pub pid: Option<u32>,
}

/// A node record as plain mathematical values.
pub ghost struct NodeModel {
    pub id: Seq<char>,
    pub machine: Seq<char>,
    pub cwd: Seq<char>,
    pub port: u16,
    pub status: NodeStatus,
    pub offline_since: Option<i64>,
    pub last_seen: Option<i64>,
    pub pid: Option<u32>,
}

impl View for NodeInfo {
    type V = NodeModel;

    open spec fn view(&self) -> NodeModel {
        NodeModel {
            id: self.id@,
            machine: self.machine@,
            cwd: self.cwd@,
            port: self.port,
            status: self.status,
            offline_since: self.offline_since,
            last_seen: self.last_seen,
            pid: self.pid,
        }
    }
}

impl NodeInfo {
    /// A field-by-field copy.
    pub fn duplicate(&self) -> (r: NodeInfo)
        ensures
            r@ == self@,
    {
        NodeInfo {
            id: self.id.clone(),
            machine: self.machine.clone(),
            cwd: self.cwd.clone(),
            port: self.port,
            status: self.status,
            offline_since: self.offline_since,
            last_seen: self.last_seen,
            pid: self.pid,
        }
    }
}

/// An event published to every subscriber of the bus.
#[derive(Debug, Clone)]
pub enum Event {
    NodeJoined(NodeInfo),
    NodeOffline(String),
    NodeRemoved(String),
}

pub ghost enum EventModel {
    Joined(NodeModel),
    Offline(Seq<char>),
    Removed(Seq<char>),
}

impl View for Event {
    type V = EventModel;

    open spec fn view(&self) -> EventModel {
        match self {
            Event::NodeJoined(n) => EventModel::Joined(n@),
            Event::NodeOffline(id) => EventModel::Offline(id@),
            Event::NodeRemoved(id) => EventModel::Removed(id@),
        }
    }
}

/// The models of a list of events.
pub open spec fn events_view(v: Seq<Event>) -> Seq<EventModel> {
    v.map_values(|e: Event| e@)
}

/// The record as it stands after a successful register at time `now`.
pub open spec fn activated(n: NodeModel, now: i64) -> NodeModel {
    NodeModel { status: NodeStatus::Active, offline_since: None, last_seen: Some(now), ..n }
}

/// The record as it stands after its session ended at time `now`.
pub open spec fn went_offline(n: NodeModel, now: i64) -> NodeModel {
    NodeModel { status: NodeStatus::Offline, offline_since: Some(now), ..n }
}

/// The record after a heartbeat at time `now`.
pub open spec fn refreshed(n: NodeModel, now: i64) -> NodeModel {
    NodeModel { last_seen: Some(now), ..n }
}

/// `m` holds another id on the endpoint of `n`: registering `n` evicts it.
pub open spec fn evicted_by(m: NodeModel, n: NodeModel) -> bool {
    m.id != n.id && m.machine == n.machine && m.port == n.port
}

/// `m` stays in the table when `n` registers.
pub open spec fn kept_by(m: NodeModel, n: NodeModel) -> bool {
    m.id != n.id && !(m.machine == n.machine && m.port == n.port)
}

/// The ids that registering `n` evicts from `t`, in table order.
pub open spec fn evicted_ids(t: Seq<NodeModel>, n: NodeModel) -> Seq<Seq<char>> {
    t.filter_map(|m: NodeModel| if evicted_by(m, n) { Some(m.id) } else { None })
}

/// The table after registering `node` at time `now`: the entries on other
/// ids and other endpoints stay, in order, and the new record comes last.
pub open spec fn registered(t: Seq<NodeModel>, node: NodeModel, now: i64) -> Seq<NodeModel> {
    t.filter(|m: NodeModel| kept_by(m, activated(node, now))).push(activated(node, now))
}

/// One removal event for each id.
pub open spec fn removals(ids: Seq<Seq<char>>) -> Seq<EventModel> {
    ids.map_values(|id: Seq<char>| EventModel::Removed(id))
}

/// The events that registering `node` at time `now` publishes, in order: one
/// removal for each evicted entry, then the join.
pub open spec fn register_events(t: Seq<NodeModel>, node: NodeModel, now: i64) -> Seq<EventModel> {
    removals(evicted_ids(t, activated(node, now))).push(EventModel::Joined(activated(node, now)))
}

/// No two entries share an id.
pub open spec fn unique_ids(t: Seq<NodeModel>) -> bool {
    forall|i: int, j: int| 0 <= i < t.len() && 0 <= j < t.len() && i != j ==> t[i].id != t[j].id
}

/// Some entry has id `id`.
pub open spec fn has_id(t: Seq<NodeModel>, id: Seq<char>) -> bool {
    exists|i: int| 0 <= i < t.len() && t[i].id == id
}

/// The models of a list of records.
pub open spec fn views(v: Seq<NodeInfo>) -> Seq<NodeModel> {
    v.map_values(|n: NodeInfo| n@)
}

/// Appending entry `i` of a table with unique ids to a list drawn from the
/// entries before it keeps the list's ids unique and drawn from the table.
proof fn lemma_kept_push_unique(t: Seq<NodeModel>, before: Seq<NodeInfo>, after: Seq<NodeInfo>, i: int)
    requires
        unique_ids(t),
        0 <= i < t.len(),
        after.len() == before.len() + 1,
        forall|k: int| 0 <= k < before.len() ==> after[k] == before[k],
        after[before.len() as int]@ == t[i],
        unique_ids(views(before)),
        forall|k: int| 0 <= k < before.len() ==> exists|j: int|
            0 <= j < i && t[j].id == (#[trigger] before[k])@.id,
    ensures
        unique_ids(views(after)),
        forall|k: int| 0 <= k < after.len() ==> exists|j: int|
            0 <= j < i + 1 && t[j].id == (#[trigger] after[k])@.id,
{
    assert forall|k: int| 0 <= k < after.len() implies exists|j: int|
        0 <= j < i + 1 && t[j].id == (#[trigger] after[k])@.id by {
        if k < before.len() {
            assert(after[k] == before[k]);
        } else {
            assert(t[i].id == after[k]@.id);
        }
    }
    assert forall|x: int, y: int|
        0 <= x < after.len() && 0 <= y < after.len() && x != y implies views(after)[x].id
        != views(after)[y].id by {
        if x < before.len() && y < before.len() {
            assert(views(before)[x] == views(after)[x]);
            assert(views(before)[y] == views(after)[y]);
        } else if x < before.len() {
            assert(after[x] == before[x]);
            let j = choose|j: int| 0 <= j < i && t[j].id == (#[trigger] before[x])@.id;
        } else if y < before.len() {
            assert(after[y] == before[y]);
            let j = choose|j: int| 0 <= j < i && t[j].id == (#[trigger] before[y])@.id;
        }
    }
}

/// The table of known nodes, keyed by id.
pub struct NodeTable {
    nodes: Vec<NodeInfo>,
}

impl View for NodeTable {
    type V = Seq<NodeModel>;

    closed spec fn view(&self) -> Seq<NodeModel> {
        views(self.nodes@)
    }
}

impl NodeTable {
    pub open spec fn wf(&self) -> bool {
        unique_ids(self@)
    }

    pub fn new() -> (r: NodeTable)
        ensures
            r.wf(),
            r@ == Seq::<NodeModel>::empty(),
    {
        let r = NodeTable { nodes: Vec::new() };
        assert(r@ =~= Seq::<NodeModel>::empty());
        r
    }

    pub fn len(&self) -> (r: usize)
        ensures
            r == self@.len(),
    {
        self.nodes.len()
    }

    pub fn is_empty(&self) -> (r: bool)
        ensures
            r == (self@.len() == 0),
    {
        self.nodes.len() == 0
    }

    /// The entry at position `i`.
    pub fn at(&self, i: usize) -> (r: &NodeInfo)
        requires
            i < self@.len(),
        ensures
            r@ == self@[i as int],
    {
        &self.nodes[i]
    }

    /// The position of the entry with id `id`.
    pub fn position(&self, id: &str) -> (r: Option<usize>)
        requires
            self.wf(),
        ensures
            r matches Some(i) ==> i < self@.len() && self@[i as int].id == id@,
            r is None ==> !has_id(self@, id@),
    {
        let key = id.to_owned();
        let mut i: usize = 0;
        while i < self.nodes.len()
            invariant
                i <= self.nodes.len(),
                key@ == id@,
                self@.len() == self.nodes@.len(),
                forall|j: int| 0 <= j < i ==> self@[j].id != id@,
            decreases self.nodes.len() - i,
        {
            if self.nodes[i].id == key {
                return Some(i);
            }
            i = i + 1;
        }
        None
    }

    /// The entry with id `id`.
    pub fn get(&self, id: &str) -> (r: Option<&NodeInfo>)
        requires
            self.wf(),
        ensures
            r matches Some(n) ==> n@.id == id@ && self@.contains(n@),
            r is None ==> !has_id(self@, id@),
    {
        match self.position(id) {
            Some(i) => Some(&self.nodes[i]),
            None => None,
        }
    }

    pub fn contains_key(&self, id: &str) -> (r: bool)
        requires
            self.wf(),
        ensures
            r == has_id(self@, id@),
    {
        self.position(id).is_some()
    }

    /// Copies of all entries, in table order.
    pub fn values(&self) -> (r: Vec<NodeInfo>)
        ensures
            views(r@) == self@,
    {
        let mut r: Vec<NodeInfo> = Vec::new();
        let mut i: usize = 0;
        while i < self.nodes.len()
            invariant
                i <= self.nodes.len(),
                self@.len() == self.nodes@.len(),
                r.len() == i,
                forall|j: int| 0 <= j < i ==> r@[j]@ == self@[j],
            decreases self.nodes.len() - i,
        {
            r.push(self.nodes[i].duplicate());
            i = i + 1;
        }
        assert(views(r@) =~= self@);
        r
    }

    /// Inserts `node`, replacing the entry with the same id in place.
    pub fn insert(&mut self, node: NodeInfo)
        requires
            old(self).wf(),
        ensures
            final(self).wf(),
            forall|i: int| 0 <= i < old(self)@.len() && old(self)@[i].id == node@.id
                ==> final(self)@ == old(self)@.update(i, node@),
            !has_id(old(self)@, node@.id) ==> final(self)@ == old(self)@.push(node@),
    {
        match self.position(node.id.as_str()) {
            Some(i) => {
                self.nodes.set(i, node);
                assert(self@ =~= old(self)@.update(i as int, node@));
            },
            None => {
                self.nodes.push(node);
                assert(self@ =~= old(self)@.push(node@));
            },
        }
    }

    /// Removes the entry with id `id`, returning it.
    pub fn remove(&mut self, id: &str) -> (r: Option<NodeInfo>)
        requires
            old(self).wf(),
        ensures
            final(self).wf(),
            r is None ==> !has_id(old(self)@, id@) && final(self)@ == old(self)@,
            r matches Some(n) ==> n@.id == id@ && exists|i: int|
                0 <= i < old(self)@.len() && old(self)@[i] == n@ && final(self)@ == old(self)@.remove(i),
    {
        match self.position(id) {
            Some(i) => {
                let n = self.nodes.remove(i);
                assert(self@ =~= old(self)@.remove(i as int));
                Some(n)
            },
            None => None,
        }
    }
}

impl NodeTable {
    /// Registers `node` at time `now`: the record becomes active with
    /// `last_seen == now`, every entry on the same endpoint under another id
    /// is evicted, and the record replaces any entry with its id. Returns
    /// the events to publish, in order.
    pub fn register(&mut self, node: NodeInfo, now: i64) -> (events: Vec<Event>)
        requires
            old(self).wf(),
        ensures
            final(self).wf(),
            final(self)@ == registered(old(self)@, node@, now),
            events_view(events@) == register_events(old(self)@, node@, now),
    {
        let mut n = node;
        n.status = NodeStatus::Active;
        n.offline_since = None;
        n.last_seen = Some(now);
        let ghost t = self@;
        let ghost a = activated(node@, now);
        assert(n@ == a);
        let mut kept: Vec<NodeInfo> = Vec::new();
        let mut events: Vec<Event> = Vec::new();
        let mut i: usize = 0;
        while i < self.nodes.len()
            invariant
                i <= self.nodes.len(),
                self@ == t,
                t.len() == self.nodes@.len(),
                unique_ids(t),
                n@ == a,
                views(kept@) == t.subrange(0, i as int).filter(|m: NodeModel| kept_by(m, a)),
                events_view(events@) == removals(evicted_ids(t.subrange(0, i as int), a)),
                unique_ids(views(kept@)),
                forall|k: int| 0 <= k < kept.len() ==> #[trigger] kept@[k]@.id != a.id,
                forall|k: int| 0 <= k < kept.len() ==> exists|j: int|
                    0 <= j < i && t[j].id == (#[trigger] kept@[k])@.id,
            decreases self.nodes.len() - i,
        {
            let ghost before = kept@;
            let ghost before_ev = events@;
            let m = &self.nodes[i];
            assert(m@ == t[i as int]);
            let same_id = m.id == n.id;
            let same_end = m.machine == n.machine && m.port == n.port;
            if !same_id && !same_end {
                kept.push(m.duplicate());
                proof {
                    lemma_kept_push_unique(t, before, kept@, i as int);
                }
            } else if !same_id {
                events.push(Event::NodeRemoved(m.id.clone()));
            }
            proof {
                let p = |m: NodeModel| kept_by(m, a);
                let s1 = t.subrange(0, i + 1);
                let s0 = t.subrange(0, i as int);
                assert(s1.drop_last() =~= s0);
                assert(s1.last() == t[i as int]);
                reveal(Seq::filter);
                assert(views(kept@) =~= s1.filter(p));
                if evicted_by(t[i as int], a) {
                    assert(evicted_ids(s1, a) =~= evicted_ids(s0, a) + seq![t[i as int].id]);
                    assert(events@ =~= before_ev.push(Event::NodeRemoved(m.id)));
                    assert(events_view(events@) =~= events_view(before_ev).push(
                        EventModel::Removed(t[i as int].id),
                    ));
                    assert(removals(evicted_ids(s1, a)) =~= removals(evicted_ids(s0, a)).push(
                        EventModel::Removed(t[i as int].id),
                    ));
                } else {
                    assert(evicted_ids(s1, a) =~= evicted_ids(s0, a));
                    assert(events@ =~= before_ev);
                }
                assert(events_view(events@) =~= removals(evicted_ids(s1, a)));
            }
            i = i + 1;
        }
        assert(t.subrange(0, t.len() as int) =~= t);
        let joined = n.duplicate();
        let ghost before = kept@;
        kept.push(n);
        events.push(Event::NodeJoined(joined));
        assert forall|x: int, y: int|
            0 <= x < kept.len() && 0 <= y < kept.len() && x != y implies views(kept@)[x].id
            != views(kept@)[y].id by {
            if x < before.len() && y < before.len() {
                assert(views(before)[x] == views(kept@)[x]);
                assert(views(before)[y] == views(kept@)[y]);
            } else if x < before.len() {
                assert(kept@[x] == before[x]);
            } else if y < before.len() {
                assert(kept@[y] == before[y]);
            }
        }
        self.nodes = kept;
        assert(self@ =~= registered(t, node@, now));
        assert(events_view(events@) =~= register_events(t, node@, now));
        events
    }
}

/// Two predicates that agree on every element of `s` filter it alike.
pub proof fn lemma_filter_agree(s: Seq<NodeModel>, p: spec_fn(NodeModel) -> bool, q: spec_fn(NodeModel) -> bool)
    requires
        forall|i: int| 0 <= i < s.len() ==> p(#[trigger] s[i]) == q(s[i]),
    ensures
        s.filter(p) == s.filter(q),
    decreases s.len(),
{
    reveal(Seq::filter);
    if s.len() > 0 {
        lemma_filter_agree(s.drop_last(), p, q);
        assert(s.last() == s[s.len() - 1]);
    }
}

/// Two partial maps that agree on every element of `s` give the same result.
pub proof fn lemma_filter_map_agree(
    s: Seq<NodeModel>,
    f: spec_fn(NodeModel) -> Option<Seq<char>>,
    g: spec_fn(NodeModel) -> Option<Seq<char>>,
)
    requires
        forall|i: int| 0 <= i < s.len() ==> f(#[trigger] s[i]) == g(s[i]),
    ensures
        s.filter_map(f) == s.filter_map(g),
    decreases s.len(),
{
    if s.len() > 0 {
        lemma_filter_map_agree(s.drop_last(), f, g);
        assert(s.last() == s[s.len() - 1]);
    }
}

/// The models of a list of ids.
pub open spec fn id_views(v: Seq<String>) -> Seq<Seq<char>> {
    v.map_values(|s: String| s@)
}

/// `m` is among `ids` and stale at `now`: the write phase of a sweep removes it.
pub open spec fn doomed(m: NodeModel, ids: Seq<Seq<char>>, now: i64, ttl: u64) -> bool {
    ids.contains(m.id) && is_stale(m, now, ttl)
}

fn contains_id(ids: &Vec<String>, id: &String) -> (r: bool)
    ensures
        r == id_views(ids@).contains(id@),
{
    let mut i: usize = 0;
    while i < ids.len()
        invariant
            i <= ids.len(),
            forall|j: int| 0 <= j < i ==> ids@[j]@ != id@,
        decreases ids.len() - i,
    {
        if ids[i] == *id {
            assert(id_views(ids@)[i as int] == id@);
            return true;
        }
        i = i + 1;
    }
    assert forall|j: int| 0 <= j < id_views(ids@).len() implies id_views(ids@)[j] != id@ by {
        assert(id_views(ids@)[j] == ids@[j]@);
    }
    false
}

impl NodeTable {
    /// Marks the entry with id `id` offline since `now`; false when there is none.
    pub fn mark_offline(&mut self, id: &str, now: i64) -> (found: bool)
        requires
            old(self).wf(),
        ensures
            final(self).wf(),
            found == has_id(old(self)@, id@),
            !found ==> final(self)@ == old(self)@,
            forall|i: int| 0 <= i < old(self)@.len() && old(self)@[i].id == id@
                ==> final(self)@ == old(self)@.update(i, went_offline(old(self)@[i], now)),
    {
        match self.position(id) {
            Some(i) => {
                let mut e = self.nodes[i].duplicate();
                e.status = NodeStatus::Offline;
                e.offline_since = Some(now);
                self.nodes.set(i, e);
                assert(self@ =~= old(self)@.update(i as int, went_offline(old(self)@[i as int], now)));
                true
            },
            None => false,
        }
    }

    /// Records a heartbeat at `now` for the entry with id `id`, if any.
    pub fn touch(&mut self, id: &str, now: i64) -> (found: bool)
        requires
            old(self).wf(),
        ensures
            final(self).wf(),
            found == has_id(old(self)@, id@),
            !found ==> final(self)@ == old(self)@,
            forall|i: int| 0 <= i < old(self)@.len() && old(self)@[i].id == id@
                ==> final(self)@ == old(self)@.update(i, refreshed(old(self)@[i], now)),
    {
        match self.position(id) {
            Some(i) => {
                let mut e = self.nodes[i].duplicate();
                e.last_seen = Some(now);
                self.nodes.set(i, e);
                assert(self@ =~= old(self)@.update(i as int, refreshed(old(self)@[i as int], now)));
                true
            },
            None => false,
        }
    }

    /// The ids of the entries that are stale at `now`, in table order.
    pub fn stale_candidates(&self, now: i64, ttl: u64) -> (r: Vec<String>)
        ensures
            id_views(r@) == stale_ids(self@, now, ttl),
    {
        let ghost t = self@;
        let mut r: Vec<String> = Vec::new();
        let mut i: usize = 0;
        while i < self.nodes.len()
            invariant
                i <= self.nodes.len(),
                t == self@,
                t.len() == self.nodes@.len(),
                id_views(r@) == stale_ids(t.subrange(0, i as int), now, ttl),
            decreases self.nodes.len() - i,
        {
            let ghost before = r@;
            let m = &self.nodes[i];
            assert(m@ == t[i as int]);
            if node_is_stale(m, now, ttl) {
                r.push(m.id.clone());
            }
            proof {
                let s1 = t.subrange(0, i + 1);
                let s0 = t.subrange(0, i as int);
                assert(s1.drop_last() =~= s0);
                assert(s1.last() == t[i as int]);
                if is_stale(t[i as int], now, ttl) {
                    assert(stale_ids(s1, now, ttl) =~= stale_ids(s0, now, ttl) + seq![t[i as int].id]);
                    assert(id_views(r@) =~= id_views(before).push(t[i as int].id));
                } else {
                    assert(stale_ids(s1, now, ttl) =~= stale_ids(s0, now, ttl));
                    assert(r@ =~= before);
                }
            }
            i = i + 1;
        }
        assert(t.subrange(0, t.len() as int) =~= t);
        r
    }

    /// Removes each entry whose id is among `ids` and that is still stale at
    /// `now`; returns one removal event for each, in table order.
    pub fn remove_stale(&mut self, ids: &Vec<String>, now: i64, ttl: u64) -> (events: Vec<Event>)
        requires
            old(self).wf(),
        ensures
            final(self).wf(),
            final(self)@ == old(self)@.filter(|m: NodeModel| !doomed(m, id_views(ids@), now, ttl)),
            events_view(events@) == removals(
                old(self)@.filter_map(
                    |m: NodeModel| if doomed(m, id_views(ids@), now, ttl) { Some(m.id) } else { None },
                ),
            ),
    {
        let ghost t = self@;
        let ghost c = id_views(ids@);
        let ghost p = |m: NodeModel| !doomed(m, c, now, ttl);
        let ghost f = |m: NodeModel| if doomed(m, c, now, ttl) { Some(m.id) } else { None };
        let mut kept: Vec<NodeInfo> = Vec::new();
        let mut events: Vec<Event> = Vec::new();
        let mut i: usize = 0;
        while i < self.nodes.len()
            invariant
                i <= self.nodes.len(),
                self@ == t,
                t.len() == self.nodes@.len(),
                unique_ids(t),
                c == id_views(ids@),
                p == (|m: NodeModel| !doomed(m, c, now, ttl)),
                f == (|m: NodeModel| if doomed(m, c, now, ttl) { Some(m.id) } else { None }),
                views(kept@) == t.subrange(0, i as int).filter(p),
                events_view(events@) == removals(t.subrange(0, i as int).filter_map(f)),
                unique_ids(views(kept@)),
                forall|k: int| 0 <= k < kept.len() ==> exists|j: int|
                    0 <= j < i && t[j].id == (#[trigger] kept@[k])@.id,
            decreases self.nodes.len() - i,
        {
            let ghost before = kept@;
            let ghost before_ev = events@;
            let m = &self.nodes[i];
            assert(m@ == t[i as int]);
            let gone = contains_id(ids, &m.id) && node_is_stale(m, now, ttl);
            if !gone {
                kept.push(m.duplicate());
                proof {
                    lemma_kept_push_unique(t, before, kept@, i as int);
                }
            } else {
                events.push(Event::NodeRemoved(m.id.clone()));
            }
            proof {
                let s1 = t.subrange(0, i + 1);
                let s0 = t.subrange(0, i as int);
                assert(s1.drop_last() =~= s0);
                assert(s1.last() == t[i as int]);
                reveal(Seq::filter);
                assert(views(kept@) =~= s1.filter(p));
                if doomed(t[i as int], c, now, ttl) {
                    assert(s1.filter_map(f) =~= s0.filter_map(f) + seq![t[i as int].id]);
                    assert(events@ =~= before_ev.push(Event::NodeRemoved(m.id)));
                    assert(events_view(events@) =~= events_view(before_ev).push(
                        EventModel::Removed(t[i as int].id),
                    ));
                    assert(removals(s1.filter_map(f)) =~= removals(s0.filter_map(f)).push(
                        EventModel::Removed(t[i as int].id),
                    ));
                } else {
                    assert(s1.filter_map(f) =~= s0.filter_map(f));
                    assert(events@ =~= before_ev);
                }
                assert(events_view(events@) =~= removals(s1.filter_map(f)));
            }
            i = i + 1;
        }
        assert(t.subrange(0, t.len() as int) =~= t);
        self.nodes = kept;
        assert(self@ == views(kept@));
        events
    }
}

} // verus!
