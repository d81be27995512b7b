//! Properties of the node table that relate several operations.
use vstd::prelude::*;
use crate::janitor::{is_stale, swept};
use crate::node::{
    EventModel, NodeModel, NodeStatus, activated, lemma_filter_agree, evicted_by, evicted_ids, has_id, kept_by,
    refreshed, register_events, registered, removals, went_offline,
};

verus! {

proof fn lemma_filter_push_rejected(s: Seq<NodeModel>, x: NodeModel, p: spec_fn(NodeModel) -> bool)
    requires
        !p(x),
    ensures
        s.push(x).filter(p) == s.filter(p),
{
    reveal(Seq::filter);
    assert(s.push(x).drop_last() =~= s);
}

proof fn lemma_filter_twice(s: Seq<NodeModel>, p: spec_fn(NodeModel) -> bool, q: spec_fn(NodeModel) -> bool)
    requires
        forall|m: NodeModel| #[trigger] p(m) ==> q(m),
    ensures
        s.filter(p).filter(q) == s.filter(p),
    decreases s.len(),
{
    reveal(Seq::filter);
    if s.len() > 0 {
        lemma_filter_twice(s.drop_last(), p, q);
        if p(s.last()) {
            let f = s.drop_last().filter(p);
            assert(f.push(s.last()).drop_last() =~= f);
        }
    }
}

proof fn lemma_filter_origin(s: Seq<NodeModel>, p: spec_fn(NodeModel) -> bool, i: int)
    requires
        0 <= i < s.filter(p).len(),
    ensures
        exists|j: int| 0 <= j < s.len() && s[j] == s.filter(p)[i],
    decreases s.len(),
{
    reveal(Seq::filter);
    let d = s.drop_last();
    if p(s.last()) && i == s.filter(p).len() - 1 {
        assert(s[s.len() - 1] == s.filter(p)[i]);
    } else {
        assert(s.filter(p)[i] == d.filter(p)[i]);
        lemma_filter_origin(d, p, i);
        let j = choose|j: int| 0 <= j < d.len() && d[j] == d.filter(p)[i];
        assert(s[j] == d[j]);
    }
}

/// Registering the same record twice leaves the table as one registration
/// at the time of the second call leaves it.
pub proof fn lemma_register_idempotent(t: Seq<NodeModel>, node: NodeModel, first: i64, second: i64)
    ensures
        registered(registered(t, node, first), node, second) == registered(t, node, second),
{
    let a1 = activated(node, first);
    let a2 = activated(node, second);
    let p1 = |m: NodeModel| kept_by(m, a1);
    let p2 = |m: NodeModel| kept_by(m, a2);
    lemma_filter_push_rejected(t.filter(p1), a1, p2);
    lemma_filter_agree(t, p1, p2);
    lemma_filter_twice(t, p2, p2);
}

/// When `b` registers on the endpoint of an earlier registration `a` under
/// another id, the table afterwards holds `b` and no entry with `a`'s id,
/// and the events of `b`'s registration remove `a` before `b` joins.
pub proof fn lemma_register_evicts_same_endpoint(
    t: Seq<NodeModel>,
    a: NodeModel,
    b: NodeModel,
    first: i64,
    second: i64,
)
    requires
        a.machine == b.machine,
        a.port == b.port,
        a.id != b.id,
    ensures
        ({
            let t1 = registered(t, a, first);
            let t2 = registered(t1, b, second);
            let ev = register_events(t1, b, second);
            &&& t2.contains(activated(b, second))
            &&& !has_id(t2, a.id)
            &&& ev.last() == EventModel::Joined(activated(b, second))
            &&& exists|k: int| 0 <= k < ev.len() - 1 && ev[k] == EventModel::Removed(a.id)
        }),
{
    let aa = activated(a, first);
    let ab = activated(b, second);
    let t0 = t.filter(|m: NodeModel| kept_by(m, aa));
    let t1 = registered(t, a, first);
    let k = t1.filter(|m: NodeModel| kept_by(m, ab));
    let t2 = registered(t1, b, second);
    assert(t2.last() == ab);
    assert(t2[t2.len() - 1] == ab);
    assert forall|i: int| 0 <= i < t2.len() implies t2[i].id != a.id by {
        if i < k.len() {
            assert(t2[i] == k[i]);
            t1.lemma_filter_pred(|m: NodeModel| kept_by(m, ab), i);
            lemma_filter_origin(t1, |m: NodeModel| kept_by(m, ab), i);
            let j = choose|j: int| 0 <= j < t1.len() && t1[j] == k[i];
            assert(t1 == t0.push(aa));
            if j < t0.len() {
                assert(t1[j] == t0[j]);
                t.lemma_filter_pred(|m: NodeModel| kept_by(m, aa), j);
            }
        }
    }
    let f = |m: NodeModel| if evicted_by(m, ab) { Some(m.id) } else { None };
    assert(t1.drop_last() =~= t0);
    assert(t1.last() == aa);
    assert(evicted_ids(t1, ab) == t0.filter_map(f) + seq![a.id]);
    let ids = evicted_ids(t1, ab);
    let ev = register_events(t1, b, second);
    assert(ev[ids.len() - 1] == removals(ids)[ids.len() - 1]);
    assert(ev[ids.len() - 1] == EventModel::Removed(a.id));
}

/// A sweep keeps every offline entry that went offline no more than `ttl`
/// seconds before it.
pub proof fn lemma_sweep_keeps_recent_offline(t: Seq<NodeModel>, i: int, now: i64, ttl: u64)
    requires
        0 <= i < t.len(),
        t[i].status == NodeStatus::Offline,
        t[i].offline_since matches Some(since) && now - since <= ttl,
    ensures
        swept(t, now, ttl).contains(t[i]),
{
    t.lemma_filter_contains(|m: NodeModel| !is_stale(m, now, ttl), i);
}

/// A sweep keeps every active entry that has never been seen.
pub proof fn lemma_sweep_keeps_unseen_active(t: Seq<NodeModel>, i: int, now: i64, ttl: u64)
    requires
        0 <= i < t.len(),
        t[i].status == NodeStatus::Active,
        t[i].last_seen is None,
    ensures
        swept(t, now, ttl).contains(t[i]),
{
    t.lemma_filter_contains(|m: NodeModel| !is_stale(m, now, ttl), i);
}

/// No two active entries share a machine and port.
pub open spec fn endpoints_distinct(t: Seq<NodeModel>) -> bool {
    forall|i: int, j: int|
        0 <= i < t.len() && 0 <= j < t.len() && i != j && t[i].status == NodeStatus::Active
            && t[j].status == NodeStatus::Active ==> !(t[i].machine == t[j].machine && t[i].port
            == t[j].port)
}

proof fn lemma_filter_keeps_endpoints_distinct(t: Seq<NodeModel>, p: spec_fn(NodeModel) -> bool)
    requires
        endpoints_distinct(t),
    ensures
        endpoints_distinct(t.filter(p)),
    decreases t.len(),
{
    reveal(Seq::filter);
    if t.len() > 0 {
        let d = t.drop_last();
        assert(endpoints_distinct(d)) by {
            assert forall|i: int, j: int|
                0 <= i < d.len() && 0 <= j < d.len() && i != j && d[i].status == NodeStatus::Active
                    && d[j].status == NodeStatus::Active implies !(d[i].machine == d[j].machine
                    && d[i].port == d[j].port) by {
                assert(d[i] == t[i] && d[j] == t[j]);
            }
        }
        lemma_filter_keeps_endpoints_distinct(d, p);
        if p(t.last()) {
            let f = d.filter(p);
            let g = t.filter(p);
            assert(g == f.push(t.last()));
            assert forall|i: int, j: int|
                0 <= i < g.len() && 0 <= j < g.len() && i != j && g[i].status == NodeStatus::Active
                    && g[j].status == NodeStatus::Active implies !(g[i].machine == g[j].machine
                    && g[i].port == g[j].port) by {
                if i < f.len() && j < f.len() {
                    assert(g[i] == f[i] && g[j] == f[j]);
                } else if i < f.len() {
                    lemma_filter_origin(d, p, i);
                    let a = choose|a: int| 0 <= a < d.len() && d[a] == f[i];
                    assert(t[a] == g[i] && t[t.len() - 1] == g[j]);
                } else {
                    lemma_filter_origin(d, p, j);
                    let a = choose|a: int| 0 <= a < d.len() && d[a] == f[j];
                    assert(t[a] == g[j] && t[t.len() - 1] == g[i]);
                }
            }
        }
    }
}

/// Registering keeps active entries on distinct endpoints: the new record
/// evicts every other entry on its endpoint.
pub proof fn lemma_register_keeps_endpoints_distinct(t: Seq<NodeModel>, node: NodeModel, now: i64)
    requires
        endpoints_distinct(t),
    ensures
        endpoints_distinct(registered(t, node, now)),
{
    let a = activated(node, now);
    let p = |m: NodeModel| kept_by(m, a);
    let k = t.filter(p);
    let r = registered(t, node, now);
    lemma_filter_keeps_endpoints_distinct(t, p);
    assert forall|i: int, j: int|
        0 <= i < r.len() && 0 <= j < r.len() && i != j && r[i].status == NodeStatus::Active
            && r[j].status == NodeStatus::Active implies !(r[i].machine == r[j].machine && r[i].port
            == r[j].port) by {
        if i < k.len() && j < k.len() {
            assert(r[i] == k[i] && r[j] == k[j]);
        } else if i < k.len() {
            t.lemma_filter_pred(p, i);
            assert(r[i] == k[i]);
        } else {
            t.lemma_filter_pred(p, j);
            assert(r[j] == k[j]);
        }
    }
}

/// A record's status agrees with its offline time: active records have
/// none, offline records have one.
pub open spec fn record_consistent(m: NodeModel) -> bool {
    (m.status == NodeStatus::Active) == (m.offline_since is None)
}

/// The invariants of the table: every record is consistent, and no two
/// active entries share an endpoint.
pub open spec fn table_consistent(t: Seq<NodeModel>) -> bool {
    &&& forall|i: int| 0 <= i < t.len() ==> record_consistent(#[trigger] t[i])
    &&& endpoints_distinct(t)
}

/// Filtering the table (a sweep, the write phase of a sweep) keeps its invariants.
pub proof fn lemma_filter_keeps_consistent(t: Seq<NodeModel>, p: spec_fn(NodeModel) -> bool)
    requires
        table_consistent(t),
    ensures
        table_consistent(t.filter(p)),
{
    lemma_filter_keeps_endpoints_distinct(t, p);
    assert forall|i: int| 0 <= i < t.filter(p).len() implies record_consistent(
        #[trigger] t.filter(p)[i],
    ) by {
        lemma_filter_origin(t, p, i);
    }
}

/// A sweep keeps the table's invariants.
pub proof fn lemma_sweep_keeps_consistent(t: Seq<NodeModel>, now: i64, ttl: u64)
    requires
        table_consistent(t),
    ensures
        table_consistent(swept(t, now, ttl)),
{
    lemma_filter_keeps_consistent(t, |m: NodeModel| !is_stale(m, now, ttl));
}

/// Registering keeps the table's invariants.
pub proof fn lemma_register_keeps_consistent(t: Seq<NodeModel>, node: NodeModel, now: i64)
    requires
        table_consistent(t),
    ensures
        table_consistent(registered(t, node, now)),
{
    let p = |m: NodeModel| kept_by(m, activated(node, now));
    lemma_register_keeps_endpoints_distinct(t, node, now);
    lemma_filter_keeps_consistent(t, p);
    let k = t.filter(p);
    let r = registered(t, node, now);
    assert forall|i: int| 0 <= i < r.len() implies record_consistent(#[trigger] r[i]) by {
        if i < k.len() {
            assert(r[i] == k[i]);
        }
    }
}

/// Marking entry `i` offline keeps the table's invariants.
pub proof fn lemma_offline_keeps_consistent(t: Seq<NodeModel>, i: int, now: i64)
    requires
        table_consistent(t),
        0 <= i < t.len(),
    ensures
        table_consistent(t.update(i, went_offline(t[i], now))),
{
    let r = t.update(i, went_offline(t[i], now));
    assert forall|a: int| 0 <= a < r.len() implies record_consistent(#[trigger] r[a]) by {
        if a != i {
            assert(r[a] == t[a]);
        }
    }
    assert forall|a: int, b: int|
        0 <= a < r.len() && 0 <= b < r.len() && a != b && r[a].status == NodeStatus::Active
            && r[b].status == NodeStatus::Active implies !(r[a].machine == r[b].machine && r[a].port
            == r[b].port) by {
        assert(r[a] == t[a] && r[b] == t[b]);
    }
}

/// A heartbeat keeps the table's invariants.
pub proof fn lemma_heartbeat_keeps_consistent(t: Seq<NodeModel>, i: int, now: i64)
    requires
        table_consistent(t),
        0 <= i < t.len(),
    ensures
        table_consistent(t.update(i, refreshed(t[i], now))),
{
    let r = t.update(i, refreshed(t[i], now));
    assert forall|a: int| 0 <= a < r.len() implies record_consistent(#[trigger] r[a]) by {
        if a != i {
            assert(r[a] == t[a]);
        }
    }
    assert forall|a: int, b: int|
        0 <= a < r.len() && 0 <= b < r.len() && a != b && r[a].status == NodeStatus::Active
            && r[b].status == NodeStatus::Active implies !(r[a].machine == r[b].machine && r[a].port
            == r[b].port) by {
        if a != i && b != i {
            assert(r[a] == t[a] && r[b] == t[b]);
        } else if a == i {
            assert(r[b] == t[b]);
        } else {
            assert(r[a] == t[a]);
        }
    }
}

/// Removing entry `i` (a deregistration) keeps the table's invariants.
pub proof fn lemma_remove_keeps_consistent(t: Seq<NodeModel>, i: int)
    requires
        table_consistent(t),
        0 <= i < t.len(),
    ensures
        table_consistent(t.remove(i)),
{
    let r = t.remove(i);
    assert forall|a: int| 0 <= a < r.len() implies record_consistent(#[trigger] r[a]) by {
        if a < i {
            assert(r[a] == t[a]);
        } else {
            assert(r[a] == t[a + 1]);
        }
    }
    assert forall|a: int, b: int|
        0 <= a < r.len() && 0 <= b < r.len() && a != b && r[a].status == NodeStatus::Active
            && r[b].status == NodeStatus::Active implies !(r[a].machine == r[b].machine && r[a].port
            == r[b].port) by {
        let x = if a < i { a } else { a + 1 };
        let y = if b < i { b } else { b + 1 };
        assert(r[a] == t[x] && r[b] == t[y]);
    }
}

/// Inserting a consistent record as entry `i` or at the end keeps the
/// table's invariants, when an active record's endpoint is free of other
/// active entries.
pub proof fn lemma_insert_keeps_consistent(t: Seq<NodeModel>, n: NodeModel, i: int)
    requires
        table_consistent(t),
        record_consistent(n),
        0 <= i <= t.len(),
        i < t.len() ==> t[i].id == n.id,
        n.status == NodeStatus::Active ==> forall|j: int|
            0 <= j < t.len() && j != i && t[j].status == NodeStatus::Active ==> !(t[j].machine
                == n.machine && t[j].port == n.port),
    ensures
        table_consistent(if i < t.len() { t.update(i, n) } else { t.push(n) }),
{
    let r = if i < t.len() { t.update(i, n) } else { t.push(n) };
    assert forall|a: int| 0 <= a < r.len() implies record_consistent(#[trigger] r[a]) by {
        if a != i {
            assert(r[a] == t[a]);
        }
    }
    assert forall|a: int, b: int|
        0 <= a < r.len() && 0 <= b < r.len() && a != b && r[a].status == NodeStatus::Active
            && r[b].status == NodeStatus::Active implies !(r[a].machine == r[b].machine && r[a].port
            == r[b].port) by {
        if a != i && b != i {
            assert(r[a] == t[a] && r[b] == t[b]);
        } else if a == i {
            assert(r[b] == t[b]);
        } else {
            assert(r[a] == t[a]);
        }
    }
}

} // verus!
