//! The periodic sweep that removes stale entries from the node table.
use vstd::prelude::*;
use crate::node::{
    NodeInfo, NodeModel, NodeStatus, NodeTable, Event, doomed, events_view, id_views,
    lemma_filter_agree, lemma_filter_map_agree, removals,
};

verus! {

/// An offline entry is stale once it has been offline for more than `ttl`
/// seconds; an active one once its latest heartbeat is more than `3 * ttl`
/// seconds old. An active entry that was never seen is never stale.
pub open spec fn is_stale(m: NodeModel, now: i64, ttl: u64) -> bool {
    match m.status {
        NodeStatus::Offline => match m.offline_since {
            Some(since) => now - since > ttl,
            None => false,
        },
        NodeStatus::Active => match m.last_seen {
            Some(seen) => now - seen > 3 * ttl,
            None => false,
        },
    }
}

/// The ids of the stale entries of `t`, in table order.
pub open spec fn stale_ids(t: Seq<NodeModel>, now: i64, ttl: u64) -> Seq<Seq<char>> {
    t.filter_map(|m: NodeModel| if is_stale(m, now, ttl) { Some(m.id) } else { None })
}

/// The table after a sweep at time `now`.
pub open spec fn swept(t: Seq<NodeModel>, now: i64, ttl: u64) -> Seq<NodeModel> {
    t.filter(|m: NodeModel| !is_stale(m, now, ttl))
}

pub fn node_is_stale(n: &NodeInfo, now: i64, ttl: u64) -> (r: bool)
    ensures
        r == is_stale(n@, now, ttl),
{
    match n.status {
        NodeStatus::Offline => match n.offline_since {
            Some(since) => (now as i128) - (since as i128) > (ttl as i128),
            None => false,
        },
        NodeStatus::Active => match n.last_seen {
            Some(seen) => (now as i128) - (seen as i128) > 3 * (ttl as i128),
            None => false,
        },
    }
}

/// Removes the stale entries at time `now` and returns one removal event
/// for each, in table order. Candidates are first collected, then each is
/// checked again against the entry as it stands when it is removed.
pub fn cleanup_stale_nodes(table: &mut NodeTable, now: i64, ttl: u64) -> (events: Vec<Event>)
    requires
        old(table).wf(),
    ensures
        final(table).wf(),
        final(table)@ == swept(old(table)@, now, ttl),
        events_view(events@) == removals(stale_ids(old(table)@, now, ttl)),
{
    let ghost t = table@;
    let candidates = table.stale_candidates(now, ttl);
    let events = table.remove_stale(&candidates, now, ttl);
    proof {
        let c = id_views(candidates@);
        assert forall|i: int| 0 <= i < t.len() implies doomed(#[trigger] t[i], c, now, ttl) == is_stale(
            t[i],
            now,
            ttl,
        ) by {
            if is_stale(t[i], now, ttl) {
                lemma_stale_ids_contains(t, i, now, ttl);
            }
        }
        lemma_filter_agree(
            t,
            |m: NodeModel| !doomed(m, c, now, ttl),
            |m: NodeModel| !is_stale(m, now, ttl),
        );
        lemma_filter_map_agree(
            t,
            |m: NodeModel| if doomed(m, c, now, ttl) { Some(m.id) } else { None },
            |m: NodeModel| if is_stale(m, now, ttl) { Some(m.id) } else { None },
        );
    }
    events
}

/// Every stale entry's id is among the candidates.
proof fn lemma_stale_ids_contains(t: Seq<NodeModel>, i: int, now: i64, ttl: u64)
    requires
        0 <= i < t.len(),
        is_stale(t[i], now, ttl),
    ensures
        stale_ids(t, now, ttl).contains(t[i].id),
    decreases t.len(),
{
    let f = |m: NodeModel| if is_stale(m, now, ttl) { Some(m.id) } else { None };
    let last = t.len() - 1;
    assert(t.last() == t[last]);
    if i == last {
        assert(stale_ids(t, now, ttl) == t.drop_last().filter_map(f) + seq![t[i].id]);
        assert(stale_ids(t, now, ttl)[stale_ids(t, now, ttl).len() - 1] == t[i].id);
    } else {
        assert(t.drop_last()[i] == t[i]);
        lemma_stale_ids_contains(t.drop_last(), i, now, ttl);
        let k = choose|k: int| 0 <= k < stale_ids(t.drop_last(), now, ttl).len()
            && stale_ids(t.drop_last(), now, ttl)[k] == t[i].id;
        if is_stale(t[last], now, ttl) {
            assert(stale_ids(t, now, ttl) == stale_ids(t.drop_last(), now, ttl) + seq![t[last].id]);
            assert(stale_ids(t, now, ttl)[k] == t[i].id);
        } else {
            assert(stale_ids(t, now, ttl) == stale_ids(t.drop_last(), now, ttl));
        }
    }
}

} // verus!
