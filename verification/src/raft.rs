//! Raft's log replication with a static leader: the leader appends its
//! pending operations and ships its whole log; followers adopt it; the
//! leader commits the highest index that a quorum holds.

use vstd::prelude::*;
use crate::collections::{copy_vec, KeyMap};
use crate::net::{env_of, Envelope, NodeId, StepCtx};

verus! {

/// Wire message.
#[derive(Clone, Debug)]
pub enum Msg {
    /// Leader to follower: append log entries.
    AppendEntries {
        /// Term.
        term: u32,
        /// Index of the log entry preceding the new ones.
        prev_index: u32,
        /// Term of the `prev_index` entry.
        prev_term: u32,
        /// New entries `(term, op)`.
        entries: Vec<(u32, u32)>,
        /// Latest commit index known to the leader.
        leader_commit: u32,
    },
    /// Follower to leader: success or failure response.
    Response {
        /// Term.
        term: u32,
        /// Match index after this `AppendEntries`.
        match_index: u32,
        /// Whether the follower accepted the entries.
        success: bool,
    },
}

/// Raft node (static-leader `AppendEntries` flow).
pub struct RaftNode {
    /// This node's identity.
    pub id: NodeId,
    /// All nodes, this one included.
    pub everyone: Vec<NodeId>,
    /// Whether this node is the static leader.
    pub is_leader: bool,
    /// Current term.
    pub current_term: u32,
    /// Log of `(term, op)`.
    pub log: Vec<(u32, u32)>,
    /// Commit index.
    pub commit_index: u32,
    /// Pending operations (leader only).
    pub pending: Vec<u32>,
    /// Per-follower match indices (the leader's view).
    pub match_index: KeyMap<NodeId, u32>,
    /// Whether the leader has started.
    pub started: bool,
}

/// How many of `vals` are at least `x`.
pub open spec fn count_at_least(vals: Seq<u32>, x: u32) -> nat {
    vals.filter(|v: u32| v >= x).len()
}

/// Whether `x` is the largest of `vals` that at least `q` of them reach:
/// the highest index replicated on a quorum of size `q`.
pub open spec fn is_quorum_index(vals: Seq<u32>, q: int, x: u32) -> bool {
    &&& vals.contains(x)
    &&& count_at_least(vals, x) >= q
    &&& forall|y: u32| vals.contains(y) && count_at_least(vals, y) >= q ==> y <= x
}

/// Whether `e` is an `AppendEntries` from `from` to `to` at `now` with
/// the given term, entries and commit index, starting from the empty
/// prefix.
pub open spec fn is_append(e: Envelope<Msg>, from: NodeId, to: NodeId, now: u64, term: u32, entries: Seq<(u32, u32)>, commit: u32) -> bool {
    &&& e.from == from
    &&& e.to == to
    &&& e.sent_at == now
    &&& e.msg matches Msg::AppendEntries { term: t, prev_index: pi, prev_term: pt, entries: es, leader_commit: lc }
        && t == term && pi == 0 && pt == 0 && es@ == entries && lc == commit
}

/// `everyone` without `id`.
pub open spec fn others(everyone: Seq<NodeId>, id: NodeId) -> Seq<NodeId> {
    everyone.filter(|p: NodeId| p != id)
}

/// The nodes of `everyone` other than `id`, in order.
pub fn others_of(everyone: &Vec<NodeId>, id: NodeId) -> (r: Vec<NodeId>)
    ensures
        r@ == others(everyone@, id),
{
    let mut r: Vec<NodeId> = Vec::new();
    let mut i: usize = 0;
    while i < everyone.len()
        invariant
            i <= everyone@.len(),
            r@ == others(everyone@.take(i as int), id),
        decreases everyone@.len() - i,
    {
        proof {
            reveal(Seq::filter);
            assert(everyone@.take(i + 1).drop_last() =~= everyone@.take(i as int));
        }
        if everyone[i].0 != id.0 {
            r.push(everyone[i]);
        }
        i = i + 1;
    }
    assert(everyone@.take(i as int) =~= everyone@);
    r
}

proof fn lemma_count_at_least_push(vals: Seq<u32>, v: u32, x: u32)
    ensures
        count_at_least(vals.push(v), x) == count_at_least(vals, x) + if v >= x { 1nat } else { 0nat },
{
    reveal(Seq::filter);
    assert(vals.push(v).drop_last() =~= vals);
}

/// The highest value of `vals` that at least `q` of them reach.
fn quorum_index(vals: &Vec<u32>, q: usize) -> (x: u32)
    requires
        1 <= q <= vals@.len(),
    ensures
        is_quorum_index(vals@, q as int, x),
{
    let mut best: u32 = 0;
    let mut found = false;
    let mut i: usize = 0;
    while i < vals.len()
        invariant
            i <= vals@.len(),
            found ==> vals@.contains(best) && count_at_least(vals@, best) >= q,
            forall|k: int| 0 <= k < i && count_at_least(vals@, #[trigger] vals@[k]) >= q ==> found && vals@[k] <= best,
        decreases vals@.len() - i,
    {
        let cand = vals[i];
        let mut c: usize = 0;
        let mut j: usize = 0;
        while j < vals.len()
            invariant
                j <= vals@.len(),
                c == count_at_least(vals@.take(j as int), cand),
                c <= j,
            decreases vals@.len() - j,
        {
            proof {
                assert(vals@.take(j + 1) =~= vals@.take(j as int).push(vals@[j as int]));
                lemma_count_at_least_push(vals@.take(j as int), vals@[j as int], cand);
            }
            if vals[j] >= cand {
                c = c + 1;
            }
            j = j + 1;
        }
        assert(vals@.take(j as int) =~= vals@);
        if c >= q && (!found || cand > best) {
            best = cand;
            found = true;
        }
        i = i + 1;
    }
    proof {
        let s = vals@;
        assert(s.len() >= q);
        // The value at rank len - q of the sorted values reaches q of them;
        // it suffices that some value does.
        assert(exists|k: int| 0 <= k < s.len() && count_at_least(s, s[k]) >= q) by {
            lemma_some_value_reaches_quorum(s, q as int);
        }
        let k = choose|k: int| 0 <= k < s.len() && count_at_least(s, s[k]) >= q;
        assert(found);
        assert forall|y: u32| s.contains(y) && count_at_least(s, y) >= q implies y <= best by {
            let m = choose|m: int| 0 <= m < s.len() && s[m] == y;
        }
    }
    best
}

/// The smallest of `s` is reached by all of them, so by any `q <= |s|`.
proof fn lemma_some_value_reaches_quorum(s: Seq<u32>, q: int)
    requires
        1 <= q <= s.len(),
    ensures
        exists|k: int| 0 <= k < s.len() && count_at_least(s, s[k]) >= q,
{
    let m = lemma_min_index(s);
    let x = s[m];
    assert(s.filter(|v: u32| v >= x) =~= s) by {
        reveal(Seq::filter);
        lemma_filter_all(s, x);
    }
}

proof fn lemma_min_index(s: Seq<u32>) -> (m: int)
    requires
        s.len() >= 1,
    ensures
        0 <= m < s.len(),
        forall|k: int| 0 <= k < s.len() ==> s[m] <= s[k],
    decreases s.len(),
{
    if s.len() == 1 {
        0
    } else {
        let m0 = lemma_min_index(s.drop_last());
        assert forall|k: int| 0 <= k < s.len() - 1 implies s[m0] <= s[k] by {
            assert(s.drop_last()[k] == s[k]);
        }
        if s.last() < s[m0] {
            (s.len() - 1) as int
        } else {
            m0
        }
    }
}

proof fn lemma_filter_all(s: Seq<u32>, x: u32)
    requires
        forall|k: int| 0 <= k < s.len() ==> x <= s[k],
    ensures
        s.filter(|v: u32| v >= x) == s,
    decreases s.len(),
{
    reveal(Seq::filter);
    if s.len() > 0 {
        lemma_filter_all(s.drop_last(), x);
        assert(s.drop_last().push(s.last()) =~= s);
    }
}

impl RaftNode {
    /// A majority of `everyone`.
    pub open spec fn quorum_spec(&self) -> int {
        self.everyone@.len() as int / 2 + 1
    }

    /// Build a Raft node in term 1 with an empty log.
    pub fn new(id: NodeId, everyone: Vec<NodeId>, is_leader: bool, pending: Vec<u32>) -> (s: Self)
        ensures
            s.id == id,
            s.everyone@ == everyone@,
            s.is_leader == is_leader,
            s.current_term == 1,
            s.log@.len() == 0,
            s.commit_index == 0,
            s.pending@ == pending@,
            s.match_index@ == Map::<NodeId, u32>::empty(),
            s.match_index.entries().len() == 0,
            !s.started,
    {
        RaftNode {
            id,
            everyone,
            is_leader,
            current_term: 1,
            log: Vec::new(),
            commit_index: 0,
            pending,
            match_index: KeyMap::new(),
            started: false,
        }
    }

    fn quorum(&self) -> (r: usize)
        ensures
            r == self.quorum_spec(),
    {
        self.everyone.len() / 2 + 1
    }

    /// First tick: the leader appends its pending operations in its term
    /// and sends its whole log to every other node.
    pub fn on_tick(&mut self, ctx: &mut StepCtx<Msg>)
        ensures
            final(ctx).now == old(ctx).now,
            final(ctx).timers@ == old(ctx).timers@,
            final(ctx).rng == old(ctx).rng,
            if old(self).is_leader && !old(self).started {
                let log = old(self).log@ + old(self).pending@.map_values(|op: u32| (old(self).current_term, op));
                let peers = others(old(self).everyone@, old(self).id);
                &&& final(self).started
                &&& final(self).pending@.len() == 0
                &&& final(self).log@ == log
                &&& final(self).id == old(self).id
                &&& final(self).everyone == old(self).everyone
                &&& final(self).is_leader == old(self).is_leader
                &&& final(self).current_term == old(self).current_term
                &&& final(self).commit_index == old(self).commit_index
                &&& final(self).match_index == old(self).match_index
                &&& final(ctx).outbox@.len() == old(ctx).outbox@.len() + peers.len()
                &&& final(ctx).outbox@.take(old(ctx).outbox@.len() as int) == old(ctx).outbox@
                &&& forall|k: int| 0 <= k < peers.len() ==> is_append(
                    #[trigger] final(ctx).outbox@[old(ctx).outbox@.len() + k],
                    old(self).id,
                    peers[k],
                    old(ctx).now,
                    old(self).current_term,
                    log,
                    old(self).commit_index,
                )
            } else {
                &&& *final(self) == *old(self)
                &&& final(ctx).outbox@ == old(ctx).outbox@
            },
    {
        if !self.is_leader || self.started {
            return;
        }
        self.started = true;
        let mut pending = Vec::new();
        std::mem::swap(&mut pending, &mut self.pending);
        let ghost log0 = self.log@;
        let term = self.current_term;
        let mut j: usize = 0;
        while j < pending.len()
            invariant
                j <= pending@.len(),
                pending@ == old(self).pending@,
                log0 == old(self).log@,
                term == self.current_term,
                self.current_term == old(self).current_term,
                self.log@ == log0 + pending@.take(j as int).map_values(|op: u32| (term, op)),
                self.id == old(self).id,
                self.everyone == old(self).everyone,
                self.is_leader == old(self).is_leader,
                self.commit_index == old(self).commit_index,
                self.match_index == old(self).match_index,
                self.started,
                self.pending@.len() == 0,
            decreases pending@.len() - j,
        {
            self.log.push((term, pending[j]));
            assert(pending@.take(j + 1).map_values(|op: u32| (term, op)) =~= pending@.take(j as int).map_values(
                |op: u32| (term, op),
            ).push((term, pending@[j as int])));
            j = j + 1;
        }
        assert(pending@.take(j as int) =~= pending@);
        let ghost out0 = ctx.outbox@;
        let ghost log = self.log@;
        let mut i: usize = 0;
        while i < self.everyone.len()
            invariant
                i <= self.everyone@.len(),
                self.log@ == log,
                out0 == old(ctx).outbox@,
                ctx.now == old(ctx).now,
                ctx.timers@ == old(ctx).timers@,
                ctx.rng == old(ctx).rng,
                ctx.outbox@.len() == out0.len() + others(self.everyone@.take(i as int), self.id).len(),
                ctx.outbox@.take(out0.len() as int) == out0,
                forall|k: int| 0 <= k < others(self.everyone@.take(i as int), self.id).len() ==> is_append(
                    #[trigger] ctx.outbox@[out0.len() + k],
                    self.id,
                    others(self.everyone@.take(i as int), self.id)[k],
                    ctx.now,
                    self.current_term,
                    log,
                    self.commit_index,
                ),
            decreases self.everyone@.len() - i,
        {
            let peer = self.everyone[i];
            let ghost before = others(self.everyone@.take(i as int), self.id);
            proof {
                reveal(Seq::filter);
                assert(self.everyone@.take(i + 1).drop_last() =~= self.everyone@.take(i as int));
            }
            if peer.0 != self.id.0 {
                let entries = copy_vec(&self.log);
                let ghost o = ctx.outbox@;
                ctx.send(
                    self.id,
                    peer,
                    Msg::AppendEntries {
                        term: self.current_term,
                        prev_index: 0,
                        prev_term: 0,
                        entries,
                        leader_commit: self.commit_index,
                    },
                );
                assert(others(self.everyone@.take(i + 1), self.id) == before.push(peer));
                assert forall|k: int| 0 <= k < before.len() + 1 implies is_append(
                    #[trigger] ctx.outbox@[out0.len() + k],
                    self.id,
                    before.push(peer)[k],
                    ctx.now,
                    self.current_term,
                    log,
                    self.commit_index,
                ) by {
                    if k < before.len() {
                        assert(ctx.outbox@[out0.len() + k] == o[out0.len() + k]);
                    }
                }
                assert(ctx.outbox@.take(out0.len() as int) =~= o.take(out0.len() as int));
            } else {
                assert(others(self.everyone@.take(i + 1), self.id) == before);
            }
            i = i + 1;
        }
        assert(self.everyone@.take(i as int) =~= self.everyone@);
    }
}

impl RaftNode {
    /// Handle one delivered message. A follower answers a current or
    /// newer `AppendEntries` by adopting the leader's log and commit
    /// index; the leader records successful responses and commits the
    /// highest index held by a quorum (counting its own log).
    pub fn on_receive(&mut self, env: Envelope<Msg>, ctx: &mut StepCtx<Msg>)
        requires
            env.msg matches Msg::Response { term, success, .. } && old(self).is_leader && term
                <= old(self).current_term && success ==> old(self).match_index@.dom().insert(env.from).len() + 1
                >= old(self).quorum_spec(),
        ensures
            final(self).current_term >= old(self).current_term,
            final(self).commit_index >= old(self).commit_index,
            final(ctx).now == old(ctx).now,
            final(ctx).timers@ == old(ctx).timers@,
            final(ctx).rng == old(ctx).rng,
            final(self).id == old(self).id,
            final(self).everyone == old(self).everyone,
            final(self).is_leader == old(self).is_leader,
            final(self).pending == old(self).pending,
            final(self).started == old(self).started,
            match env.msg {
                Msg::AppendEntries { term, entries, leader_commit, .. } => if term < old(self).current_term {
                    &&& *final(self) == *old(self)
                    &&& final(ctx).outbox@ == old(ctx).outbox@.push(
                        env_of(
                            old(self).id,
                            env.from,
                            old(ctx).now,
                            Msg::Response { term: old(self).current_term, match_index: 0, success: false },
                        ),
                    )
                } else {
                    let len = entries@.len() as u32;
                    let new_commit = if leader_commit < len { leader_commit } else { len };
                    &&& final(self).current_term == term
                    &&& final(self).log@ == entries@
                    &&& final(self).commit_index == if new_commit > old(self).commit_index {
                        new_commit
                    } else {
                        old(self).commit_index
                    }
                    &&& final(self).match_index == old(self).match_index
                    &&& final(ctx).outbox@ == old(ctx).outbox@.push(
                        env_of(old(self).id, env.from, old(ctx).now, Msg::Response { term, match_index: len, success: true }),
                    )
                },
                Msg::Response { term, match_index, success } => {
                    &&& final(ctx).outbox@ == old(ctx).outbox@
                    &&& final(self).current_term == old(self).current_term
                    &&& final(self).log == old(self).log
                    &&& if !old(self).is_leader || term > old(self).current_term || !success {
                        *final(self) == *old(self)
                    } else {
                        let entries = crate::collections::insert_entry(old(self).match_index.entries(), env.from, match_index);
                        let vals = entries.map_values(|e: (NodeId, u32)| e.1).push(old(self).log@.len() as u32);
                        &&& final(self).match_index.entries() == entries
                        &&& exists|x: u32| is_quorum_index(vals, old(self).quorum_spec(), x)
                            && final(self).commit_index == if x > old(self).commit_index { x } else { old(self).commit_index }
                    }
                },
            },
    {
        match env.msg {
            Msg::AppendEntries { term, prev_index: _, prev_term: _, entries, leader_commit } => {
                if term < self.current_term {
                    ctx.send(
                        self.id,
                        env.from,
                        Msg::Response { term: self.current_term, match_index: 0, success: false },
                    );
                    return;
                }
                self.current_term = term;
                self.log = copy_vec(&entries);
                let len = self.log.len() as u32;
                let new_commit = if leader_commit < len { leader_commit } else { len };
                if new_commit > self.commit_index {
                    self.commit_index = new_commit;
                }
                ctx.send(self.id, env.from, Msg::Response { term, match_index: len, success: true });
            },
            Msg::Response { term, match_index, success } => {
                if !self.is_leader {
                    return;
                }
                if term > self.current_term {
                    return;
                }
                if !success {
                    return;
                }
                self.match_index.insert(env.from, match_index);
                let n_matched = self.match_index.len();
                let mut indices = self.match_index.values();
                indices.push(self.log.len() as u32);
                proof {
                    assert(self.match_index@.dom() == old(self).match_index@.dom().insert(env.from));
                }
                let q = self.quorum();
                let new_commit = quorum_index(&indices, q);
                if new_commit > self.commit_index {
                    self.commit_index = new_commit;
                }
            },
        }
    }
}

} // verus!
