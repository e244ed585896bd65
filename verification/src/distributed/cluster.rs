//! The cluster's membership: which nodes belong to it, in what state, with
//! what capabilities, and which of them can take work.
use vstd::prelude::*;
use crate::ids::fresh_id;
use crate::keyed::{Keyed, find_key, has_key, key_map, keys_of, remove_key, unique_keys, upsert};
use crate::distributed::common::NodeMetrics;
use crate::text::string_of;

verus! {

/// What a node offers.
pub struct NodeCapabilities {
    pub cpu_cores: usize,
    pub memory_gb: u64,
    pub network_bandwidth_mbps: u64,
    pub storage_gb: u64,
    pub supported_protocols: Vec<String>,
    pub max_concurrent_tasks: usize,
}

/// States of a node.
#[derive(Clone, Copy, PartialEq, Eq, Debug, Structural)]
pub enum NodeStatus {
    /// Healthy and accepting tasks.
    Active,
    /// Starting up.
    Starting,
    /// Processing tasks.
    Busy,
    /// Overloaded.
    Overloaded,
    /// Shutting down.
    ShuttingDown,
    /// Failed.
    Failed,
    /// Temporarily unavailable.
    Unavailable,
}

/// Severity of a health issue.
#[derive(Clone, Copy, PartialEq, Eq, Debug, Structural)]
pub enum HealthSeverity {
    Info,
    Warning,
    Critical,
    Fatal,
}

/// A health issue found in the cluster.
pub struct HealthIssue {
    pub severity: HealthSeverity,
    pub node_id: Option<u128>,
    pub description: String,
    pub timestamp: u64,
}

/// A member of the cluster. The address is a `host:port` text; `last_seen`
/// is in milliseconds since the Unix epoch.
pub struct Node {
    pub id: u128,
    pub address: String,
    pub capabilities: NodeCapabilities,
    pub status: NodeStatus,
    pub last_seen: u64,
    pub metrics: Option<NodeMetrics>,
}

impl Keyed for Node {
    open spec fn key_of(&self) -> u128 {
        self.id
    }

    fn key(&self) -> (k: u128) {
        self.id
    }
}

/// Cluster parameters. Intervals and timeouts are in milliseconds; the
/// bind address is a `host:port` text.
pub struct ClusterConfig {
    pub cluster_id: u128,
    pub bind_address: String,
    pub discovery_port: u16,
    pub coordinator_port: u16,
    pub heartbeat_interval: u64,
    pub node_timeout: u64,
    pub max_nodes: usize,
    pub min_nodes: usize,
}

impl ClusterConfig {
    /// A fresh cluster identifier, bound to 127.0.0.1 on any port, discovery
    /// on 8080 and coordination on 8081, heartbeats every 5 s, nodes timed out
    /// after 30 s, between 1 and 100 nodes.
    pub fn default() -> (c: Self)
        ensures
            c.bind_address@ == "127.0.0.1:0"@,
            c.discovery_port == 8080,
            c.coordinator_port == 8081,
            c.heartbeat_interval == 5_000,
            c.node_timeout == 30_000,
            c.max_nodes == 100,
            c.min_nodes == 1,
    {
        ClusterConfig {
            cluster_id: fresh_id(),
            bind_address: string_of("127.0.0.1:0"),
            discovery_port: 8080,
            coordinator_port: 8081,
            heartbeat_interval: 5_000,
            node_timeout: 30_000,
            max_nodes: 100,
            min_nodes: 1,
        }
    }
}

/// Counts and totals over the members.
#[derive(Clone, Copy, PartialEq, Eq, Debug, Structural)]
pub struct NodeSummary {
    pub total_nodes: usize,
    pub active_nodes: usize,
    pub failed_nodes: usize,
    pub total_cpu_cores: usize,
    pub total_memory_gb: u64,
}

/// The members with status `st`, in table order.
pub open spec fn with_status(s: Seq<Node>, st: NodeStatus) -> Seq<Node> {
    s.filter(|n: Node| n.status == st)
}

/// The CPU cores of all members.
pub open spec fn total_cores(s: Seq<Node>) -> nat
    decreases s.len(),
{
    if s.len() == 0 {
        0
    } else {
        total_cores(s.drop_last()) + s.last().capabilities.cpu_cores as nat
    }
}

/// The memory of all members, in GB.
pub open spec fn total_memory(s: Seq<Node>) -> nat
    decreases s.len(),
{
    if s.len() == 0 {
        0
    } else {
        total_memory(s.drop_last()) + s.last().capabilities.memory_gb as nat
    }
}

/// Whether the member `id` exists and is active.
pub open spec fn is_active_member(m: Map<u128, Node>, id: u128) -> bool {
    m.contains_key(id) && m[id].status == NodeStatus::Active
}

/// The nodes to consider for new work: the preferred nodes that are active
/// members, in the order given, or when no preference is given, every
/// active member in table order.
pub open spec fn candidates(nodes: Seq<Node>, preferences: Seq<u128>) -> Seq<u128> {
    if preferences.len() > 0 {
        preferences.filter(|id: u128| is_active_member(key_map(nodes), id))
    } else {
        keys_of(with_status(nodes, NodeStatus::Active))
    }
}

/// Only active members are offered for new work: every node `candidates`
/// gives is a member whose status is `Active`, taken from the preferences
/// when there are any; and every active member (among the preferred ones,
/// when there are preferences) is offered.
pub proof fn lemma_candidates_are_active_members(nodes: Seq<Node>, preferences: Seq<u128>)
    requires
        unique_keys(nodes),
    ensures
        forall|i: int|
            0 <= i < candidates(nodes, preferences).len() ==> {
                let id = #[trigger] candidates(nodes, preferences)[i];
                &&& key_map(nodes).contains_key(id)
                &&& key_map(nodes)[id].status == NodeStatus::Active
                &&& preferences.len() > 0 ==> preferences.contains(id)
            },
        forall|id: u128|
            key_map(nodes).contains_key(id) && key_map(nodes)[id].status == NodeStatus::Active && (preferences.len()
                == 0 || preferences.contains(id)) ==> #[trigger] candidates(nodes, preferences).contains(id),
{
    let c = candidates(nodes, preferences);
    let pred = |id: u128| is_active_member(key_map(nodes), id);
    let sp = |n: Node| n.status == NodeStatus::Active;
    if preferences.len() > 0 {
        preferences.filter_lemma(pred);
        assert forall|i: int| 0 <= i < c.len() implies preferences.contains(#[trigger] c[i]) by {
            assert(preferences.filter(pred).contains(c[i])) by {
                assert(preferences.filter(pred)[i] == c[i]);
            }
            preferences.lemma_filter_contains_rev(pred, c[i]);
        }
        assert forall|id: u128|
            key_map(nodes).contains_key(id) && key_map(nodes)[id].status == NodeStatus::Active
                && preferences.contains(id) implies #[trigger] c.contains(id) by {
            let k = choose|k: int| 0 <= k < preferences.len() && preferences[k] == id;
            assert(pred(preferences[k]));
        }
    } else {
        let w = with_status(nodes, NodeStatus::Active);
        nodes.filter_lemma(sp);
        assert forall|i: int| 0 <= i < c.len() implies key_map(nodes).contains_key(#[trigger] c[i])
            && key_map(nodes)[c[i]].status == NodeStatus::Active by {
            assert(c[i] == w[i].key_of());
            assert(sp(w[i]));
            assert(nodes.filter(sp).contains(w[i])) by {
                assert(nodes.filter(sp)[i] == w[i]);
            }
            nodes.lemma_filter_contains_rev(sp, w[i]);
            let t = choose|t: int| 0 <= t < nodes.len() && nodes[t] == w[i];
            crate::keyed::lemma_key_index(nodes, t);
        }
        assert forall|id: u128|
            key_map(nodes).contains_key(id) && key_map(nodes)[id].status == NodeStatus::Active implies #[trigger] c.contains(
                id,
            ) by {
            let t = choose|t: int| 0 <= t < nodes.len() && (#[trigger] nodes[t]).key_of() == id;
            crate::keyed::lemma_key_index(nodes, t);
            assert(sp(nodes[t]));
            assert(w.contains(nodes[t]));
            let j = choose|j: int| 0 <= j < w.len() && w[j] == nodes[t];
            assert(c[j] == id);
        }
    }
}

/// The membership of a cluster: at most one record per node identifier.
pub struct Cluster {
    pub config: ClusterConfig,
    pub nodes: Vec<Node>,
}

proof fn lemma_filter_push<A>(s: Seq<A>, pred: spec_fn(A) -> bool, e: A)
    ensures
        pred(e) ==> s.push(e).filter(pred) == s.filter(pred).push(e),
        !pred(e) ==> s.push(e).filter(pred) == s.filter(pred),
{
    reveal(Seq::filter);
    assert(s.push(e).drop_last() =~= s);
}

impl Cluster {
    /// The members, by identifier.
    pub open spec fn members(&self) -> Map<u128, Node> {
        key_map(self.nodes@)
    }

    /// The cluster's invariant: one record per node.
    pub open spec fn wf(&self) -> bool {
        unique_keys(self.nodes@)
    }

    /// A cluster with no members.
    pub fn new(config: ClusterConfig) -> (c: Self)
        ensures
            c.wf(),
            c.members() == Map::<u128, Node>::empty(),
            c.config == config,
    {
        let c = Cluster { config, nodes: Vec::new() };
        assert(c.members() =~= Map::<u128, Node>::empty());
        c
    }

    /// Adds `node`, replacing any member with the same identifier.
    pub fn add_node(&mut self, node: Node)
        requires
            old(self).wf(),
        ensures
            final(self).wf(),
            final(self).members() == old(self).members().insert(node.id, node),
    {
        upsert(&mut self.nodes, node);
    }

    /// Removes member `node_id`, if present.
    pub fn remove_node(&mut self, node_id: u128)
        requires
            old(self).wf(),
        ensures
            final(self).wf(),
            final(self).members() == old(self).members().remove(node_id),
    {
        let _ = remove_key(&mut self.nodes, node_id);
    }

    /// Sets the status of member `node_id`, seen at time `now`; nothing
    /// happens when there is no such member.
    pub fn update_node_status(&mut self, node_id: u128, status: NodeStatus, now: u64)
        requires
            old(self).wf(),
        ensures
            final(self).wf(),
            final(self).config == old(self).config,
            old(self).members().contains_key(node_id) ==> final(self).members() == old(self).members().insert(
                node_id,
                Node { status, last_seen: now, ..old(self).members()[node_id] },
            ),
            !old(self).members().contains_key(node_id) ==> final(self).members() == old(self).members(),
    {
        if let Some(mut n) = remove_key(&mut self.nodes, node_id) {
            n.status = status;
            n.last_seen = now;
            upsert(&mut self.nodes, n);
            assert(self.members() =~= old(self).members().insert(node_id, n));
        }
    }

    /// Records the metrics of member `node_id`; nothing happens when there is
    /// no such member.
    pub fn update_node_metrics(&mut self, node_id: u128, metrics: NodeMetrics)
        requires
            old(self).wf(),
        ensures
            final(self).wf(),
            old(self).members().contains_key(node_id) ==> final(self).members() == old(self).members().insert(
                node_id,
                Node { metrics: Some(metrics), ..old(self).members()[node_id] },
            ),
            !old(self).members().contains_key(node_id) ==> final(self).members() == old(self).members(),
    {
        if let Some(mut n) = remove_key(&mut self.nodes, node_id) {
            n.metrics = Some(metrics);
            upsert(&mut self.nodes, n);
            assert(self.members() =~= old(self).members().insert(node_id, n));
        }
    }

    /// Replaces the capabilities of member `node_id`; nothing happens when
    /// there is no such member.
    pub fn update_capabilities(&mut self, node_id: u128, capabilities: NodeCapabilities)
        requires
            old(self).wf(),
        ensures
            final(self).wf(),
            old(self).members().contains_key(node_id) ==> final(self).members() == old(self).members().insert(
                node_id,
                Node { capabilities, ..old(self).members()[node_id] },
            ),
            !old(self).members().contains_key(node_id) ==> final(self).members() == old(self).members(),
    {
        if let Some(mut n) = remove_key(&mut self.nodes, node_id) {
            n.capabilities = capabilities;
            upsert(&mut self.nodes, n);
            assert(self.members() =~= old(self).members().insert(node_id, n));
        }
    }

    /// Whether `node_id` is a member.
    pub fn contains(&self, node_id: u128) -> (b: bool)
        requires
            self.wf(),
        ensures
            b == self.members().contains_key(node_id),
    {
        find_key(&self.nodes, node_id).is_some()
    }

    /// The status of member `node_id`, if it is one.
    pub fn status_of(&self, node_id: u128) -> (r: Option<NodeStatus>)
        requires
            self.wf(),
        ensures
            r == (if self.members().contains_key(node_id) {
                Some(self.members()[node_id].status)
            } else {
                None
            }),
    {
        match find_key(&self.nodes, node_id) {
            Some(i) => Some(self.nodes[i].status),
            None => None,
        }
    }

    /// The identifiers of the members with status `status`, in table order.
    pub fn get_nodes_by_status(&self, status: NodeStatus) -> (ids: Vec<u128>)
        requires
            self.wf(),
        ensures
            ids@ == keys_of(with_status(self.nodes@, status)),
    {
        let mut ids: Vec<u128> = Vec::new();
        let mut i: usize = 0;
        while i < self.nodes.len()
            invariant
                i <= self.nodes@.len(),
                ids@ == keys_of(with_status(self.nodes@.take(i as int), status)),
            decreases self.nodes@.len() - i,
        {
            let ghost pre = self.nodes@.take(i as int);
            proof {
                assert(self.nodes@.take(i + 1) =~= pre.push(self.nodes@[i as int]));
                lemma_filter_push(pre, |n: Node| n.status == status, self.nodes@[i as int]);
            }
            if self.nodes[i].status == status {
                ids.push(self.nodes[i].id);
                assert(ids@ =~= keys_of(with_status(self.nodes@.take(i + 1), status)));
            } else {
                assert(ids@ =~= keys_of(with_status(self.nodes@.take(i + 1), status)));
            }
            i = i + 1;
        }
        assert(self.nodes@.take(self.nodes@.len() as int) =~= self.nodes@);
        ids
    }

    /// Whether the members' CPU cores and memory can be totalled in a
    /// `usize` and a `u64` (what `node_summary` needs).
    pub fn totals_fit(&self) -> (b: bool)
        ensures
            b == (total_cores(self.nodes@) <= usize::MAX && total_memory(self.nodes@) <= u64::MAX),
    {
        let mut cores: usize = 0;
        let mut memory: u64 = 0;
        let mut i: usize = 0;
        while i < self.nodes.len()
            invariant
                i <= self.nodes@.len(),
                cores == total_cores(self.nodes@.take(i as int)),
                memory == total_memory(self.nodes@.take(i as int)),
            decreases self.nodes@.len() - i,
        {
            proof {
                lemma_totals_prefix(self.nodes@, i as int + 1);
            }
            let c = self.nodes[i].capabilities.cpu_cores;
            let m = self.nodes[i].capabilities.memory_gb;
            if c > usize::MAX - cores || m > u64::MAX - memory {
                proof {
                    if c > usize::MAX - cores {
                        assert(total_cores(self.nodes@.take(i + 1)) > usize::MAX);
                    } else {
                        assert(total_memory(self.nodes@.take(i + 1)) > u64::MAX);
                    }
                }
                return false;
            }
            cores = cores + c;
            memory = memory + m;
            i = i + 1;
        }
        assert(self.nodes@.take(self.nodes@.len() as int) =~= self.nodes@);
        true
    }

    /// Counts and totals over the members: how many there are, how many are
    /// active, how many failed, and their CPU cores and memory.
    pub fn node_summary(&self) -> (s: NodeSummary)
        requires
            self.wf(),
            total_cores(self.nodes@) <= usize::MAX,
            total_memory(self.nodes@) <= u64::MAX,
        ensures
            s.total_nodes == self.nodes@.len(),
            s.active_nodes == with_status(self.nodes@, NodeStatus::Active).len(),
            s.failed_nodes == with_status(self.nodes@, NodeStatus::Failed).len(),
            s.total_cpu_cores == total_cores(self.nodes@),
            s.total_memory_gb == total_memory(self.nodes@),
    {
        let mut active: usize = 0;
        let mut failed: usize = 0;
        let mut cores: usize = 0;
        let mut memory: u64 = 0;
        let mut i: usize = 0;
        while i < self.nodes.len()
            invariant
                i <= self.nodes@.len(),
                total_cores(self.nodes@) <= usize::MAX,
                total_memory(self.nodes@) <= u64::MAX,
                active == with_status(self.nodes@.take(i as int), NodeStatus::Active).len(),
                failed == with_status(self.nodes@.take(i as int), NodeStatus::Failed).len(),
                active <= i,
                failed <= i,
                cores == total_cores(self.nodes@.take(i as int)),
                memory == total_memory(self.nodes@.take(i as int)),
            decreases self.nodes@.len() - i,
        {
            let ghost pre = self.nodes@.take(i as int);
            proof {
                assert(self.nodes@.take(i + 1) =~= pre.push(self.nodes@[i as int]));
                assert(self.nodes@.take(i + 1).drop_last() =~= pre);
                lemma_filter_push(pre, |n: Node| n.status == NodeStatus::Active, self.nodes@[i as int]);
                lemma_filter_push(pre, |n: Node| n.status == NodeStatus::Failed, self.nodes@[i as int]);
                lemma_totals_prefix(self.nodes@, i as int + 1);
            }
            if self.nodes[i].status == NodeStatus::Active {
                active = active + 1;
            }
            if self.nodes[i].status == NodeStatus::Failed {
                failed = failed + 1;
            }
            cores = cores + self.nodes[i].capabilities.cpu_cores;
            memory = memory + self.nodes[i].capabilities.memory_gb;
            i = i + 1;
        }
        assert(self.nodes@.take(self.nodes@.len() as int) =~= self.nodes@);
        NodeSummary {
            total_nodes: self.nodes.len(),
            active_nodes: active,
            failed_nodes: failed,
            total_cpu_cores: cores,
            total_memory_gb: memory,
        }
    }

    /// The nodes to consider for new work, given preferred nodes (see
    /// `candidates`).
    pub fn candidate_nodes(&self, preferences: &Vec<u128>) -> (ids: Vec<u128>)
        requires
            self.wf(),
        ensures
            ids@ == candidates(self.nodes@, preferences@),
            forall|i: int|
                0 <= i < ids@.len() ==> self.members().contains_key(#[trigger] ids@[i])
                    && self.members()[ids@[i]].status == NodeStatus::Active,
            preferences@.len() > 0 ==> forall|i: int| 0 <= i < ids@.len() ==> preferences@.contains(#[trigger] ids@[i]),
            forall|id: u128|
                self.members().contains_key(id) && self.members()[id].status == NodeStatus::Active && (
                preferences@.len() == 0 || preferences@.contains(id)) ==> #[trigger] ids@.contains(id),
    {
        proof {
            lemma_candidates_are_active_members(self.nodes@, preferences@);
        }
        if preferences.len() == 0 {
            return self.get_nodes_by_status(NodeStatus::Active);
        }
        let ghost pred = |id: u128| is_active_member(key_map(self.nodes@), id);
        let mut ids: Vec<u128> = Vec::new();
        let mut i: usize = 0;
        while i < preferences.len()
            invariant
                self.wf(),
                i <= preferences@.len(),
                pred == (|id: u128| is_active_member(key_map(self.nodes@), id)),
                ids@ == preferences@.take(i as int).filter(pred),
            decreases preferences@.len() - i,
        {
            let id = preferences[i];
            proof {
                assert(preferences@.take(i + 1) =~= preferences@.take(i as int).push(id));
                lemma_filter_push(preferences@.take(i as int), pred, id);
            }
            match self.status_of(id) {
                Some(st) => {
                    if st == NodeStatus::Active {
                        ids.push(id);
                    }
                },
                None => {},
            }
            i = i + 1;
        }
        assert(preferences@.take(preferences@.len() as int) =~= preferences@);
        ids
    }
}

proof fn lemma_totals_prefix(s: Seq<Node>, k: int)
    requires
        0 < k <= s.len(),
    ensures
        total_cores(s.take(k)) == total_cores(s.take(k - 1)) + s[k - 1].capabilities.cpu_cores,
        total_memory(s.take(k)) == total_memory(s.take(k - 1)) + s[k - 1].capabilities.memory_gb,
        total_cores(s.take(k)) <= total_cores(s),
        total_memory(s.take(k)) <= total_memory(s),
    decreases s.len(),
{
    assert(s.take(k).drop_last() =~= s.take(k - 1));
    if k < s.len() {
        lemma_totals_prefix(s.drop_last(), k);
        assert(s.drop_last().take(k) =~= s.take(k));
        assert(s.drop_last().take(k - 1) =~= s.take(k - 1));
    } else {
        assert(s.take(k) =~= s);
    }
}

} // verus!
