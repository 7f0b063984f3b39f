//! The graph that a run executes: nodes, the channels between them, and edges.

use crate::channel::ChannelKind;
use crate::errors::ConfigError;
use crate::value::{TypeTag, Value};
use vstd::prelude::*;

verus! {

/// How often a node is tried again after a failure that may pass, and the delay
/// before each new attempt, in milliseconds.
#[derive(Clone, Copy, PartialEq, Eq, Structural, Debug)]
pub struct RetryPolicy {
    pub max_attempts: u32,
    pub backoff_ms: u64,
}

/// A value that a task proposes for a channel.
#[derive(Clone, Copy, PartialEq, Eq, Structural, Debug)]
pub struct Write {
    pub channel: usize,
    pub value: Value,
}

/// A directive that a task computes: run `target` in the next superstep and hand
/// it `payload`, whatever the edges say.
#[derive(Clone, Copy, PartialEq, Eq, Structural, Debug)]
pub struct Send {
    pub target: usize,
    pub payload: Value,
}

/// A computation unit. Channels are named by their index in the graph.
pub struct Node {
    /// Unique among the nodes of a graph.
    pub id: String,
    /// The node runs when one of these channels has moved since it last ran.
    pub triggers: Vec<usize>,
    /// The channels whose contents the node is handed.
    pub reads: Vec<usize>,
    /// The channels that the node may write; writes to others are dropped.
    pub writes: Vec<usize>,
    pub retry: RetryPolicy,
    /// The failure channel of the node, if it has one. A node with a failure
    /// channel and a conditional edge does not fail the run: when it fails for
    /// good, the code of the failure is written to this channel, and the nodes
    /// that its conditional edges lead to run next.
    pub on_failure: Option<usize>,
}

/// Wiring from one node to others. Nodes are named by their index in the graph.
pub enum Edge {
    /// Once `from` has run, `to` runs in the next superstep.
    Static { from: usize, to: usize },
    /// Once `from` has run, those of `targets` that it chose run in the next superstep.
    Conditional { from: usize, targets: Vec<usize> },
}

/// The declaration of a channel.
pub struct ChannelSpec {
    /// Unique among the channels of a graph.
    pub name: String,
    pub kind: ChannelKind,
    pub typ: TypeTag,
    /// The operator tag of a reducer; unused by the other kinds.
    pub operator: u64,
}

/// A graph descriptor.
pub struct Graph {
    pub nodes: Vec<Node>,
    pub channels: Vec<ChannelSpec>,
    pub edges: Vec<Edge>,
    /// The channels that take the input of a run.
    pub inputs: Vec<usize>,
    /// The channels whose contents are the result of a run.
    pub outputs: Vec<usize>,
}

/// Every index in `items` is below `bound`.
pub open spec fn all_below(items: Seq<usize>, bound: nat) -> bool {
    forall|i: int| 0 <= i < items.len() ==> (#[trigger] items[i]) < bound
}

impl Edge {
    /// The node that the edge leaves.
    pub open spec fn source(&self) -> usize {
        match self {
            Edge::Static { from, .. } => *from,
            Edge::Conditional { from, .. } => *from,
        }
    }

    /// Whether the edge can lead to node `m`.
    pub open spec fn reaches(&self, m: usize) -> bool {
        match self {
            Edge::Static { to, .. } => *to == m,
            Edge::Conditional { targets, .. } => targets@.contains(m),
        }
    }

    /// Whether the edge leads from `n` to `m` once `n` has run and chosen `goto`.
    pub open spec fn fires(&self, n: usize, goto: Seq<usize>, m: usize) -> bool {
        match self {
            Edge::Static { from, to } => *from == n && *to == m,
            Edge::Conditional { from, targets } => *from == n && targets@.contains(m) && goto.contains(m),
        }
    }

    /// Both ends of the edge are nodes of a graph with `n_nodes` nodes.
    pub open spec fn in_range(&self, n_nodes: nat) -> bool {
        match self {
            Edge::Static { from, to } => *from < n_nodes && *to < n_nodes,
            Edge::Conditional { from, targets } => *from < n_nodes && all_below(targets@, n_nodes),
        }
    }
}

impl Node {
    /// Every channel that the node names is one of `n_channels` channels.
    pub open spec fn in_range(&self, n_channels: nat) -> bool {
        &&& all_below(self.triggers@, n_channels)
        &&& all_below(self.reads@, n_channels)
        &&& all_below(self.writes@, n_channels)
        &&& self.on_failure is Some ==> self.on_failure->Some_0 < n_channels
    }

    /// The channels that the node can write: those that it may write, and its
    /// failure channel.
    pub open spec fn writable(&self) -> Seq<usize> {
        match self.on_failure {
            Some(c) => self.writes@.push(c),
            None => self.writes@,
        }
    }

    /// Whether the node can write channel `c`.
    pub fn can_write(&self, c: usize) -> (b: bool)
        ensures
            b == self.writable().contains(c),
    {
        let listed = has_index(&self.writes, c);
        match self.on_failure {
            Some(failure) => {
                proof {
                    let all = self.writes@.push(failure);
                    assert(all[all.len() - 1] == failure);
                    if self.writes@.contains(c) {
                        let i = choose|i: int| 0 <= i < self.writes@.len() && self.writes@[i] == c;
                        assert(all[i] == c);
                    }
                    if all.contains(c) {
                        let i = choose|i: int| 0 <= i < all.len() && all[i] == c;
                        if i < self.writes@.len() {
                            assert(self.writes@[i] == c);
                        }
                    }
                }
                listed || failure == c
            },
            None => listed,
        }
    }

    /// Whether the node takes note of channel `c` when it runs: it does of its
    /// triggers and of what it reads.
    pub open spec fn observes(&self, c: usize) -> bool {
        self.triggers@.contains(c) || self.reads@.contains(c)
    }
}

impl Graph {
    /// Two nodes share an id, or two channels share a name.
    pub open spec fn has_duplicate(&self) -> bool {
        ||| exists|i: int, j: int|
            0 <= i < j < self.nodes@.len() && (#[trigger] self.nodes@[i]).id@ == (#[trigger] self.nodes@[j]).id@
        ||| exists|i: int, j: int|
            0 <= i < j < self.channels@.len() && (#[trigger] self.channels@[i]).name@ == (
            #[trigger] self.channels@[j]).name@
    }

    /// A node, the inputs or the outputs name a channel that is not declared.
    pub open spec fn has_missing_channel(&self) -> bool {
        ||| exists|i: int| 0 <= i < self.nodes@.len() && !(#[trigger] self.nodes@[i]).in_range(self.channels@.len())
        ||| !all_below(self.inputs@, self.channels@.len())
        ||| !all_below(self.outputs@, self.channels@.len())
    }

    /// An edge names a node that the graph does not have.
    pub open spec fn has_dangling_edge(&self) -> bool {
        exists|i: int| 0 <= i < self.edges@.len() && !(#[trigger] self.edges@[i]).in_range(self.nodes@.len())
    }

    /// The graph can be run.
    pub open spec fn wf(&self) -> bool {
        &&& !self.has_duplicate()
        &&& !self.has_missing_channel()
        &&& !self.has_dangling_edge()
    }

    /// Whether node `m` is reached from node `n` once `n` has run and chosen `goto`.
    pub open spec fn routed(&self, n: usize, goto: Seq<usize>, m: usize) -> bool {
        exists|e: int| 0 <= e < self.edges@.len() && (#[trigger] self.edges@[e]).fires(n, goto, m)
    }

    /// Whether a conditional edge leaves node `n`.
    pub open spec fn has_escape(&self, n: usize) -> bool {
        exists|e: int|
            0 <= e < self.edges@.len() && (#[trigger] self.edges@[e]) is Conditional && self.edges@[e].source() == n
    }

    /// The targets of the conditional edges that leave node `n`, among the first
    /// `k` edges, in the order of the edges.
    pub open spec fn escape_targets(&self, n: usize, k: nat) -> Seq<usize>
        decreases k,
    {
        if k == 0 {
            Seq::<usize>::empty()
        } else {
            let before = self.escape_targets(n, (k - 1) as nat);
            match self.edges@[k - 1] {
                Edge::Conditional { from, targets } => if from == n {
                    before + targets@
                } else {
                    before
                },
                Edge::Static { .. } => before,
            }
        }
    }

    /// The targets of the conditional edges that leave node `n`, in the order of
    /// the edges; nothing if no conditional edge leaves `n`.
    pub fn escape_route(&self, n: usize) -> (route: Option<Vec<usize>>)
        ensures
            route is Some <==> self.has_escape(n),
            route is Some ==> route->Some_0@ == self.escape_targets(n, self.edges@.len()),
    {
        let mut found = false;
        let mut route: Vec<usize> = Vec::new();
        let mut e: usize = 0;
        while e < self.edges.len()
            invariant
                e <= self.edges@.len(),
                route@ == self.escape_targets(n, e as nat),
                found <==> exists|i: int|
                    0 <= i < e && (#[trigger] self.edges@[i]) is Conditional && self.edges@[i].source() == n,
            decreases self.edges@.len() - e,
        {
            match &self.edges[e] {
                Edge::Conditional { from, targets } => {
                    if *from == n {
                        found = true;
                        let mut t: usize = 0;
                        let ghost before = route@;
                        assert(before + targets@.take(0) =~= before);
                        while t < targets.len()
                            invariant
                                t <= targets@.len(),
                                route@ == before + targets@.take(t as int),
                            decreases targets@.len() - t,
                        {
                            route.push(targets[t]);
                            assert(before + targets@.take(t + 1) =~= (before + targets@.take(t as int)).push(
                                targets@[t as int],
                            ));
                            t = t + 1;
                        }
                        assert(targets@.take(t as int) =~= targets@);
                    }
                },
                Edge::Static { .. } => {},
            }
            e = e + 1;
        }
        if found {
            Some(route)
        } else {
            None
        }
    }

    /// Says whether the graph can be run, and if not, what is wrong with it: a
    /// shared id first, then an undeclared channel, then a dangling edge.
    pub fn validate(&self) -> (r: Result<(), ConfigError>)
        ensures
            r is Ok <==> self.wf(),
            r == Err::<(), ConfigError>(ConfigError::DuplicateId) <==> self.has_duplicate(),
            r == Err::<(), ConfigError>(ConfigError::MissingChannel) <==> !self.has_duplicate()
                && self.has_missing_channel(),
            r == Err::<(), ConfigError>(ConfigError::DanglingEdge) <==> !self.has_duplicate()
                && !self.has_missing_channel() && self.has_dangling_edge(),
    {
        if self.find_duplicate() {
            return Err(ConfigError::DuplicateId);
        }
        if self.find_missing_channel() {
            return Err(ConfigError::MissingChannel);
        }
        if self.find_dangling_edge() {
            return Err(ConfigError::DanglingEdge);
        }
        Ok(())
    }

    fn find_duplicate(&self) -> (found: bool)
        ensures
            found == self.has_duplicate(),
    {
        let mut j: usize = 0;
        while j < self.nodes.len()
            invariant
                j <= self.nodes@.len(),
                forall|a: int, b: int|
                    0 <= a < b < j ==> (#[trigger] self.nodes@[a]).id@ != (#[trigger] self.nodes@[b]).id@,
            decreases self.nodes@.len() - j,
        {
            let mut i: usize = 0;
            while i < j
                invariant
                    i <= j < self.nodes@.len(),
                    forall|a: int| 0 <= a < i ==> (#[trigger] self.nodes@[a]).id@ != self.nodes@[j as int].id@,
                decreases j - i,
            {
                if self.nodes[i].id == self.nodes[j].id {
                    return true;
                }
                i = i + 1;
            }
            j = j + 1;
        }
        let mut j: usize = 0;
        while j < self.channels.len()
            invariant
                j <= self.channels@.len(),
                forall|a: int, b: int|
                    0 <= a < b < self.nodes@.len() ==> (#[trigger] self.nodes@[a]).id@ != (
                    #[trigger] self.nodes@[b]).id@,
                forall|a: int, b: int|
                    0 <= a < b < j ==> (#[trigger] self.channels@[a]).name@ != (
                    #[trigger] self.channels@[b]).name@,
            decreases self.channels@.len() - j,
        {
            let mut i: usize = 0;
            while i < j
                invariant
                    i <= j < self.channels@.len(),
                    forall|a: int|
                        0 <= a < i ==> (#[trigger] self.channels@[a]).name@ != self.channels@[j as int].name@,
                decreases j - i,
            {
                if self.channels[i].name == self.channels[j].name {
                    return true;
                }
                i = i + 1;
            }
            j = j + 1;
        }
        false
    }

    fn find_missing_channel(&self) -> (found: bool)
        ensures
            found == self.has_missing_channel(),
    {
        let bound = self.channels.len();
        let mut i: usize = 0;
        while i < self.nodes.len()
            invariant
                i <= self.nodes@.len(),
                bound == self.channels@.len(),
                forall|a: int| 0 <= a < i ==> (#[trigger] self.nodes@[a]).in_range(bound as nat),
            decreases self.nodes@.len() - i,
        {
            let node = &self.nodes[i];
            let failure_known = match node.on_failure {
                Some(c) => c < bound,
                None => true,
            };
            if !is_all_below(&node.triggers, bound) || !is_all_below(&node.reads, bound) || !is_all_below(
                &node.writes,
                bound,
            ) || !failure_known {
                return true;
            }
            i = i + 1;
        }
        !is_all_below(&self.inputs, bound) || !is_all_below(&self.outputs, bound)
    }

    fn find_dangling_edge(&self) -> (found: bool)
        ensures
            found == self.has_dangling_edge(),
    {
        let bound = self.nodes.len();
        let mut i: usize = 0;
        while i < self.edges.len()
            invariant
                i <= self.edges@.len(),
                bound == self.nodes@.len(),
                forall|a: int| 0 <= a < i ==> (#[trigger] self.edges@[a]).in_range(bound as nat),
            decreases self.edges@.len() - i,
        {
            let ok = match &self.edges[i] {
                Edge::Static { from, to } => *from < bound && *to < bound,
                Edge::Conditional { from, targets } => *from < bound && is_all_below(targets, bound),
            };
            if !ok {
                return true;
            }
            i = i + 1;
        }
        false
    }

    /// Whether node `m` is reached from node `n` once `n` has run and chosen `goto`.
    pub fn is_routed(&self, n: usize, goto: &Vec<usize>, m: usize) -> (b: bool)
        ensures
            b == self.routed(n, goto@, m),
    {
        let mut i: usize = 0;
        while i < self.edges.len()
            invariant
                i <= self.edges@.len(),
                forall|e: int| 0 <= e < i ==> !(#[trigger] self.edges@[e]).fires(n, goto@, m),
            decreases self.edges@.len() - i,
        {
            let fires = match &self.edges[i] {
                Edge::Static { from, to } => *from == n && *to == m,
                Edge::Conditional { from, targets } => *from == n && has_index(targets, m) && has_index(
                    goto,
                    m,
                ),
            };
            if fires {
                return true;
            }
            i = i + 1;
        }
        false
    }
}

/// Whether every index in `items` is below `bound`.
pub fn is_all_below(items: &Vec<usize>, bound: usize) -> (b: bool)
    ensures
        b == all_below(items@, bound as nat),
{
    let mut i: usize = 0;
    while i < items.len()
        invariant
            i <= items@.len(),
            forall|a: int| 0 <= a < i ==> (#[trigger] items@[a]) < bound,
        decreases items@.len() - i,
    {
        if items[i] >= bound {
            return false;
        }
        i = i + 1;
    }
    true
}

/// Whether `key` occurs in `items`.
pub fn has_index(items: &Vec<usize>, key: usize) -> (b: bool)
    ensures
        b == items@.contains(key),
{
    let mut i: usize = 0;
    while i < items.len()
        invariant
            i <= items@.len(),
            forall|a: int| 0 <= a < i ==> items@[a] != key,
        decreases items@.len() - i,
    {
        if items[i] == key {
            return true;
        }
        i = i + 1;
    }
    false
}

} // verus!
