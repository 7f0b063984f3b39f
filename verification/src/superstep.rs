//! What one superstep does, stated over mathematical models of the state.

use crate::channel::{ChannelKind, ChannelModel};
use crate::errors::ChannelError;
use crate::graph::{ChannelSpec, Graph, Send, Write};
use crate::value::Value;
use vstd::prelude::*;

verus! {

/// Everything a run knows between two supersteps.
pub struct StateModel {
    /// The channels, by index.
    pub channels: Seq<ChannelModel>,
    /// The version of each channel.
    pub versions: Seq<u64>,
    /// For each node, the version of each channel that it last took note of.
    pub seen: Seq<Seq<u64>>,
    /// For each node, whether an edge from a node of the last superstep leads to it.
    pub activated: Seq<bool>,
    /// For each node, the payloads sent to it in the last superstep, in their order.
    pub inbox: Seq<Seq<Value>>,
}

/// What a task is handed.
pub struct TaskModel {
    pub node: usize,
    /// The contents of the channels that the node reads, in the order of its list.
    pub reads: Seq<Seq<Value>>,
    /// The payloads sent to the node.
    pub payloads: Seq<Value>,
}

/// What a task hands back.
pub struct OutputModel {
    pub writes: Seq<Write>,
    pub sends: Seq<Send>,
    pub goto: Seq<usize>,
}

/// The values that `writes` holds for channel `c`, in their order, if `c` is one
/// of the channels in `allowed`.
pub open spec fn task_writes(allowed: Seq<usize>, writes: Seq<Write>, c: usize) -> Seq<Value>
    decreases writes.len(),
{
    if writes.len() == 0 {
        Seq::<Value>::empty()
    } else {
        let before = task_writes(allowed, writes.drop_last(), c);
        if writes.last().channel == c && allowed.contains(c) {
            before.push(writes.last().value)
        } else {
            before
        }
    }
}

/// The payloads that `sends` holds for node `m`, in their order.
pub open spec fn task_sends(sends: Seq<Send>, m: usize) -> Seq<Value>
    decreases sends.len(),
{
    if sends.len() == 0 {
        Seq::<Value>::empty()
    } else {
        let before = task_sends(sends.drop_last(), m);
        if sends.last().target == m {
            before.push(sends.last().payload)
        } else {
            before
        }
    }
}

/// The values that the first `k` tasks propose for channel `c`, task by task.
pub open spec fn gathered_upto(g: Graph, nodes: Seq<usize>, outs: Seq<OutputModel>, c: usize, k: nat) -> Seq<
    Value,
>
    decreases k,
{
    if k == 0 {
        Seq::<Value>::empty()
    } else {
        gathered_upto(g, nodes, outs, c, (k - 1) as nat) + task_writes(
            g.nodes@[nodes[k - 1] as int].writable(),
            outs[k - 1].writes,
            c,
        )
    }
}

/// The values that the tasks propose for channel `c`, task by task.
pub open spec fn gathered(g: Graph, nodes: Seq<usize>, outs: Seq<OutputModel>, c: usize) -> Seq<Value> {
    gathered_upto(g, nodes, outs, c, nodes.len())
}

/// The payloads that the first `k` tasks send to node `m`, task by task.
pub open spec fn mailed_upto(outs: Seq<OutputModel>, m: usize, k: nat) -> Seq<Value>
    decreases k,
{
    if k == 0 {
        Seq::<Value>::empty()
    } else {
        mailed_upto(outs, m, (k - 1) as nat) + task_sends(outs[k - 1].sends, m)
    }
}

/// Whether an edge leads to node `m` from one of the tasks.
pub open spec fn reached(g: Graph, nodes: Seq<usize>, outs: Seq<OutputModel>, m: usize) -> bool {
    exists|k: int| 0 <= k < nodes.len() && g.routed(#[trigger] nodes[k], outs[k].goto, m)
}

/// The operator tag that a declared channel carries: its own if it is a reducer.
pub open spec fn declared_operator(spec: ChannelSpec) -> u64 {
    if spec.kind == ChannelKind::Reducer {
        spec.operator
    } else {
        0
    }
}

impl StateModel {
    /// The state has the shape of graph `g`, every channel is well formed, and no
    /// node has seen a version that its channel has not reached.
    pub open spec fn fits(self, g: Graph) -> bool {
        &&& self.channels.len() == g.channels@.len()
        &&& self.versions.len() == g.channels@.len()
        &&& self.seen.len() == g.nodes@.len()
        &&& self.activated.len() == g.nodes@.len()
        &&& self.inbox.len() == g.nodes@.len()
        &&& forall|c: int| 0 <= c < self.channels.len() ==> (#[trigger] self.channels[c]).wf()
        &&& forall|c: int|
            0 <= c < self.channels.len() ==> (#[trigger] self.channels[c]).kind == g.channels@[c].kind
                && self.channels[c].operator == declared_operator(g.channels@[c])
        &&& forall|n: int| 0 <= n < self.seen.len() ==> (#[trigger] self.seen[n]).len() == g.channels@.len()
        &&& forall|n: int, c: int|
            0 <= n < self.seen.len() && 0 <= c < self.versions.len() ==> #[trigger] self.seen[n][c]
                <= self.versions[c]
    }

    /// A trigger channel of node `n` has moved past what the node last saw of it.
    pub open spec fn triggered(self, g: Graph, n: int) -> bool {
        exists|t: int|
            0 <= t < g.nodes@[n].triggers@.len() && self.seen[n][(#[trigger] g.nodes@[n].triggers@[t]) as int]
                < self.versions[g.nodes@[n].triggers@[t] as int]
    }

    /// Node `n` runs in the next superstep: it is triggered, an edge leads to it,
    /// or a payload was sent to it.
    pub open spec fn due(self, g: Graph, n: int) -> bool {
        self.triggered(g, n) || self.activated[n] || self.inbox[n].len() > 0
    }

    /// The due nodes below `k`, in ascending order.
    pub open spec fn due_below(self, g: Graph, k: nat) -> Seq<usize>
        decreases k,
    {
        if k == 0 {
            Seq::<usize>::empty()
        } else if self.due(g, k - 1) {
            self.due_below(g, (k - 1) as nat).push((k - 1) as usize)
        } else {
            self.due_below(g, (k - 1) as nat)
        }
    }

    /// The nodes of the next superstep, in ascending order.
    pub open spec fn plan(self, g: Graph) -> Seq<usize> {
        self.due_below(g, g.nodes@.len())
    }

    /// What node `n` is handed when it runs on this state.
    pub open spec fn task_for(self, g: Graph, n: usize) -> TaskModel {
        TaskModel {
            node: n,
            reads: Seq::new(
                g.nodes@[n as int].reads@.len(),
                |j: int| self.channels[g.nodes@[n as int].reads@[j] as int].items,
            ),
            payloads: self.inbox[n as int],
        }
    }

    /// The tasks of the next superstep.
    pub open spec fn tasks(self, g: Graph) -> Seq<TaskModel> {
        self.tasks_below(g, g.nodes@.len())
    }

    /// Why an update fails at channel `c`, if it does: the channel refuses the
    /// values proposed for it, or it changes and its version cannot advance.
    pub open spec fn update_error(self, proposals: Seq<Seq<Value>>, c: int) -> Option<ChannelError> {
        if !self.channels[c].accepts(proposals[c]) {
            Some(ChannelError::MultipleValues)
        } else if self.channels[c].changed_by(proposals[c]) && self.versions[c] == u64::MAX {
            Some(ChannelError::VersionExhausted)
        } else {
            None
        }
    }

    /// The update succeeds at every channel.
    pub open spec fn can_update(self, proposals: Seq<Seq<Value>>) -> bool {
        forall|c: int| 0 <= c < self.channels.len() ==> (#[trigger] self.update_error(proposals, c)) is None
    }

    /// The first channel below `k` at which an update fails, with the reason.
    pub open spec fn first_error_below(self, proposals: Seq<Seq<Value>>, k: nat) -> Option<(usize, ChannelError)>
        decreases k,
    {
        if k == 0 {
            None
        } else {
            match self.first_error_below(proposals, (k - 1) as nat) {
                Some(found) => Some(found),
                None => match self.update_error(proposals, k - 1) {
                    Some(e) => Some(((k - 1) as usize, e)),
                    None => None,
                },
            }
        }
    }

    /// The first channel at which an update fails, with the reason.
    pub open spec fn first_error(self, proposals: Seq<Seq<Value>>) -> Option<(usize, ChannelError)> {
        self.first_error_below(proposals, self.channels.len())
    }

    /// The version of channel `c` after an update: one more if the channel changed.
    pub open spec fn version_after(self, proposals: Seq<Seq<Value>>, c: int) -> u64 {
        if self.channels[c].changed_by(proposals[c]) {
            (self.versions[c] + 1) as u64
        } else {
            self.versions[c]
        }
    }

    /// The state after every channel took the values proposed for it.
    pub open spec fn updated(self, proposals: Seq<Seq<Value>>, f: spec_fn(u64, Value, Value) -> Value) -> StateModel {
        StateModel {
            channels: Seq::new(self.channels.len(), |c: int| self.channels[c].after(proposals[c], f)),
            versions: Seq::new(self.versions.len(), |c: int| self.version_after(proposals, c)),
            seen: self.seen,
            activated: self.activated,
            inbox: self.inbox,
        }
    }

    /// The channels that an update changes, in ascending order, below `k`.
    pub open spec fn changed_below(self, proposals: Seq<Seq<Value>>, k: nat) -> Seq<usize>
        decreases k,
    {
        if k == 0 {
            Seq::<usize>::empty()
        } else if self.channels[k - 1].changed_by(proposals[k - 1]) {
            self.changed_below(proposals, (k - 1) as nat).push((k - 1) as usize)
        } else {
            self.changed_below(proposals, (k - 1) as nat)
        }
    }

    /// What the tasks of `nodes` propose for each channel.
    pub open spec fn proposals(self, g: Graph, nodes: Seq<usize>, outs: Seq<OutputModel>) -> Seq<Seq<Value>> {
        Seq::new(self.channels.len(), |c: int| gathered(g, nodes, outs, c as usize))
    }

    /// What an input proposes for each channel: only the input channels of the
    /// graph take input.
    pub open spec fn input_proposals(self, g: Graph, input: Seq<Write>) -> Seq<Seq<Value>> {
        Seq::new(self.channels.len(), |c: int| task_writes(g.inputs@, input, c as usize))
    }

    /// Why the merge fails at channel `c`, if it does.
    pub open spec fn merge_error(self, g: Graph, nodes: Seq<usize>, outs: Seq<OutputModel>, c: int) -> Option<
        ChannelError,
    > {
        self.update_error(self.proposals(g, nodes, outs), c)
    }

    /// The merge succeeds at every channel.
    pub open spec fn can_merge(self, g: Graph, nodes: Seq<usize>, outs: Seq<OutputModel>) -> bool {
        self.can_update(self.proposals(g, nodes, outs))
    }

    /// What node `n` has seen of channel `c` after the merge: a node that ran has
    /// seen the version that the channel had when the superstep began.
    pub open spec fn seen_after(self, g: Graph, nodes: Seq<usize>, n: int, c: int) -> u64 {
        if nodes.contains(n as usize) && g.nodes@[n].observes(c as usize) {
            self.versions[c]
        } else {
            self.seen[n][c]
        }
    }

    /// The state after the tasks of `nodes` ran on this state and handed back
    /// `outs`, provided the merge succeeds.
    pub open spec fn merged(
        self,
        g: Graph,
        nodes: Seq<usize>,
        outs: Seq<OutputModel>,
        f: spec_fn(u64, Value, Value) -> Value,
    ) -> StateModel {
        let after = self.updated(self.proposals(g, nodes, outs), f);
        StateModel {
            channels: after.channels,
            versions: after.versions,
            seen: Seq::new(
                self.seen.len(),
                |n: int| Seq::new(self.versions.len(), |c: int| self.seen_after(g, nodes, n, c)),
            ),
            activated: Seq::new(self.activated.len(), |m: int| reached(g, nodes, outs, m as usize)),
            inbox: Seq::new(self.inbox.len(), |m: int| mailed_upto(outs, m as usize, nodes.len())),
        }
    }

    /// The channels that the merge changes, in ascending order.
    pub open spec fn merge_changes(self, g: Graph, nodes: Seq<usize>, outs: Seq<OutputModel>) -> Seq<usize> {
        self.changed_below(self.proposals(g, nodes, outs), self.channels.len())
    }

    /// The state of a run of `g` before anything was written.
    pub open spec fn fresh(g: Graph) -> StateModel {
        StateModel {
            channels: Seq::new(
                g.channels@.len(),
                |c: int|
                    ChannelModel {
                        kind: g.channels@[c].kind,
                        operator: declared_operator(g.channels@[c]),
                        items: Seq::<Value>::empty(),
                    },
            ),
            versions: Seq::new(g.channels@.len(), |c: int| 0u64),
            seen: Seq::new(g.nodes@.len(), |n: int| Seq::new(g.channels@.len(), |c: int| 0u64)),
            activated: Seq::new(g.nodes@.len(), |n: int| false),
            inbox: Seq::new(g.nodes@.len(), |n: int| Seq::<Value>::empty()),
        }
    }

    /// The tasks of the due nodes below `k`.
    pub open spec fn tasks_below(self, g: Graph, k: nat) -> Seq<TaskModel> {
        Seq::new(self.due_below(g, k).len(), |i: int| self.task_for(g, self.due_below(g, k)[i]))
    }

    /// The contents of every channel.
    pub open spec fn contents(self) -> Seq<Seq<Value>> {
        Seq::new(self.channels.len(), |c: int| self.channels[c].items)
    }

    /// The contents of the channels in `wanted` that exist and hold a value, each
    /// with its index, in the order of `wanted`.
    pub open spec fn projection(self, wanted: Seq<usize>) -> Seq<(usize, Seq<Value>)>
        decreases wanted.len(),
    {
        if wanted.len() == 0 {
            Seq::<(usize, Seq<Value>)>::empty()
        } else {
            let before = self.projection(wanted.drop_last());
            let c = wanted.last();
            if c < self.channels.len() && self.channels[c as int].items.len() > 0 {
                before.push((c, self.channels[c as int].items))
            } else {
                before
            }
        }
    }
}

/// The due nodes are nodes of the graph, in strictly ascending order, and a node
/// is among them exactly if it is due.
pub proof fn lemma_due_below(s: StateModel, g: Graph, k: nat)
    requires
        k <= g.nodes@.len(),
    ensures
        s.due_below(g, k).len() <= k,
        forall|i: int| 0 <= i < s.due_below(g, k).len() ==> (#[trigger] s.due_below(g, k)[i]) < k && s.due(
            g,
            s.due_below(g, k)[i] as int,
        ),
        forall|i: int, j: int|
            0 <= i < j < s.due_below(g, k).len() ==> (#[trigger] s.due_below(g, k)[i]) < (#[trigger] s.due_below(
                g,
                k,
            )[j]),
        forall|n: int| 0 <= n < k && s.due(g, n) ==> #[trigger] s.due_below(g, k).contains(n as usize),
    decreases k,
{
    if k > 0 {
        assert(g.nodes@.len() == g.nodes.len());
        let prev = s.due_below(g, (k - 1) as nat);
        lemma_due_below(s, g, (k - 1) as nat);
        let cur = s.due_below(g, k);
        let last = (k - 1) as usize;
        if s.due(g, k - 1) {
            assert(cur == prev.push(last));
            assert forall|i: int| 0 <= i < cur.len() implies (#[trigger] cur[i]) < k && s.due(g, cur[i] as int) by {
                if i < prev.len() {
                    assert(cur[i] == prev[i]);
                }
            }
            assert forall|i: int, j: int| 0 <= i < j < cur.len() implies (#[trigger] cur[i]) < (#[trigger] cur[j]) by {
                assert(cur[i] == prev[i]);
                if j < prev.len() {
                    assert(cur[j] == prev[j]);
                }
            }
            assert forall|n: int| 0 <= n < k && s.due(g, n) implies #[trigger] cur.contains(n as usize) by {
                if n < k - 1 {
                    assert(prev.contains(n as usize));
                    let i = choose|i: int| 0 <= i < prev.len() && prev[i] == n as usize;
                    assert(cur[i] == n as usize);
                } else {
                    assert(cur[cur.len() - 1] == n as usize);
                }
            }
        }
    }
}

/// The first failure below `k` is the failure of the least channel that fails.
pub proof fn lemma_first_error(s: StateModel, proposals: Seq<Seq<Value>>, k: nat)
    requires
        k <= usize::MAX,
    ensures
        s.first_error_below(proposals, k) is None <==> forall|b: int|
            0 <= b < k ==> (#[trigger] s.update_error(proposals, b)) is None,
        forall|c: usize, e: ChannelError|
            (c < k && s.update_error(proposals, c as int) == Some(e) && forall|b: int|
                0 <= b < c ==> (#[trigger] s.update_error(proposals, b)) is None) <==> s.first_error_below(
                proposals,
                k,
            ) == Some((c, e)),
    decreases k,
{
    if k > 0 {
        lemma_first_error(s, proposals, (k - 1) as nat);
        let prev = s.first_error_below(proposals, (k - 1) as nat);
        let cur = s.first_error_below(proposals, k);
        assert forall|c: usize, e: ChannelError|
            (c < k && s.update_error(proposals, c as int) == Some(e) && forall|b: int|
                0 <= b < c ==> (#[trigger] s.update_error(proposals, b)) is None) <==> cur == Some((c, e)) by {
            if cur == Some((c, e)) {
                if prev is Some {
                    assert(prev == Some((c, e)));
                } else {
                    assert(c == (k - 1) as usize);
                }
            }
            if c < k && s.update_error(proposals, c as int) == Some(e) && forall|b: int|
                0 <= b < c ==> (#[trigger] s.update_error(proposals, b)) is None {
                if c < k - 1 {
                    assert(prev == Some((c, e)));
                } else {
                    if prev is Some {
                        let found = prev->Some_0;
                        assert(s.first_error_below(proposals, (k - 1) as nat) == Some((found.0, found.1)));
                        assert(found.0 < k - 1);
                        assert(s.update_error(proposals, found.0 as int) is None);
                    }
                }
            }
        }
    }
}

/// An update that succeeds leaves a state that fits the graph.
pub proof fn lemma_updated_fits(
    s: StateModel,
    g: Graph,
    proposals: Seq<Seq<Value>>,
    f: spec_fn(u64, Value, Value) -> Value,
)
    requires
        s.fits(g),
        s.can_update(proposals),
    ensures
        s.updated(proposals, f).fits(g),
{
    let t = s.updated(proposals, f);
    assert forall|c: int| 0 <= c < t.channels.len() implies (#[trigger] t.channels[c]).wf() by {
        assert(s.channels[c].wf());
    }
    assert forall|n: int, c: int| 0 <= n < t.seen.len() && 0 <= c < t.versions.len() implies #[trigger] t.seen[n][c]
        <= t.versions[c] by {
        assert(s.seen[n][c] <= s.versions[c]);
        assert(s.update_error(proposals, c) is None);
    }
}

/// A merge that succeeds leaves a state that fits the graph.
pub proof fn lemma_merged_fits(
    s: StateModel,
    g: Graph,
    nodes: Seq<usize>,
    outs: Seq<OutputModel>,
    f: spec_fn(u64, Value, Value) -> Value,
)
    requires
        s.fits(g),
        s.can_merge(g, nodes, outs),
    ensures
        s.merged(g, nodes, outs, f).fits(g),
{
    let t = s.merged(g, nodes, outs, f);
    let proposals = s.proposals(g, nodes, outs);
    assert forall|c: int| 0 <= c < t.channels.len() implies (#[trigger] t.channels[c]).wf() by {
        assert(s.channels[c].wf());
    }
    assert forall|n: int, c: int| 0 <= n < t.seen.len() && 0 <= c < t.versions.len() implies #[trigger] t.seen[n][c]
        <= t.versions[c] by {
        assert(s.seen[n][c] <= s.versions[c]);
        assert(s.update_error(proposals, c) is None);
    }
}

/// A fresh state fits its graph.
pub proof fn lemma_fresh_fits(g: Graph)
    ensures
        StateModel::fresh(g).fits(g),
{
}

} // verus!
