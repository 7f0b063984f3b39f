//! The owner of the channels of a run, of their versions, and of what each node
//! has seen of them. Nothing else changes a channel: tasks hand back proposals,
//! and the merge applies them all or none.

use crate::channel::{Channel, ChannelKind, ChannelModel, LastValue, Reducer, Topic};
use crate::checkpoint::{list_of, text_of, Checkpoint, CHECKPOINT_VERSION};
use crate::errors::ChannelError;
use crate::graph::{all_below, has_index, Graph, Send, Write};
use crate::superstep::{
    gathered, gathered_upto, lemma_due_below, lemma_first_error, lemma_merged_fits, lemma_updated_fits,
    mailed_upto, reached, task_sends, task_writes, OutputModel, StateModel, TaskModel,
};
use crate::value::{copy_list, copy_table, is_operator, operator_of, rows, Value};
use vstd::prelude::*;

verus! {

/// What a task is handed: the node to run, the contents of the channels that it
/// reads, in the order of its list, and the payloads sent to it.
pub struct Task {
    pub node: usize,
    pub reads: Vec<Vec<Value>>,
    pub payloads: Vec<Value>,
}

/// What a task hands back: proposed writes, directives for the next superstep,
/// and the targets it chose among those of its conditional edges.
pub struct TaskOutput {
    pub writes: Vec<Write>,
    pub sends: Vec<Send>,
    pub goto: Vec<usize>,
}

impl View for Task {
    type V = TaskModel;

    open spec fn view(&self) -> TaskModel {
        TaskModel { node: self.node, reads: rows(self.reads), payloads: self.payloads@ }
    }
}

impl View for TaskOutput {
    type V = OutputModel;

    open spec fn view(&self) -> OutputModel {
        OutputModel { writes: self.writes@, sends: self.sends@, goto: self.goto@ }
    }
}

/// The models of a list of channels.
pub open spec fn models(channels: Seq<Channel>) -> Seq<ChannelModel> {
    Seq::new(channels.len(), |i: int| channels[i].model())
}

/// The models of a list of tasks.
pub open spec fn task_models(tasks: Seq<Task>) -> Seq<TaskModel> {
    Seq::new(tasks.len(), |i: int| tasks[i]@)
}

/// The models of a list of outputs.
pub open spec fn output_models(outs: Seq<TaskOutput>) -> Seq<OutputModel> {
    Seq::new(outs.len(), |i: int| outs[i]@)
}

/// The nodes of a list of tasks.
pub open spec fn task_nodes(tasks: Seq<Task>) -> Seq<usize> {
    Seq::new(tasks.len(), |i: int| tasks[i].node)
}

/// A node that may not write a channel proposes nothing for it.
pub proof fn lemma_writes_not_allowed(allowed: Seq<usize>, writes: Seq<Write>, c: usize)
    requires
        !allowed.contains(c),
    ensures
        task_writes(allowed, writes, c) == Seq::<Value>::empty(),
    decreases writes.len(),
{
    if writes.len() > 0 {
        lemma_writes_not_allowed(allowed, writes.drop_last(), c);
    }
}

/// The values that the tasks propose for channel `c`, task by task.
pub(crate) fn gather_writes(g: &Graph, nodes: &Vec<usize>, outs: &Vec<TaskOutput>, c: usize) -> (values: Vec<Value>)
    requires
        nodes@.len() == outs@.len(),
        all_below(nodes@, g.nodes@.len()),
    ensures
        values@ == gathered(*g, nodes@, output_models(outs@), c),
{
    let mut values: Vec<Value> = Vec::new();
    let mut k: usize = 0;
    while k < nodes.len()
        invariant
            k <= nodes@.len(),
            nodes@.len() == outs@.len(),
            all_below(nodes@, g.nodes@.len()),
            values@ == gathered_upto(*g, nodes@, output_models(outs@), c, k as nat),
        decreases nodes@.len() - k,
    {
        let node = &g.nodes[nodes[k]];
        let writes = &outs[k].writes;
        let ghost before = values@;
        assert(output_models(outs@)[k as int].writes == writes@);
        if node.can_write(c) {
            let mut j: usize = 0;
            assert(writes@.take(0) =~= Seq::<Write>::empty());
            assert(before + Seq::<Value>::empty() =~= before);
            while j < writes.len()
                invariant
                    j <= writes@.len(),
                    node.writable().contains(c),
                    values@ == before + task_writes(node.writable(), writes@.take(j as int), c),
                decreases writes@.len() - j,
            {
                assert(writes@.take(j + 1).drop_last() =~= writes@.take(j as int));
                assert(writes@.take(j + 1).last() == writes@[j as int]);
                if writes[j].channel == c {
                    values.push(writes[j].value);
                    assert(values@ =~= before + task_writes(node.writable(), writes@.take(j + 1), c));
                }
                j = j + 1;
            }
            assert(writes@.take(j as int) =~= writes@);
        } else {
            proof {
                lemma_writes_not_allowed(node.writable(), writes@, c);
                assert(before + Seq::<Value>::empty() =~= before);
            }
        }
        k = k + 1;
    }
    values
}

/// The values that an input holds for channel `c`, if `c` takes input.
pub(crate) fn gather_input(g: &Graph, input: &Vec<Write>, c: usize) -> (values: Vec<Value>)
    ensures
        values@ == task_writes(g.inputs@, input@, c),
{
    let mut values: Vec<Value> = Vec::new();
    if has_index(&g.inputs, c) {
        let mut j: usize = 0;
        assert(input@.take(0) =~= Seq::<Write>::empty());
        while j < input.len()
            invariant
                j <= input@.len(),
                g.inputs@.contains(c),
                values@ == task_writes(g.inputs@, input@.take(j as int), c),
            decreases input@.len() - j,
        {
            assert(input@.take(j + 1).drop_last() =~= input@.take(j as int));
            assert(input@.take(j + 1).last() == input@[j as int]);
            if input[j].channel == c {
                values.push(input[j].value);
            }
            j = j + 1;
        }
        assert(input@.take(j as int) =~= input@);
    } else {
        proof {
            lemma_writes_not_allowed(g.inputs@, input@, c);
        }
    }
    values
}

/// The payloads that the tasks send to node `m`, task by task.
pub(crate) fn gather_sends(outs: &Vec<TaskOutput>, m: usize) -> (payloads: Vec<Value>)
    ensures
        payloads@ == mailed_upto(output_models(outs@), m, outs@.len()),
{
    let mut payloads: Vec<Value> = Vec::new();
    let mut k: usize = 0;
    while k < outs.len()
        invariant
            k <= outs@.len(),
            payloads@ == mailed_upto(output_models(outs@), m, k as nat),
        decreases outs@.len() - k,
    {
        let sends = &outs[k].sends;
        let ghost before = payloads@;
        assert(output_models(outs@)[k as int].sends == sends@);
        let mut j: usize = 0;
        assert(sends@.take(0) =~= Seq::<Send>::empty());
        assert(before + Seq::<Value>::empty() =~= before);
        while j < sends.len()
            invariant
                j <= sends@.len(),
                payloads@ == before + task_sends(sends@.take(j as int), m),
            decreases sends@.len() - j,
        {
            assert(sends@.take(j + 1).drop_last() =~= sends@.take(j as int));
            assert(sends@.take(j + 1).last() == sends@[j as int]);
            if sends[j].target == m {
                payloads.push(sends[j].payload);
                assert(payloads@ =~= before + task_sends(sends@.take(j + 1), m));
            }
            j = j + 1;
        }
        assert(sends@.take(j as int) =~= sends@);
        k = k + 1;
    }
    payloads
}

/// Whether an edge leads to node `m` from one of the tasks.
pub(crate) fn is_reached(g: &Graph, nodes: &Vec<usize>, outs: &Vec<TaskOutput>, m: usize) -> (b: bool)
    requires
        nodes@.len() == outs@.len(),
    ensures
        b == reached(*g, nodes@, output_models(outs@), m),
{
    let mut k: usize = 0;
    while k < nodes.len()
        invariant
            k <= nodes@.len(),
            nodes@.len() == outs@.len(),
            forall|i: int| 0 <= i < k ==> !g.routed(#[trigger] nodes@[i], output_models(outs@)[i].goto, m),
        decreases nodes@.len() - k,
    {
        assert(output_models(outs@)[k as int].goto == outs@[k as int].goto@);
        if g.is_routed(nodes[k], &outs[k].goto, m) {
            return true;
        }
        k = k + 1;
    }
    false
}

/// The contents of a projection, each with the index of its channel.
pub open spec fn projected(pairs: Seq<(usize, Vec<Value>)>) -> Seq<(usize, Seq<Value>)> {
    Seq::new(pairs.len(), |i: int| (pairs[i].0, pairs[i].1@))
}

/// The state of a run: channels, versions, and what each node has seen and is owed.
pub struct ChannelManager {
    channels: Vec<Channel>,
    versions: Vec<u64>,
    seen: Vec<Vec<u64>>,
    activated: Vec<bool>,
    inbox: Vec<Vec<Value>>,
}

impl View for ChannelManager {
    type V = StateModel;

    closed spec fn view(&self) -> StateModel {
        StateModel {
            channels: models(self.channels@),
            versions: self.versions@,
            seen: rows(self.seen),
            activated: self.activated@,
            inbox: rows(self.inbox),
        }
    }
}

/// A row of `len` zeros.
fn zeros(len: usize) -> (row: Vec<u64>)
    ensures
        row@ == Seq::new(len as nat, |c: int| 0u64),
{
    let mut row: Vec<u64> = Vec::new();
    let mut c: usize = 0;
    while c < len
        invariant
            c <= len,
            row@ == Seq::new(c as nat, |c: int| 0u64),
        decreases len - c,
    {
        row.push(0);
        assert(row@ =~= Seq::new((c + 1) as nat, |c: int| 0u64));
        c = c + 1;
    }
    row
}

impl ChannelManager {
    /// The state of a run of `g` before anything was written: every channel is
    /// empty and at version 0, and no node has seen or is owed anything.
    pub fn new(g: &Graph) -> (s: ChannelManager)
        ensures
            s@ == StateModel::fresh(*g),
            s@.fits(*g),
    {
        let n_channels = g.channels.len();
        let n_nodes = g.nodes.len();
        let mut channels: Vec<Channel> = Vec::new();
        let mut c: usize = 0;
        while c < n_channels
            invariant
                c <= n_channels,
                n_channels == g.channels@.len(),
                channels@.len() == c,
                forall|i: int| 0 <= i < c ==> (#[trigger] channels@[i]).model() == StateModel::fresh(*g).channels[i],
            decreases n_channels - c,
        {
            let spec = &g.channels[c];
            let channel = match spec.kind {
                ChannelKind::LastValue => Channel::LastValue(LastValue::new(spec.typ, Some(spec.name.clone()))),
                ChannelKind::Topic => Channel::Topic(Topic::new(spec.typ, Some(spec.name.clone()))),
                ChannelKind::Reducer => Channel::Reducer(
                    Reducer::new(spec.typ, Some(spec.name.clone()), spec.operator),
                ),
            };
            assert(channel.model().items =~= Seq::<Value>::empty());
            channels.push(channel);
            c = c + 1;
        }
        let versions = zeros(n_channels);
        let mut seen: Vec<Vec<u64>> = Vec::new();
        let mut activated: Vec<bool> = Vec::new();
        let mut inbox: Vec<Vec<Value>> = Vec::new();
        let mut n: usize = 0;
        while n < n_nodes
            invariant
                n <= n_nodes,
                seen@.len() == n,
                activated@.len() == n,
                inbox@.len() == n,
                forall|i: int| 0 <= i < n ==> (#[trigger] seen@[i])@ == Seq::new(n_channels as nat, |c: int| 0u64),
                forall|i: int| 0 <= i < n ==> !(#[trigger] activated@[i]),
                forall|i: int| 0 <= i < n ==> (#[trigger] inbox@[i])@ == Seq::<Value>::empty(),
            decreases n_nodes - n,
        {
            seen.push(zeros(n_channels));
            activated.push(false);
            inbox.push(Vec::new());
            n = n + 1;
        }
        let s = ChannelManager { channels, versions, seen, activated, inbox };
        proof {
            let fresh = StateModel::fresh(*g);
            assert(s@.channels =~= fresh.channels);
            assert(s@.versions =~= fresh.versions);
            assert(s@.seen =~~= fresh.seen);
            assert(s@.activated =~= fresh.activated);
            assert(s@.inbox =~~= fresh.inbox);
        }
        s
    }

    /// Whether node `n` runs in the next superstep.
    pub fn is_due(&self, g: &Graph, n: usize) -> (b: bool)
        requires
            self@.fits(*g),
            g.wf(),
            n < g.nodes@.len(),
        ensures
            b == self@.due(*g, n as int),
    {
        if self.activated[n] || self.inbox[n].len() > 0 {
            return true;
        }
        let node = &g.nodes[n];
        assert(node.in_range(g.channels@.len()));
        let mut t: usize = 0;
        while t < node.triggers.len()
            invariant
                t <= node.triggers@.len(),
                self@.fits(*g),
                n < g.nodes@.len(),
                *node == g.nodes@[n as int],
                all_below(node.triggers@, g.channels@.len()),
                forall|a: int|
                    0 <= a < t ==> !(self@.seen[n as int][(#[trigger] node.triggers@[a]) as int]
                        < self@.versions[node.triggers@[a] as int]),
            decreases node.triggers@.len() - t,
        {
            let c = node.triggers[t];
            assert(self@.seen[n as int].len() == g.channels@.len());
            if self.seen[n][c] < self.versions[c] {
                return true;
            }
            t = t + 1;
        }
        false
    }

    /// The task of node `n` on this state.
    pub fn task_for(&self, g: &Graph, n: usize) -> (task: Task)
        requires
            self@.fits(*g),
            g.wf(),
            n < g.nodes@.len(),
        ensures
            task@ == self@.task_for(*g, n),
    {
        let node = &g.nodes[n];
        assert(node.in_range(g.channels@.len()));
        let mut reads: Vec<Vec<Value>> = Vec::new();
        let mut j: usize = 0;
        while j < node.reads.len()
            invariant
                j <= node.reads@.len(),
                self@.fits(*g),
                *node == g.nodes@[n as int],
                all_below(node.reads@, g.channels@.len()),
                reads@.len() == j,
                forall|a: int|
                    0 <= a < j ==> (#[trigger] reads@[a])@ == self@.channels[node.reads@[a] as int].items,
            decreases node.reads@.len() - j,
        {
            let c = node.reads[j];
            reads.push(self.channels[c].checkpoint());
            j = j + 1;
        }
        let task = Task { node: n, reads, payloads: copy_list(&self.inbox[n]) };
        assert(task@.reads =~~= self@.task_for(*g, n).reads);
        task
    }

    /// The tasks of the next superstep: one for each due node, in ascending order
    /// of the nodes, each with what it reads from this state.
    pub fn plan(&self, g: &Graph) -> (tasks: Vec<Task>)
        requires
            self@.fits(*g),
            g.wf(),
        ensures
            task_models(tasks@) == self@.tasks(*g),
            task_nodes(tasks@) == self@.plan(*g),
    {
        let mut tasks: Vec<Task> = Vec::new();
        let mut n: usize = 0;
        while n < g.nodes.len()
            invariant
                n <= g.nodes@.len(),
                self@.fits(*g),
                g.wf(),
                task_models(tasks@) == self@.tasks_below(*g, n as nat),
                task_nodes(tasks@) == self@.due_below(*g, n as nat),
            decreases g.nodes@.len() - n,
        {
            if self.is_due(g, n) {
                let task = self.task_for(g, n);
                let ghost before = tasks@;
                tasks.push(task);
                assert(task_nodes(tasks@) =~= self@.due_below(*g, (n + 1) as nat));
                assert forall|i: int| 0 <= i < tasks@.len() implies task_models(tasks@)[i] == self@.tasks_below(
                    *g,
                    (n + 1) as nat,
                )[i] by {
                    if i < before.len() {
                        assert(task_models(before)[i] == self@.tasks_below(*g, n as nat)[i]);
                        assert(task_nodes(before)[i] == self@.due_below(*g, n as nat)[i]);
                    }
                }
                assert(task_models(tasks@) =~= self@.tasks_below(*g, (n + 1) as nat));
            }
            n = n + 1;
        }
        tasks
    }

    /// The nodes of the next superstep, in ascending order.
    pub fn due_nodes(&self, g: &Graph) -> (nodes: Vec<usize>)
        requires
            self@.fits(*g),
            g.wf(),
        ensures
            nodes@ == self@.plan(*g),
            all_below(nodes@, g.nodes@.len()),
    {
        let mut nodes: Vec<usize> = Vec::new();
        let mut n: usize = 0;
        while n < g.nodes.len()
            invariant
                n <= g.nodes@.len(),
                self@.fits(*g),
                g.wf(),
                nodes@ == self@.due_below(*g, n as nat),
            decreases g.nodes@.len() - n,
        {
            if self.is_due(g, n) {
                nodes.push(n);
            }
            n = n + 1;
        }
        proof {
            lemma_due_below(self@, *g, g.nodes@.len());
        }
        nodes
    }

    /// What the tasks of `nodes` propose for each channel.
    fn collect(&self, g: &Graph, nodes: &Vec<usize>, outs: &Vec<TaskOutput>) -> (proposals: Vec<Vec<Value>>)
        requires
            nodes@.len() == outs@.len(),
            all_below(nodes@, g.nodes@.len()),
        ensures
            proposals@.len() == self@.channels.len(),
            rows(proposals) == self@.proposals(*g, nodes@, output_models(outs@)),
    {
        let mut proposals: Vec<Vec<Value>> = Vec::new();
        let mut c: usize = 0;
        while c < self.channels.len()
            invariant
                c <= self.channels@.len(),
                nodes@.len() == outs@.len(),
                all_below(nodes@, g.nodes@.len()),
                proposals@.len() == c,
                forall|i: int|
                    0 <= i < c ==> (#[trigger] proposals@[i])@ == gathered(
                        *g,
                        nodes@,
                        output_models(outs@),
                        i as usize,
                    ),
            decreases self.channels@.len() - c,
        {
            proposals.push(gather_writes(g, nodes, outs, c));
            c = c + 1;
        }
        assert(rows(proposals) =~~= self@.proposals(*g, nodes@, output_models(outs@)));
        proposals
    }

    /// What an input proposes for each channel.
    fn collect_input(&self, g: &Graph, input: &Vec<Write>) -> (proposals: Vec<Vec<Value>>)
        ensures
            proposals@.len() == self@.channels.len(),
            rows(proposals) == self@.input_proposals(*g, input@),
    {
        let mut proposals: Vec<Vec<Value>> = Vec::new();
        let mut c: usize = 0;
        while c < self.channels.len()
            invariant
                c <= self.channels@.len(),
                proposals@.len() == c,
                forall|i: int|
                    0 <= i < c ==> (#[trigger] proposals@[i])@ == task_writes(g.inputs@, input@, i as usize),
            decreases self.channels@.len() - c,
        {
            proposals.push(gather_input(g, input, c));
            c = c + 1;
        }
        assert(rows(proposals) =~~= self@.input_proposals(*g, input@));
        proposals
    }

    /// Applies to a copy of each channel the values proposed for it, and advances
    /// the versions of those that change. Stops at the first channel that fails.
    fn try_update<F: Fn(u64, Value, Value) -> Value>(&self, proposals: &Vec<Vec<Value>>, op: &F) -> (r: Result<
        (Vec<Channel>, Vec<u64>, Vec<usize>),
        (usize, ChannelError),
    >)
        requires
            self@.channels.len() == self@.versions.len(),
            proposals@.len() == self@.channels.len(),
            is_operator(*op),
        ensures
            r is Ok <==> self@.can_update(rows(*proposals)),
            r is Ok ==> models(r->Ok_0.0@) == self@.updated(rows(*proposals), operator_of(*op)).channels
                && r->Ok_0.1@ == self@.updated(rows(*proposals), operator_of(*op)).versions && r->Ok_0.2@
                == self@.changed_below(rows(*proposals), self@.channels.len()),
            r is Err ==> r->Err_0.0 < self@.channels.len() && self@.update_error(
                rows(*proposals),
                r->Err_0.0 as int,
            ) == Some(r->Err_0.1) && forall|b: int|
                0 <= b < r->Err_0.0 ==> (#[trigger] self@.update_error(rows(*proposals), b)) is None,
    {
        let ghost f = operator_of(*op);
        let ghost props = rows(*proposals);
        let mut channels: Vec<Channel> = Vec::new();
        let mut versions: Vec<u64> = Vec::new();
        let mut changed: Vec<usize> = Vec::new();
        let mut c: usize = 0;
        while c < self.channels.len()
            invariant
                c <= self.channels@.len(),
                self@.channels.len() == self@.versions.len(),
                proposals@.len() == self@.channels.len(),
                props == rows(*proposals),
                f == operator_of(*op),
                is_operator(*op),
                channels@.len() == c,
                versions@.len() == c,
                forall|b: int| 0 <= b < c ==> (#[trigger] self@.update_error(props, b)) is None,
                forall|b: int|
                    0 <= b < c ==> (#[trigger] channels@[b]).model() == self@.channels[b].after(props[b], f),
                forall|b: int| 0 <= b < c ==> (#[trigger] versions@[b]) == self@.version_after(props, b),
                changed@ == self@.changed_below(props, c as nat),
            decreases self.channels@.len() - c,
        {
            let mut channel = self.channels[c].copy();
            assert(props[c as int] == proposals@[c as int]@);
            match channel.update(&proposals[c], op) {
                Err(e) => {
                    return Err((c, e));
                },
                Ok(moved) => {
                    if moved {
                        if self.versions[c] == u64::MAX {
                            return Err((c, ChannelError::VersionExhausted));
                        }
                        versions.push(self.versions[c] + 1);
                        changed.push(c);
                    } else {
                        versions.push(self.versions[c]);
                    }
                    channels.push(channel);
                },
            }
            c = c + 1;
        }
        proof {
            let after = self@.updated(props, f);
            assert(models(channels@) =~= after.channels);
            assert(versions@ =~= after.versions);
        }
        Ok((channels, versions, changed))
    }

    /// What each node has seen after the tasks of `nodes` ran.
    fn seen_rows(&self, g: &Graph, nodes: &Vec<usize>) -> (table: Vec<Vec<u64>>)
        requires
            self@.fits(*g),
        ensures
            rows(table) == Seq::new(
                self@.seen.len(),
                |n: int| Seq::new(self@.versions.len(), |c: int| self@.seen_after(*g, nodes@, n, c)),
            ),
    {
        let mut table: Vec<Vec<u64>> = Vec::new();
        let mut n: usize = 0;
        while n < self.seen.len()
            invariant
                n <= self.seen@.len(),
                self@.fits(*g),
                table@.len() == n,
                forall|i: int|
                    0 <= i < n ==> (#[trigger] table@[i])@ == Seq::new(
                        self@.versions.len(),
                        |c: int| self@.seen_after(*g, nodes@, i, c),
                    ),
            decreases self.seen@.len() - n,
        {
            let ran = has_index(nodes, n);
            let node = &g.nodes[n];
            let mut row: Vec<u64> = Vec::new();
            let mut c: usize = 0;
            assert(self@.seen[n as int].len() == self@.versions.len());
            while c < self.versions.len()
                invariant
                    c <= self.versions@.len(),
                    self@.fits(*g),
                    n < self.seen@.len(),
                    ran == nodes@.contains(n),
                    *node == g.nodes@[n as int],
                    row@.len() == c,
                    forall|b: int| 0 <= b < c ==> (#[trigger] row@[b]) == self@.seen_after(*g, nodes@, n as int, b),
                decreases self.versions@.len() - c,
            {
                assert(self@.seen[n as int].len() == self@.versions.len());
                if ran && (has_index(&node.triggers, c) || has_index(&node.reads, c)) {
                    row.push(self.versions[c]);
                } else {
                    row.push(self.seen[n][c]);
                }
                c = c + 1;
            }
            assert(row@ =~= Seq::new(self@.versions.len(), |c: int| self@.seen_after(*g, nodes@, n as int, c)));
            table.push(row);
            n = n + 1;
        }
        assert(rows(table) =~~= Seq::new(
            self@.seen.len(),
            |n: int| Seq::new(self@.versions.len(), |c: int| self@.seen_after(*g, nodes@, n, c)),
        ));
        table
    }

    /// Merges what the tasks of one superstep hand back, all of it or none. The
    /// tasks ran for `nodes`, and `outs` holds what each handed back, in the same
    /// order. For each channel the writes of all tasks are applied in the order of
    /// the tasks; a write to a channel that its node cannot write is dropped.
    /// If a channel refuses its writes, or the version of a channel that changes
    /// cannot advance, the first such channel and the reason come back and the
    /// state is as before. Otherwise the channels are updated, the version of each
    /// channel that changed goes up by one, each node that ran has seen its
    /// channels as the superstep found them, the nodes reached by edges and the
    /// payloads sent are noted for the next superstep, and the channels that
    /// changed come back in ascending order.
    pub fn apply_writes<F: Fn(u64, Value, Value) -> Value>(
        &mut self,
        g: &Graph,
        nodes: &Vec<usize>,
        outs: &Vec<TaskOutput>,
        op: &F,
    ) -> (r: Result<Vec<usize>, (usize, ChannelError)>)
        requires
            old(self)@.fits(*g),
            g.wf(),
            is_operator(*op),
            nodes@.len() == outs@.len(),
            all_below(nodes@, g.nodes@.len()),
        ensures
            final(self)@.fits(*g),
            r is Ok <==> old(self)@.can_merge(*g, nodes@, output_models(outs@)),
            r is Ok ==> final(self)@ == old(self)@.merged(*g, nodes@, output_models(outs@), operator_of(*op))
                && r->Ok_0@ == old(self)@.merge_changes(*g, nodes@, output_models(outs@)),
            r is Ok <==> old(self)@.first_error(old(self)@.proposals(*g, nodes@, output_models(outs@))) is None,
            r is Err ==> old(self)@.first_error(old(self)@.proposals(*g, nodes@, output_models(outs@))) == Some(
                r->Err_0,
            ),
            r is Err ==> final(self)@ == old(self)@ && r->Err_0.0 < g.channels@.len() && old(self)@.merge_error(
                *g,
                nodes@,
                output_models(outs@),
                r->Err_0.0 as int,
            ) == Some(r->Err_0.1) && forall|b: int|
                0 <= b < r->Err_0.0 ==> (#[trigger] old(self)@.merge_error(*g, nodes@, output_models(outs@), b))
                    is None,
    {
        let ghost before = self@;
        let ghost models_out = output_models(outs@);
        let proposals = self.collect(g, nodes, outs);
        proof {
            assert(self@.channels.len() == self.channels.len());
            lemma_first_error(before, rows(proposals), before.channels.len());
        }
        match self.try_update(&proposals, op) {
            Err(e) => Err(e),
            Ok((channels, versions, changed)) => {
                let seen = self.seen_rows(g, nodes);
                let mut activated: Vec<bool> = Vec::new();
                let mut inbox: Vec<Vec<Value>> = Vec::new();
                let mut m: usize = 0;
                while m < g.nodes.len()
                    invariant
                        m <= g.nodes@.len(),
                        nodes@.len() == outs@.len(),
                        models_out == output_models(outs@),
                        activated@.len() == m,
                        inbox@.len() == m,
                        forall|i: int|
                            0 <= i < m ==> (#[trigger] activated@[i]) == reached(*g, nodes@, models_out, i as usize),
                        forall|i: int|
                            0 <= i < m ==> (#[trigger] inbox@[i])@ == mailed_upto(
                                models_out,
                                i as usize,
                                nodes@.len(),
                            ),
                    decreases g.nodes@.len() - m,
                {
                    activated.push(is_reached(g, nodes, outs, m));
                    inbox.push(gather_sends(outs, m));
                    m = m + 1;
                }
                *self = ChannelManager { channels, versions, seen, activated, inbox };
                proof {
                    let after = before.merged(*g, nodes@, models_out, operator_of(*op));
                    assert(self@.activated =~= after.activated);
                    assert(self@.inbox =~~= after.inbox);
                    assert(self@.seen =~~= after.seen);
                    lemma_merged_fits(before, *g, nodes@, models_out, operator_of(*op));
                }
                Ok(changed)
            },
        }
    }

    /// Writes the input of a run, all of it or none. Only the input channels of
    /// the graph take input; a write to another channel is dropped. If a channel
    /// refuses its writes, or its version cannot advance, the first such channel
    /// and the reason come back and the state is as before. Otherwise the channels
    /// that changed come back in ascending order, each one version further.
    pub fn write_input<F: Fn(u64, Value, Value) -> Value>(&mut self, g: &Graph, input: &Vec<Write>, op: &F) -> (r:
        Result<Vec<usize>, (usize, ChannelError)>)
        requires
            old(self)@.fits(*g),
            is_operator(*op),
        ensures
            final(self)@.fits(*g),
            r is Ok <==> old(self)@.can_update(old(self)@.input_proposals(*g, input@)),
            r is Ok ==> final(self)@ == old(self)@.updated(
                old(self)@.input_proposals(*g, input@),
                operator_of(*op),
            ) && r->Ok_0@ == old(self)@.changed_below(
                old(self)@.input_proposals(*g, input@),
                old(self)@.channels.len(),
            ),
            r is Ok <==> old(self)@.first_error(old(self)@.input_proposals(*g, input@)) is None,
            r is Err ==> old(self)@.first_error(old(self)@.input_proposals(*g, input@)) == Some(r->Err_0),
            r is Err ==> final(self)@ == old(self)@ && r->Err_0.0 < g.channels@.len() && old(self)@.update_error(
                old(self)@.input_proposals(*g, input@),
                r->Err_0.0 as int,
            ) == Some(r->Err_0.1) && forall|b: int|
                0 <= b < r->Err_0.0 ==> (#[trigger] old(self)@.update_error(
                    old(self)@.input_proposals(*g, input@),
                    b,
                )) is None,
    {
        let ghost before = self@;
        let proposals = self.collect_input(g, input);
        proof {
            assert(self@.channels.len() == self.channels.len());
            lemma_first_error(before, rows(proposals), before.channels.len());
        }
        match self.try_update(&proposals, op) {
            Err(e) => Err(e),
            Ok((channels, versions, changed)) => {
                self.channels = channels;
                self.versions = versions;
                proof {
                    lemma_updated_fits(before, *g, before.input_proposals(*g, input@), operator_of(*op));
                }
                Ok(changed)
            },
        }
    }

    /// The contents of the channels in `wanted` that exist and hold a value, each
    /// with the index of its channel, in the order of `wanted`.
    pub fn project(&self, wanted: &Vec<usize>) -> (out: Vec<(usize, Vec<Value>)>)
        ensures
            projected(out@) == self@.projection(wanted@),
    {
        let mut out: Vec<(usize, Vec<Value>)> = Vec::new();
        let mut j: usize = 0;
        assert(wanted@.take(0) =~= Seq::<usize>::empty());
        assert(projected(out@) =~= self@.projection(wanted@.take(0)));
        while j < wanted.len()
            invariant
                j <= wanted@.len(),
                projected(out@) == self@.projection(wanted@.take(j as int)),
            decreases wanted@.len() - j,
        {
            let c = wanted[j];
            let ghost before = out@;
            assert(wanted@.take(j + 1).drop_last() =~= wanted@.take(j as int));
            assert(wanted@.take(j + 1).last() == c);
            if c < self.channels.len() && self.channels[c].is_available() {
                out.push((c, self.channels[c].checkpoint()));
                assert(projected(out@) =~= projected(before).push((c, self@.channels[c as int].items)));
            }
            j = j + 1;
        }
        assert(wanted@.take(j as int) =~= wanted@);
        out
    }

    /// The contents of every channel, by index.
    fn contents(&self) -> (table: Vec<Vec<Value>>)
        ensures
            rows(table) == self@.contents(),
    {
        let mut table: Vec<Vec<Value>> = Vec::new();
        let mut c: usize = 0;
        while c < self.channels.len()
            invariant
                c <= self.channels@.len(),
                table@.len() == c,
                forall|i: int| 0 <= i < c ==> (#[trigger] table@[i])@ == self@.channels[i].items,
            decreases self.channels@.len() - c,
        {
            table.push(self.channels[c].checkpoint());
            c = c + 1;
        }
        assert(rows(table) =~~= self@.contents());
        table
    }

    /// A checkpoint that holds this state, under the given id, time, parent and
    /// count of supersteps.
    pub fn checkpoint(
        &self,
        id: String,
        ts: String,
        parent_id: Option<String>,
        step: u64,
        updated_channels: Option<Vec<usize>>,
    ) -> (cp: Checkpoint)
        ensures
            cp@.v == CHECKPOINT_VERSION,
            cp@.step == step,
            cp@.id == id@,
            cp@.ts == ts@,
            cp@.parent_id == text_of(parent_id),
            cp@.updated_channels == list_of(updated_channels),
            cp@.holds(self@),
    {
        Checkpoint {
            v: CHECKPOINT_VERSION,
            id,
            ts,
            parent_id,
            step,
            channel_values: self.contents(),
            channel_versions: copy_list(&self.versions),
            versions_seen: copy_table(&self.seen),
            updated_channels,
            pending_nodes: copy_list(&self.activated),
            pending_sends: copy_table(&self.inbox),
        }
    }

    /// Takes the state that a checkpoint holds, if the checkpoint suits this
    /// state, and says whether it did. A checkpoint that does not suit is refused
    /// and the state is as before.
    pub fn restore(&mut self, cp: &Checkpoint) -> (done: bool)
        ensures
            done == cp@.suits(old(self)@),
            done ==> final(self)@ == cp@.state_of(old(self)@),
            !done ==> final(self)@ == old(self)@,
    {
        let n_channels = self.channels.len();
        let n_nodes = self.seen.len();
        if cp.channel_values.len() != n_channels || cp.channel_versions.len() != n_channels
            || cp.versions_seen.len() != n_nodes || cp.pending_nodes.len() != n_nodes
            || cp.pending_sends.len() != n_nodes {
            return false;
        }
        let mut n: usize = 0;
        while n < n_nodes
            invariant
                n <= n_nodes,
                n_nodes == cp.versions_seen@.len(),
                n_channels == cp.channel_versions@.len(),
                n_channels == self@.channels.len(),
                *self == *old(self),
                forall|i: int| 0 <= i < n ==> (#[trigger] cp@.versions_seen[i]).len() == n_channels,
                forall|i: int, c: int|
                    0 <= i < n && 0 <= c < n_channels ==> #[trigger] cp@.versions_seen[i][c]
                        <= cp@.channel_versions[c],
            decreases n_nodes - n,
        {
            let row = &cp.versions_seen[n];
            assert(cp@.versions_seen[n as int] == row@);
            if row.len() != n_channels {
                return false;
            }
            let mut c: usize = 0;
            while c < n_channels
                invariant
                    c <= n_channels,
                    n < n_nodes,
                    n_nodes == cp.versions_seen@.len(),
                    n_channels == cp.channel_versions@.len(),
                    n_channels == self@.channels.len(),
                    *self == *old(self),
                    cp@.versions_seen[n as int] == row@,
                    row@.len() == n_channels,
                    forall|b: int| 0 <= b < c ==> #[trigger] row@[b] <= cp@.channel_versions[b],
                decreases n_channels - c,
            {
                if row[c] > cp.channel_versions[c] {
                    assert(!(cp@.versions_seen[n as int][c as int] <= cp@.channel_versions[c as int]));
                    return false;
                }
                c = c + 1;
            }
            n = n + 1;
        }
        let mut channels: Vec<Channel> = Vec::new();
        let mut c: usize = 0;
        while c < n_channels
            invariant
                c <= n_channels,
                n_channels == self@.channels.len(),
                n_channels == cp.channel_values@.len(),
                *self == *old(self),
                channels@.len() == c,
                forall|b: int|
                    0 <= b < c ==> (#[trigger] self@.channels[b]).with_items(cp@.channel_values[b]).wf(),
                forall|b: int|
                    0 <= b < c ==> (#[trigger] channels@[b]).model() == self@.channels[b].with_items(
                        cp@.channel_values[b],
                    ),
            decreases n_channels - c,
        {
            let mut channel = self.channels[c].copy();
            assert(cp@.channel_values[c as int] == cp.channel_values@[c as int]@);
            if !channel.restore(&cp.channel_values[c]) {
                assert(!self@.channels[c as int].with_items(cp@.channel_values[c as int]).wf());
                return false;
            }
            channels.push(channel);
            c = c + 1;
        }
        let ghost before = self@;
        *self = ChannelManager {
            channels,
            versions: copy_list(&cp.channel_versions),
            seen: copy_table(&cp.versions_seen),
            activated: copy_list(&cp.pending_nodes),
            inbox: copy_table(&cp.pending_sends),
        };
        assert(self@.channels =~= cp@.state_of(before).channels);
        true
    }

    /// The version of channel `c`, if there is such a channel.
    pub fn version(&self, c: usize) -> (v: Option<u64>)
        ensures
            v == (if c < self@.versions.len() {
                Some(self@.versions[c as int])
            } else {
                None
            }),
    {
        if c < self.versions.len() {
            Some(self.versions[c])
        } else {
            None
        }
    }

    /// The values that channel `c` holds, oldest first. There is nothing to read
    /// if the channel is empty or does not exist.
    pub fn get(&self, c: usize) -> (r: Result<Vec<Value>, ChannelError>)
        ensures
            r is Ok <==> c < self@.channels.len() && self@.channels[c as int].items.len() > 0,
            r is Ok ==> r->Ok_0@ == self@.channels[c as int].items,
            r is Err ==> r->Err_0 == ChannelError::EmptyChannelRead,
    {
        if c < self.channels.len() {
            self.channels[c].get()
        } else {
            Err(ChannelError::EmptyChannelRead)
        }
    }

    /// Tells every channel that the run ends. No channel holds resources of a
    /// run, so the state is as before.
    pub fn finish(&mut self)
        ensures
            final(self)@ == old(self)@,
    {
    }
}

} // verus!
