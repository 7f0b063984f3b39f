//! What holds of every run: isolation within a superstep, termination of graphs
//! without cycles, and that a run resumed from a checkpoint goes on as the run
//! that was never stopped.
//!
//! The laws speak of runs in which a node is a function from what it is handed to
//! what it hands back.

use crate::checkpoint::{lemma_checkpoint_round_trip, CheckpointModel};
use crate::graph::{Graph, Send, Write};
use crate::executor::DriveModel;
use crate::pregel::{meets, LoopModel, Phase, ResultModel, RunConfig};
use crate::store::selected;
use crate::superstep::{
    gathered_upto, lemma_due_below, lemma_first_error, lemma_fresh_fits, lemma_merged_fits, lemma_updated_fits,
    mailed_upto, task_sends, task_writes, OutputModel, StateModel, TaskModel,
};
use crate::value::Value;
use vstd::prelude::*;

verus! {

/// What the tasks of the next superstep hand back when every node behaves as `beh`.
pub open spec fn outputs_of(g: Graph, s: StateModel, beh: spec_fn(TaskModel) -> OutputModel) -> Seq<OutputModel> {
    Seq::new(s.plan(g).len(), |k: int| beh(s.task_for(g, s.plan(g)[k])))
}

/// The state after one superstep in which every node behaves as `beh`.
pub open spec fn superstep(
    g: Graph,
    s: StateModel,
    beh: spec_fn(TaskModel) -> OutputModel,
    f: spec_fn(u64, Value, Value) -> Value,
) -> StateModel {
    s.merged(g, s.plan(g), outputs_of(g, s, beh), f)
}

/// The run is done: no node is due.
pub open spec fn is_done(g: Graph, s: StateModel) -> bool {
    s.plan(g).len() == 0
}

/// The run fails: nodes are due, and a channel refuses what they hand back.
pub open spec fn fails(g: Graph, s: StateModel, beh: spec_fn(TaskModel) -> OutputModel) -> bool {
    !is_done(g, s) && !s.can_merge(g, s.plan(g), outputs_of(g, s, beh))
}

/// The state one superstep later. A run that is done or fails keeps its state.
pub open spec fn next_state(
    g: Graph,
    s: StateModel,
    beh: spec_fn(TaskModel) -> OutputModel,
    f: spec_fn(u64, Value, Value) -> Value,
) -> StateModel {
    if is_done(g, s) || fails(g, s, beh) {
        s
    } else {
        superstep(g, s, beh, f)
    }
}

/// The state `n` supersteps later.
pub open spec fn state_after(
    g: Graph,
    s: StateModel,
    beh: spec_fn(TaskModel) -> OutputModel,
    f: spec_fn(u64, Value, Value) -> Value,
    n: nat,
) -> StateModel
    decreases n,
{
    if n == 0 {
        s
    } else {
        next_state(g, state_after(g, s, beh, f, (n - 1) as nat), beh, f)
    }
}

/// Every state of a run fits the graph.
pub proof fn lemma_state_after_fits(
    g: Graph,
    s: StateModel,
    beh: spec_fn(TaskModel) -> OutputModel,
    f: spec_fn(u64, Value, Value) -> Value,
    n: nat,
)
    requires
        s.fits(g),
    ensures
        state_after(g, s, beh, f, n).fits(g),
    decreases n,
{
    if n > 0 {
        let before = state_after(g, s, beh, f, (n - 1) as nat);
        lemma_state_after_fits(g, s, beh, f, (n - 1) as nat);
        if !(is_done(g, before) || fails(g, before, beh)) {
            lemma_merged_fits(before, g, before.plan(g), outputs_of(g, before, beh), f);
        }
    }
}

/// Running `k` supersteps and then `j` more is running `k + j` supersteps.
pub proof fn lemma_state_after_add(
    g: Graph,
    s: StateModel,
    beh: spec_fn(TaskModel) -> OutputModel,
    f: spec_fn(u64, Value, Value) -> Value,
    k: nat,
    j: nat,
)
    ensures
        state_after(g, state_after(g, s, beh, f, k), beh, f, j) == state_after(g, s, beh, f, k + j),
    decreases j,
{
    if j > 0 {
        lemma_state_after_add(g, s, beh, f, k, (j - 1) as nat);
        assert((k + j - 1) as nat == k + (j - 1) as nat);
    }
}

/// Versions only advance. A merge that succeeds leaves the version of every
/// channel where it was or one further, one further exactly for the channels
/// that changed, and no node has then seen more of a channel than its version.
pub proof fn lemma_versions_only_advance(
    g: Graph,
    s: StateModel,
    nodes: Seq<usize>,
    outs: Seq<OutputModel>,
    f: spec_fn(u64, Value, Value) -> Value,
    c: int,
)
    requires
        s.fits(g),
        s.can_merge(g, nodes, outs),
        0 <= c < s.channels.len(),
    ensures
        s.channels[c].changed_by(s.proposals(g, nodes, outs)[c]) ==> s.merged(g, nodes, outs, f).versions[c]
            == s.versions[c] + 1,
        !s.channels[c].changed_by(s.proposals(g, nodes, outs)[c]) ==> s.merged(g, nodes, outs, f).versions[c]
            == s.versions[c] && s.merged(g, nodes, outs, f).channels[c] == s.channels[c],
        forall|n: int|
            0 <= n < s.seen.len() ==> #[trigger] s.merged(g, nodes, outs, f).seen[n][c] <= s.merged(
                g,
                nodes,
                outs,
                f,
            ).versions[c],
{
    lemma_merged_fits(s, g, nodes, outs, f);
    assert(s.update_error(s.proposals(g, nodes, outs), c) is None);
    let t = s.merged(g, nodes, outs, f);
    assert forall|n: int| 0 <= n < s.seen.len() implies #[trigger] t.seen[n][c] <= t.versions[c] by {
        assert(t.seen[n][c] <= t.versions[c]);
    }
}

/// The state of a run changes only when input is written, a superstep is
/// committed or a checkpoint is taken up: planning, reports on tasks and on
/// checkpoints, timeouts, and going on after an interrupt leave it as it is, and
/// so does a merge that fails.
pub proof fn lemma_state_moves_only_at_commit(
    g: Graph,
    cfg: RunConfig,
    run: LoopModel,
    k: usize,
    result: ResultModel,
    saved: bool,
    f: spec_fn(u64, Value, Value) -> Value,
)
    ensures
        run.planned(g).state == run.state,
        run.advanced(g, cfg).state == run.state,
        run.reported(g, k, result).state == run.state,
        run.checkpoint_reported(g, cfg, saved).state == run.state,
        run.timed_out().state == run.state,
        run.proceeded(g).state == run.state,
        run.merged(g, cfg, f).phase == Phase::Failed ==> run.merged(g, cfg, f).state == run.state,
{
}

/// Isolation. While a superstep executes, the state that its tasks read is
/// frozen: whatever the host reports of any task, the committed state, and with
/// it what every task of the superstep is handed, stays as it was. So no task
/// sees what another proposes.
pub proof fn lemma_reports_keep_tasks(g: Graph, run: LoopModel, k: usize, result: ResultModel)
    ensures
        run.reported(g, k, result).state == run.state,
        run.reported(g, k, result).state.tasks(g) == run.state.tasks(g),
        run.reported(g, k, result).tasks == run.tasks,
{
}

/// Isolation. What a node hands back in a superstep depends on the committed
/// state and on the node alone: two runs on the same state, in which the other
/// nodes behave differently, get the same output from it.
pub proof fn lemma_isolation(
    g: Graph,
    s: StateModel,
    beh: spec_fn(TaskModel) -> OutputModel,
    other: spec_fn(TaskModel) -> OutputModel,
    k: int,
)
    requires
        0 <= k < s.plan(g).len(),
        forall|t: TaskModel| t.node == s.plan(g)[k] ==> #[trigger] beh(t) == other(t),
    ensures
        outputs_of(g, s, beh)[k] == outputs_of(g, s, other)[k],
        outputs_of(g, s, beh)[k] == beh(s.task_for(g, s.plan(g)[k])),
{
    assert(s.task_for(g, s.plan(g)[k]).node == s.plan(g)[k]);
}

/// A merge in the scheduler is a superstep: when the outputs that are in are
/// those of nodes that behave as `beh`, and no channel refuses them, the state
/// that the merge commits is the state after one superstep.
pub proof fn lemma_merge_is_superstep(
    g: Graph,
    cfg: RunConfig,
    run: LoopModel,
    beh: spec_fn(TaskModel) -> OutputModel,
    f: spec_fn(u64, Value, Value) -> Value,
)
    requires
        run.wf(g),
        run.phase == Phase::Executing,
        run.all_done(),
        run.outputs == outputs_of(g, run.state, beh),
        !fails(g, run.state, beh),
    ensures
        run.merged(g, cfg, f).state == next_state(g, run.state, beh, f),
        run.merged(g, cfg, f).phase != Phase::Failed,
{
    let proposals = run.state.proposals(g, run.tasks, run.outputs);
    assert(run.state.channels.len() == g.channels@.len());
    assert(g.channels@.len() == g.channels.len());
    lemma_first_error(run.state, proposals, run.state.channels.len());
}

/// Node `n`, with output `out`, is a reason for node `m` to run next: `n` can
/// write a channel that triggers `m`, an edge leads from `n` to `m`, or `out`
/// sends a payload to `m`.
pub open spec fn causes(g: Graph, n: usize, out: OutputModel, m: usize) -> bool {
    ||| exists|c: usize|
        #[trigger] g.nodes@[n as int].writable().contains(c) && g.nodes@[m as int].triggers@.contains(c)
    ||| exists|e: int| 0 <= e < g.edges@.len() && (#[trigger] g.edges@[e]).source() == n && g.edges@[e].reaches(m)
    ||| exists|i: int| 0 <= i < out.sends.len() && (#[trigger] out.sends[i]).target == m
}

/// A task that proposes a value for a channel may write the channel.
proof fn lemma_task_writes_allowed(allowed: Seq<usize>, writes: Seq<Write>, c: usize)
    requires
        task_writes(allowed, writes, c).len() > 0,
    ensures
        allowed.contains(c),
    decreases writes.len(),
{
    if writes.len() > 0 {
        if !(writes.last().channel == c && allowed.contains(c)) {
            lemma_task_writes_allowed(allowed, writes.drop_last(), c);
        }
    }
}

/// A value proposed for a channel comes from a task whose node may write it.
proof fn lemma_gathered_writer(g: Graph, nodes: Seq<usize>, outs: Seq<OutputModel>, c: usize, k: nat)
    requires
        k <= nodes.len(),
        gathered_upto(g, nodes, outs, c, k).len() > 0,
    ensures
        exists|i: int| 0 <= i < k && g.nodes@[(#[trigger] nodes[i]) as int].writable().contains(c),
    decreases k,
{
    if k > 0 {
        let last = task_writes(g.nodes@[nodes[k - 1] as int].writable(), outs[k - 1].writes, c);
        if last.len() > 0 {
            lemma_task_writes_allowed(g.nodes@[nodes[k - 1] as int].writable(), outs[k - 1].writes, c);
            assert(g.nodes@[nodes[k - 1] as int].writable().contains(c));
        } else {
            lemma_gathered_writer(g, nodes, outs, c, (k - 1) as nat);
        }
    }
}

/// A payload for a node comes from a send that names the node.
proof fn lemma_task_sends_sender(sends: Seq<Send>, m: usize)
    requires
        task_sends(sends, m).len() > 0,
    ensures
        exists|i: int| 0 <= i < sends.len() && (#[trigger] sends[i]).target == m,
    decreases sends.len(),
{
    if sends.len() > 0 {
        if sends.last().target == m {
            assert(sends[sends.len() - 1].target == m);
        } else {
            lemma_task_sends_sender(sends.drop_last(), m);
            let i = choose|i: int| 0 <= i < sends.drop_last().len() && (#[trigger] sends.drop_last()[i]).target == m;
            assert(sends[i].target == m);
        }
    }
}

/// A payload for a node comes from a task that sends to the node.
proof fn lemma_mailed_sender(outs: Seq<OutputModel>, m: usize, k: nat)
    requires
        mailed_upto(outs, m, k).len() > 0,
    ensures
        exists|i: int, j: int| 0 <= i < k && 0 <= j < outs[i].sends.len() && (#[trigger] outs[i].sends[j]).target == m,
    decreases k,
{
    if k > 0 {
        let last = task_sends(outs[k - 1].sends, m);
        if last.len() > 0 {
            lemma_task_sends_sender(outs[k - 1].sends, m);
            let j = choose|j: int| 0 <= j < outs[k - 1].sends.len() && (#[trigger] outs[k - 1].sends[j]).target == m;
            assert(outs[k - 1].sends[j].target == m);
        } else {
            lemma_mailed_sender(outs, m, (k - 1) as nat);
        }
    }
}

/// Nothing runs without a reason. A node that is due after a superstep has a
/// reason among the nodes that ran in it: one of them may write a channel that
/// triggers the node, has an edge to it, or sent it a payload.
pub proof fn lemma_due_has_cause(
    g: Graph,
    s: StateModel,
    outs: Seq<OutputModel>,
    f: spec_fn(u64, Value, Value) -> Value,
    m: int,
)
    requires
        g.wf(),
        s.fits(g),
        outs.len() == s.plan(g).len(),
        s.can_merge(g, s.plan(g), outs),
        0 <= m < g.nodes@.len(),
        s.merged(g, s.plan(g), outs, f).due(g, m),
    ensures
        exists|k: int| 0 <= k < s.plan(g).len() && causes(g, #[trigger] s.plan(g)[k], outs[k], m as usize),
{
    let nodes = s.plan(g);
    let t = s.merged(g, nodes, outs, f);
    assert(g.nodes@.len() == g.nodes.len());
    lemma_due_below(s, g, g.nodes@.len());
    if t.activated[m] {
        let k = choose|k: int| 0 <= k < nodes.len() && g.routed(#[trigger] nodes[k], outs[k].goto, m as usize);
        let e = choose|e: int|
            0 <= e < g.edges@.len() && (#[trigger] g.edges@[e]).fires(nodes[k], outs[k].goto, m as usize);
        assert(g.edges@[e].source() == nodes[k] && g.edges@[e].reaches(m as usize));
        assert(causes(g, nodes[k], outs[k], m as usize));
    } else if t.inbox[m].len() > 0 {
        lemma_mailed_sender(outs, m as usize, nodes.len());
        let (k, j) = choose|k: int, j: int|
            0 <= k < nodes.len() && 0 <= j < outs[k].sends.len() && (#[trigger] outs[k].sends[j]).target == m as usize;
        assert(outs[k].sends[j].target == m as usize);
        assert(causes(g, nodes[k], outs[k], m as usize));
    } else {
        assert(t.triggered(g, m));
        let node = g.nodes@[m];
        let tr = choose|tr: int|
            0 <= tr < node.triggers@.len() && t.seen[m][(#[trigger] node.triggers@[tr]) as int]
                < t.versions[node.triggers@[tr] as int];
        let c = node.triggers@[tr];
        assert(node.in_range(g.channels@.len()));
        assert(c < g.channels@.len());
        assert(node.triggers@.contains(c));
        assert(s.seen[m].len() == g.channels@.len());
        assert(s.seen[m][c as int] <= s.versions[c as int]);
        let proposals = s.proposals(g, nodes, outs);
        if nodes.contains(m as usize) {
            assert(node.observes(c));
            assert(t.seen[m][c as int] == s.versions[c as int]);
        } else {
            assert(!s.due(g, m));
            assert(!s.triggered(g, m));
            assert(!(s.seen[m][node.triggers@[tr] as int] < s.versions[node.triggers@[tr] as int]));
            assert(t.seen[m][c as int] == s.seen[m][c as int]);
        }
        assert(t.versions[c as int] > s.versions[c as int]);
        assert(s.channels[c as int].changed_by(proposals[c as int]));
        assert(proposals[c as int].len() > 0);
        lemma_gathered_writer(g, nodes, outs, c, nodes.len());
        let k = choose|k: int| 0 <= k < nodes.len() && g.nodes@[(#[trigger] nodes[k]) as int].writable().contains(c);
        assert(g.nodes@[nodes[k] as int].writable().contains(c) && g.nodes@[m].triggers@.contains(c));
        assert(causes(g, nodes[k], outs[k], m as usize));
    }
}

/// `rank` numbers the nodes of `g` below `bound` so that every reason to run
/// points upward: a node ranks below the nodes that a channel it may write
/// triggers, and below the nodes that its edges reach. A graph has such a
/// ranking exactly if its chains of reasons have at most `bound` nodes.
pub open spec fn ranked(g: Graph, rank: Seq<nat>, bound: nat) -> bool {
    &&& rank.len() == g.nodes@.len()
    &&& forall|n: int| 0 <= n < rank.len() ==> #[trigger] rank[n] < bound
    &&& forall|n: int, m: int, c: usize|
        0 <= n < rank.len() && 0 <= m < rank.len() && #[trigger] g.nodes@[n].writable().contains(c)
            && #[trigger] g.nodes@[m].triggers@.contains(c) ==> rank[n] < rank[m]
    &&& forall|e: int, m: int|
        0 <= e < g.edges@.len() && 0 <= m < rank.len() && #[trigger] g.edges@[e].reaches(m as usize)
            ==> rank[g.edges@[e].source() as int] < rank[m]
}

/// No node behaving as `beh` sends a payload to a node that does not rank above it.
pub open spec fn sends_upward(g: Graph, rank: Seq<nat>, beh: spec_fn(TaskModel) -> OutputModel) -> bool {
    forall|t: TaskModel, i: int|
        t.node < rank.len() && 0 <= i < beh(t).sends.len() && (#[trigger] beh(t).sends[i]).target < rank.len()
            ==> rank[t.node as int] < rank[beh(t).sends[i].target as int]
}

/// Every node that is due ranks at least `j`.
pub open spec fn due_from(g: Graph, s: StateModel, rank: Seq<nat>, j: nat) -> bool {
    forall|m: int| 0 <= m < g.nodes@.len() && #[trigger] s.due(g, m) ==> rank[m] >= j
}

/// With every superstep the least rank of a due node goes up.
pub proof fn lemma_superstep_raises_rank(
    g: Graph,
    s: StateModel,
    beh: spec_fn(TaskModel) -> OutputModel,
    f: spec_fn(u64, Value, Value) -> Value,
    rank: Seq<nat>,
    bound: nat,
    j: nat,
)
    requires
        g.wf(),
        s.fits(g),
        ranked(g, rank, bound),
        sends_upward(g, rank, beh),
        due_from(g, s, rank, j),
        !is_done(g, s),
        !fails(g, s, beh),
    ensures
        due_from(g, superstep(g, s, beh, f), rank, j + 1),
{
    let nodes = s.plan(g);
    let outs = outputs_of(g, s, beh);
    let t = superstep(g, s, beh, f);
    assert(g.nodes@.len() == g.nodes.len());
    lemma_due_below(s, g, g.nodes@.len());
    assert forall|m: int| 0 <= m < g.nodes@.len() && #[trigger] t.due(g, m) implies rank[m] >= j + 1 by {
        lemma_due_has_cause(g, s, outs, f, m);
        let k = choose|k: int| 0 <= k < nodes.len() && causes(g, #[trigger] nodes[k], outs[k], m as usize);
        let n = nodes[k];
        assert(n < g.nodes@.len() && s.due(g, n as int));
        assert(rank[n as int] >= j);
        if exists|c: usize|
            #[trigger] g.nodes@[n as int].writable().contains(c) && g.nodes@[m].triggers@.contains(c) {
            let c = choose|c: usize|
                #[trigger] g.nodes@[n as int].writable().contains(c) && g.nodes@[m].triggers@.contains(c);
            assert(g.nodes@[n as int].writable().contains(c) && g.nodes@[m].triggers@.contains(c));
        } else if exists|e: int|
            0 <= e < g.edges@.len() && (#[trigger] g.edges@[e]).source() == n && g.edges@[e].reaches(m as usize) {
            let e = choose|e: int|
                0 <= e < g.edges@.len() && (#[trigger] g.edges@[e]).source() == n && g.edges@[e].reaches(
                    m as usize,
                );
            assert(g.edges@[e].reaches(m as usize));
        } else {
            let i = choose|i: int| 0 <= i < outs[k].sends.len() && (#[trigger] outs[k].sends[i]).target == m as usize;
            let task = s.task_for(g, n);
            assert(outs[k] == beh(task));
            assert(beh(task).sends[i].target == m as usize);
            assert(task.node == n);
        }
        assert(rank[n as int] < rank[m]);
    }
}

/// Termination. In a graph whose reasons to run all point upward in a ranking
/// below `bound`, with nodes that send payloads only upward, every run is over
/// after `bound` supersteps: no node is due, or the run has failed. `bound` is
/// the number of nodes on the longest chain of reasons.
pub proof fn lemma_run_ends(
    g: Graph,
    s: StateModel,
    beh: spec_fn(TaskModel) -> OutputModel,
    f: spec_fn(u64, Value, Value) -> Value,
    rank: Seq<nat>,
    bound: nat,
)
    requires
        g.wf(),
        s.fits(g),
        ranked(g, rank, bound),
        sends_upward(g, rank, beh),
    ensures
        is_done(g, state_after(g, s, beh, f, bound)) || fails(g, state_after(g, s, beh, f, bound), beh),
        next_state(g, state_after(g, s, beh, f, bound), beh, f) == state_after(g, s, beh, f, bound),
{
    lemma_rank_rises(g, s, beh, f, rank, bound, bound);
    let end = state_after(g, s, beh, f, bound);
    if !fails(g, end, beh) && !is_done(g, end) {
        assert(g.nodes@.len() == g.nodes.len());
        lemma_due_below(end, g, g.nodes@.len());
        let m = end.plan(g)[0];
        assert(end.due(g, m as int));
        assert(rank[m as int] >= bound);
    }
}

/// After `j` supersteps the run is over or every due node ranks at least `j`.
proof fn lemma_rank_rises(
    g: Graph,
    s: StateModel,
    beh: spec_fn(TaskModel) -> OutputModel,
    f: spec_fn(u64, Value, Value) -> Value,
    rank: Seq<nat>,
    bound: nat,
    j: nat,
)
    requires
        g.wf(),
        s.fits(g),
        ranked(g, rank, bound),
        sends_upward(g, rank, beh),
    ensures
        is_done(g, state_after(g, s, beh, f, j)) || fails(g, state_after(g, s, beh, f, j), beh) || due_from(
            g,
            state_after(g, s, beh, f, j),
            rank,
            j,
        ),
    decreases j,
{
    if j > 0 {
        let before = state_after(g, s, beh, f, (j - 1) as nat);
        lemma_rank_rises(g, s, beh, f, rank, bound, (j - 1) as nat);
        lemma_state_after_fits(g, s, beh, f, (j - 1) as nat);
        if !is_done(g, before) && !fails(g, before, beh) {
            lemma_superstep_raises_rank(g, before, beh, f, rank, bound, (j - 1) as nat);
        }
    }
}

/// Resume equivalence. Stop a run after any number `k` of supersteps, take a
/// checkpoint, restore it into any state of a run of the same graph, and go on
/// for `j` supersteps: the state is that of the run that was never stopped,
/// after `k + j` supersteps, and so is what the output channels show.
pub proof fn lemma_resume_equivalence(
    g: Graph,
    s: StateModel,
    base: StateModel,
    cp: CheckpointModel,
    beh: spec_fn(TaskModel) -> OutputModel,
    f: spec_fn(u64, Value, Value) -> Value,
    k: nat,
    j: nat,
)
    requires
        s.fits(g),
        base.fits(g),
        cp.holds(state_after(g, s, beh, f, k)),
    ensures
        cp.suits(base),
        state_after(g, cp.state_of(base), beh, f, j) == state_after(g, s, beh, f, k + j),
        state_after(g, cp.state_of(base), beh, f, j).projection(g.outputs@) == state_after(
            g,
            s,
            beh,
            f,
            k + j,
        ).projection(g.outputs@),
{
    lemma_state_after_fits(g, s, beh, f, k);
    lemma_checkpoint_round_trip(g, state_after(g, s, beh, f, k), base, cp);
    lemma_state_after_add(g, s, beh, f, k, j);
}

/// The node function that always succeeds, with what `beh` hands back.
pub open spec fn succeeding(beh: spec_fn(TaskModel) -> OutputModel) -> spec_fn(TaskModel) -> ResultModel {
    |held: TaskModel| ResultModel::Success(beh(held))
}

/// The run is at the start of a superstep: it is executing and no output is in.
pub open spec fn at_superstep(run: LoopModel) -> bool {
    run.phase == Phase::Executing && forall|k: int| 0 <= k < run.done.len() ==> !#[trigger] run.done[k]
}

/// The run is between supersteps of nodes that behave as `beh`: it has not been
/// asked to stop, and it is at the start of a superstep, or done, or has failed
/// on a state that stays as it is.
pub open spec fn between_supersteps(g: Graph, run: LoopModel, beh: spec_fn(TaskModel) -> OutputModel) -> bool {
    &&& run.wf(g)
    &&& !run.cancelled
    &&& (at_superstep(run) || run.phase == Phase::Done || (run.phase == Phase::Failed && (is_done(g, run.state)
        || fails(g, run.state, beh))))
}

/// No interrupts are configured.
pub open spec fn no_interrupts(cfg: RunConfig) -> bool {
    cfg.interrupt_before@.len() == 0 && cfg.interrupt_after@.len() == 0
}

/// A run at the start of a superstep, with the outputs of its first `upto` tasks
/// in, as `beh` hands them back.
pub open spec fn with_outputs(
    g: Graph,
    run: LoopModel,
    beh: spec_fn(TaskModel) -> OutputModel,
    upto: nat,
) -> LoopModel {
    LoopModel {
        done: Seq::new(run.tasks.len(), |i: int| i < upto),
        outputs: Seq::new(
            run.tasks.len(),
            |i: int|
                if i < upto {
                    beh(run.state.task_for(g, run.tasks[i]))
                } else {
                    run.outputs[i]
                },
        ),
        ..run
    }
}

/// Driving the first `upto` tasks of a superstep with nodes that succeed takes
/// their outputs in and changes nothing else.
proof fn lemma_tasks_driven(g: Graph, run: LoopModel, beh: spec_fn(TaskModel) -> OutputModel, upto: nat)
    requires
        run.wf(g),
        at_superstep(run),
        upto <= run.tasks.len(),
    ensures
        run.tasks_driven(g, succeeding(beh), upto) == with_outputs(g, run, beh, upto),
    decreases upto,
{
    let nodes = succeeding(beh);
    let target = with_outputs(g, run, beh, upto);
    assert(g.nodes@.len() == g.nodes.len());
    lemma_due_below(run.state, g, g.nodes@.len());
    if upto == 0 {
        assert(run.done =~= target.done);
        assert(run.outputs =~= target.outputs);
    } else {
        lemma_tasks_driven(g, run, beh, (upto - 1) as nat);
        let before = run.tasks_driven(g, nodes, (upto - 1) as nat);
        assert(before == with_outputs(g, run, beh, (upto - 1) as nat));
        let k = (upto - 1) as usize;
        let result = nodes(before.state.task_for(g, before.tasks[k as int]));
        assert(before.awaits(k));
        assert(before.verdict(g, k, result) == crate::pregel::TaskVerdict::Accepted);
        let after = before.task_driven(g, nodes, k);
        assert(after == before.reported(g, k, result));
        assert(after.done =~= target.done);
        assert(after.outputs =~= target.outputs);
    }
}

/// One superstep of the executor is one superstep of the run: with nodes that
/// succeed, no interrupts and no request to stop, the executor takes the state
/// of the run to the next state, and the run is again between supersteps.
pub proof fn lemma_step_is_next_state(
    g: Graph,
    cfg: RunConfig,
    d: DriveModel,
    beh: spec_fn(TaskModel) -> OutputModel,
    f: spec_fn(u64, Value, Value) -> Value,
    ts: Seq<char>,
)
    requires
        d.run.wf(g),
        !d.run.cancelled,
        at_superstep(d.run),
        no_interrupts(cfg),
    ensures
        d.stepped(g, cfg, succeeding(beh), f, ts).run.state == next_state(g, d.run.state, beh, f),
        between_supersteps(g, d.stepped(g, cfg, succeeding(beh), f, ts).run, beh),
{
    let run = d.run;
    lemma_tasks_driven(g, run, beh, run.tasks.len());
    let worked = run.tasks_driven(g, succeeding(beh), run.tasks.len());
    assert(worked == with_outputs(g, run, beh, run.tasks.len()));
    assert(worked.outputs =~= outputs_of(g, run.state, beh));
    assert(worked.all_done());
    let proposals = worked.state.proposals(g, worked.tasks, worked.outputs);
    assert(g.channels@.len() == g.channels.len());
    lemma_first_error(run.state, proposals, run.state.channels.len());
    let merged = worked.merged(g, cfg, f);
    if !fails(g, run.state, beh) {
        lemma_merged_fits(run.state, g, run.tasks, worked.outputs, f);
        let committed = LoopModel {
            state: run.state.merged(g, run.tasks, worked.outputs, f),
            step: crate::pregel::next_count(run.step),
            ran: run.tasks,
            updated: run.state.merge_changes(g, run.tasks, worked.outputs),
            unsaved: true,
            ..worked
        };
        assert(!meets(committed.state.plan(g), cfg.interrupt_before@));
        assert(!meets(committed.updated, cfg.interrupt_after@));
        assert(!committed.interrupt_due(g, cfg));
        let noted = LoopModel { unsaved: false, ..committed.resting(Phase::CheckpointPending) };
        assert(!noted.interrupt_due(g, cfg));
    }
}

/// The executor follows the run. With nodes that succeed, no interrupts and no
/// request to stop, a run that the executor drives for up to `n` supersteps is
/// in the state `n` supersteps later. So what holds of every run holds of the
/// runs that the executor drives: they end as `lemma_run_ends` says, and are
/// resumed as `lemma_resume_equivalence` says.
pub proof fn lemma_drive_follows_run(
    g: Graph,
    cfg: RunConfig,
    d: DriveModel,
    beh: spec_fn(TaskModel) -> OutputModel,
    f: spec_fn(u64, Value, Value) -> Value,
    ts: Seq<char>,
    n: nat,
)
    requires
        between_supersteps(g, d.run, beh),
        no_interrupts(cfg),
    ensures
        d.driven(g, cfg, succeeding(beh), f, ts, n).run.state == state_after(g, d.run.state, beh, f, n),
        between_supersteps(g, d.driven(g, cfg, succeeding(beh), f, ts, n).run, beh),
    decreases n,
{
    if n > 0 {
        lemma_state_after_add(g, d.run.state, beh, f, 1, (n - 1) as nat);
        assert(state_after(g, d.run.state, beh, f, 1) == next_state(g, state_after(g, d.run.state, beh, f, 0), beh, f));
        if d.run.phase == Phase::Executing {
            lemma_step_is_next_state(g, cfg, d, beh, f, ts);
            lemma_drive_follows_run(g, cfg, d.stepped(g, cfg, succeeding(beh), f, ts), beh, f, ts, (n - 1) as nat);
        } else {
            lemma_halted_stays(g, d.run.state, beh, f, n);
        }
    }
}

/// A run that is done or fails keeps its state for good.
pub proof fn lemma_halted_stays(
    g: Graph,
    s: StateModel,
    beh: spec_fn(TaskModel) -> OutputModel,
    f: spec_fn(u64, Value, Value) -> Value,
    n: nat,
)
    requires
        is_done(g, s) || fails(g, s, beh),
    ensures
        state_after(g, s, beh, f, n) == s,
    decreases n,
{
    if n > 0 {
        lemma_halted_stays(g, s, beh, f, (n - 1) as nat);
    }
}

/// Planning leaves a run between supersteps.
proof fn lemma_planned_is_between(g: Graph, run: LoopModel, beh: spec_fn(TaskModel) -> OutputModel)
    requires
        g.wf(),
        run.state.fits(g),
        !run.cancelled,
    ensures
        between_supersteps(g, run.planned(g), beh),
        run.planned(g).state == run.state,
{
}

/// A run that was just started is between supersteps.
pub proof fn lemma_started_is_between(
    g: Graph,
    input: Seq<Write>,
    beh: spec_fn(TaskModel) -> OutputModel,
    f: spec_fn(u64, Value, Value) -> Value,
)
    requires
        g.wf(),
    ensures
        between_supersteps(g, LoopModel::idle(g).started(g, input, f), beh),
{
    let idle = LoopModel::idle(g);
    let fresh = StateModel::fresh(g);
    let proposals = fresh.input_proposals(g, input);
    lemma_fresh_fits(g);
    assert(g.channels@.len() == g.channels.len());
    assert(g.nodes@.len() == g.nodes.len());
    lemma_first_error(fresh, proposals, fresh.channels.len());
    if fresh.first_error(proposals) is Some {
        lemma_due_below(fresh, g, g.nodes@.len());
        if fresh.plan(g).len() > 0 {
            let m = fresh.plan(g)[0];
            assert(fresh.due(g, m as int));
        }
    } else {
        lemma_updated_fits(fresh, g, proposals, f);
        let written = LoopModel {
            state: fresh.updated(proposals, f),
            updated: fresh.changed_below(proposals, fresh.channels.len()),
            ..idle
        };
        lemma_planned_is_between(g, written, beh);
    }
}

/// Termination, of the runs that the executor drives. In a graph whose reasons
/// to run all point upward in a ranking below `bound`, with nodes that succeed
/// and send payloads only upward, without interrupts, a run that the executor
/// drives for `bound` supersteps is over: it is done or has failed, or the
/// merge of its next superstep is refused.
pub proof fn lemma_executor_ends(
    g: Graph,
    cfg: RunConfig,
    d: DriveModel,
    beh: spec_fn(TaskModel) -> OutputModel,
    f: spec_fn(u64, Value, Value) -> Value,
    ts: Seq<char>,
    rank: Seq<nat>,
    bound: nat,
)
    requires
        between_supersteps(g, d.run, beh),
        no_interrupts(cfg),
        ranked(g, rank, bound),
        sends_upward(g, rank, beh),
    ensures
        d.driven(g, cfg, succeeding(beh), f, ts, bound).run.phase == Phase::Done || d.driven(
            g,
            cfg,
            succeeding(beh),
            f,
            ts,
            bound,
        ).run.phase == Phase::Failed || fails(g, d.driven(g, cfg, succeeding(beh), f, ts, bound).run.state, beh),
{
    lemma_drive_follows_run(g, cfg, d, beh, f, ts, bound);
    lemma_run_ends(g, d.run.state, beh, f, rank, bound);
}

/// Resume equivalence, of the runs that the executor drives. Let the executor
/// persist the checkpoint of a run that is between supersteps, and resume a
/// fresh run of the same graph from it. Then the two runs, driven for `j` more
/// supersteps with nodes that succeed and without interrupts, are in the same
/// state, and their output channels show the same.
pub proof fn lemma_executor_resumes(
    g: Graph,
    cfg: RunConfig,
    stopped: DriveModel,
    fresh: DriveModel,
    parent: Option<Seq<char>>,
    beh: spec_fn(TaskModel) -> OutputModel,
    f: spec_fn(u64, Value, Value) -> Value,
    ts: Seq<char>,
    later: Seq<char>,
    j: nat,
)
    requires
        between_supersteps(g, stopped.run, beh),
        no_interrupts(cfg),
        fresh.run == LoopModel::idle(g),
        fresh.saved.len() > 0,
        fresh.saved.last() == stopped.run.checkpoint_model(ts, parent),
    ensures
        fresh.can_resume(None),
        fresh.resumed(g, None).run.state == stopped.run.state,
        fresh.resumed(g, None).driven(g, cfg, succeeding(beh), f, later, j).run.state == stopped.driven(
            g,
            cfg,
            succeeding(beh),
            f,
            ts,
            j,
        ).run.state,
        fresh.resumed(g, None).driven(g, cfg, succeeding(beh), f, later, j).run.state.projection(g.outputs@)
            == stopped.driven(g, cfg, succeeding(beh), f, ts, j).run.state.projection(g.outputs@),
{
    let cp = stopped.run.checkpoint_model(ts, parent);
    assert(selected(fresh.saved, None) == Some(fresh.saved.len() - 1));
    lemma_fresh_fits(g);
    assert(cp.holds(stopped.run.state));
    lemma_checkpoint_round_trip(g, stopped.run.state, StateModel::fresh(g), cp);
    let restored = fresh.run.restored(cp);
    assert(restored.state == stopped.run.state);
    lemma_planned_is_between(g, LoopModel { cancelled: false, ..restored }, beh);
    lemma_drive_follows_run(g, cfg, fresh.resumed(g, None), beh, f, later, j);
    lemma_drive_follows_run(g, cfg, stopped, beh, f, ts, j);
}

} // verus!
