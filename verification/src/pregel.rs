//! The scheduler: the state machine that takes a run from superstep to superstep.
//!
//! The machine decides and the host acts. It rests in `Idle` until the run is
//! started, in `Executing` while the host runs the tasks of a superstep, in
//! `CheckpointPending` while the host persists a checkpoint that the run waits
//! for, and in `Interrupted`, `Done` or `Failed` when the run has stopped. It
//! passes through `Planning` and `Merging` inside a single call.

use crate::checkpoint::{lemma_restored_fits, text_of, Checkpoint, CheckpointModel, CHECKPOINT_VERSION};
use crate::errors::{ChannelError, ConfigError};
use crate::graph::{has_index, Graph, RetryPolicy, Write};
use crate::manager::{output_models, projected, task_models, ChannelManager, Task, TaskOutput};
use crate::superstep::{lemma_due_below, OutputModel, StateModel};
use crate::value::{copy_list, is_operator, operator_of, Value};
use vstd::prelude::*;
use vstd::string::*;

verus! {

/// Where a run stands.
#[derive(Clone, Copy, PartialEq, Eq, Structural, Debug)]
pub enum Phase {
    /// Not started.
    Idle,
    /// Working out the tasks of the next superstep.
    Planning,
    /// The host runs the tasks of the superstep.
    Executing,
    /// Applying what the tasks handed back.
    Merging,
    /// The host persists a checkpoint and the run waits for it.
    CheckpointPending,
    /// Stopped on purpose; can go on.
    Interrupted,
    /// Nothing is left to run.
    Done,
    /// Stopped by a failure; the state is the last one committed.
    Failed,
}

/// What the per-superstep events of a run show.
#[derive(Clone, Copy, PartialEq, Eq, Structural, Debug)]
pub enum StreamMode {
    /// The contents of the output channels.
    Values,
    /// The contents of the channels that the superstep changed.
    Updates,
    /// What the scheduler did.
    Debug,
}

/// When checkpoints are persisted.
#[derive(Clone, Copy, PartialEq, Eq, Structural, Debug)]
pub enum Durability {
    /// Once, when the run stops.
    Exit,
    /// After every superstep, and the run waits until it is done.
    EveryStep,
    /// After every superstep, while the run goes on.
    Async,
}

impl StreamMode {
    /// The mode of a name: `values`, `updates` or `debug`.
    pub open spec fn named(name: Seq<char>) -> Option<StreamMode> {
        if name == "values"@ {
            Some(StreamMode::Values)
        } else if name == "updates"@ {
            Some(StreamMode::Updates)
        } else if name == "debug"@ {
            Some(StreamMode::Debug)
        } else {
            None
        }
    }

    /// The mode of a name, if it is the name of a mode.
    pub fn from_name(name: &String) -> (mode: Option<StreamMode>)
        ensures
            mode == StreamMode::named(name@),
    {
        if *name == String::from_str("values") {
            Some(StreamMode::Values)
        } else if *name == String::from_str("updates") {
            Some(StreamMode::Updates)
        } else if *name == String::from_str("debug") {
            Some(StreamMode::Debug)
        } else {
            None
        }
    }
}

impl Durability {
    /// The durability of a name: `exit`, `every-step` or `async`.
    pub open spec fn named(name: Seq<char>) -> Option<Durability> {
        if name == "exit"@ {
            Some(Durability::Exit)
        } else if name == "every-step"@ {
            Some(Durability::EveryStep)
        } else if name == "async"@ {
            Some(Durability::Async)
        } else {
            None
        }
    }

    /// The durability of a name, if it is the name of one.
    pub fn from_name(name: &String) -> (durability: Option<Durability>)
        ensures
            durability == Durability::named(name@),
    {
        if *name == String::from_str("exit") {
            Some(Durability::Exit)
        } else if *name == String::from_str("every-step") {
            Some(Durability::EveryStep)
        } else if *name == String::from_str("async") {
            Some(Durability::Async)
        } else {
            None
        }
    }
}

/// Why a run failed.
#[derive(Clone, Copy, PartialEq, Eq, Structural, Debug)]
pub enum FailureKind {
    /// A channel refused the merge.
    Channel(ChannelError),
    /// A task failed for good, with this code.
    Node(Value),
    /// A task kept failing until its attempts were used up; the last code.
    RetriesExhausted(Value),
    /// The tasks of a superstep took longer than allowed.
    Timeout,
    /// A checkpoint that the run waited for could not be persisted.
    Checkpoint,
}

/// A failure, with the superstep in which it happened and, where there is one,
/// the node and the channel, each by its index in the graph.
#[derive(Clone, Copy, Debug)]
pub struct Failure {
    pub kind: FailureKind,
    pub node: Option<usize>,
    pub step: u64,
    pub channel: Option<usize>,
}

/// What the host reports of a task.
pub enum TaskResult {
    /// The task ran and hands this back.
    Success(TaskOutput),
    /// The task failed in a way that may pass, with this code.
    Retryable(Value),
    /// The task failed for good, with this code.
    Fatal(Value),
}

/// What the host reports of a task, as a mathematical value.
pub enum ResultModel {
    Success(OutputModel),
    Retryable(Value),
    Fatal(Value),
}

impl View for TaskResult {
    type V = ResultModel;

    open spec fn view(&self) -> ResultModel {
        match self {
            TaskResult::Success(out) => ResultModel::Success(out@),
            TaskResult::Retryable(code) => ResultModel::Retryable(*code),
            TaskResult::Fatal(code) => ResultModel::Fatal(*code),
        }
    }
}

/// What the scheduler makes of a reported task.
#[derive(Clone, Copy, PartialEq, Eq, Structural, Debug)]
pub enum TaskVerdict {
    /// The output is kept for the merge.
    Accepted,
    /// The host runs the task again after this many milliseconds.
    RetryAfter(u64),
    /// The task failed for good; the code of the failure is kept for the merge
    /// as a write to the failure channel of its node, and the nodes that its
    /// conditional edges lead to run next.
    Rerouted,
    /// The run has failed.
    Failed,
    /// There is no such task waiting for a result; nothing changed.
    Ignored,
}

/// What one committed superstep shows to the outside.
pub enum StepEvent {
    /// The contents of the output channels that hold a value.
    Values(Vec<(usize, Vec<Value>)>),
    /// The contents of the channels that the superstep changed.
    Updates(Vec<(usize, Vec<Value>)>),
    /// The number of supersteps committed, the nodes that ran in the last one,
    /// and the channels that it changed.
    Debug { step: u64, nodes: Vec<usize>, updated: Vec<usize> },
}

/// A step event as a mathematical value.
pub enum EventModel {
    Values(Seq<(usize, Seq<Value>)>),
    Updates(Seq<(usize, Seq<Value>)>),
    Debug { step: u64, nodes: Seq<usize>, updated: Seq<usize> },
}

impl View for StepEvent {
    type V = EventModel;

    open spec fn view(&self) -> EventModel {
        match self {
            StepEvent::Values(pairs) => EventModel::Values(projected(pairs@)),
            StepEvent::Updates(pairs) => EventModel::Updates(projected(pairs@)),
            StepEvent::Debug { step, nodes, updated } => EventModel::Debug {
                step: *step,
                nodes: nodes@,
                updated: updated@,
            },
        }
    }
}

/// How a graph is run.
pub struct RunConfig {
    /// The run stops before a superstep in which one of these nodes would run.
    pub interrupt_before: Vec<usize>,
    /// The run stops after a superstep that changed one of these channels.
    pub interrupt_after: Vec<usize>,
    pub stream_mode: StreamMode,
    pub durability: Durability,
    /// Whether the host has a store for checkpoints.
    pub checkpointer: bool,
    /// How long the tasks of one superstep may take, in milliseconds.
    pub step_timeout_ms: Option<u64>,
}

impl RunConfig {
    /// Whether a run waits for a checkpoint after each superstep.
    pub open spec fn waits_for_checkpoint(&self, degraded: bool) -> bool {
        self.checkpointer && !degraded && self.durability == Durability::EveryStep
    }
}

/// The contents of named channels, as mathematical values.
pub open spec fn named_view(pairs: Seq<(String, Vec<Value>)>) -> Seq<(Seq<char>, Seq<Value>)> {
    Seq::new(pairs.len(), |i: int| (pairs[i].0@, pairs[i].1@))
}

/// The contents of a projection under the names that `g` gives their channels;
/// an entry for a channel that `g` does not have is left out.
pub open spec fn named_pairs(g: Graph, pairs: Seq<(usize, Seq<Value>)>) -> Seq<(Seq<char>, Seq<Value>)>
    decreases pairs.len(),
{
    if pairs.len() == 0 {
        Seq::<(Seq<char>, Seq<Value>)>::empty()
    } else {
        let before = named_pairs(g, pairs.drop_last());
        if pairs.last().0 < g.channels@.len() {
            before.push((g.channels@[pairs.last().0 as int].name@, pairs.last().1))
        } else {
            before
        }
    }
}

/// A graph that can be run, with the way to run it.
pub struct Pregel {
    graph: Graph,
    config: RunConfig,
}

impl Pregel {
    /// The graph.
    pub closed spec fn graph(&self) -> Graph {
        self.graph
    }

    /// The way to run it.
    pub closed spec fn config(&self) -> RunConfig {
        self.config
    }

    /// The graph can be run.
    pub open spec fn wf(&self) -> bool {
        self.graph().wf()
    }

    /// Takes a graph that can be run, or says what is wrong with it.
    pub fn new(graph: Graph, config: RunConfig) -> (r: Result<Pregel, ConfigError>)
        ensures
            r is Ok <==> graph.wf(),
            r is Ok ==> r->Ok_0.graph() == graph && r->Ok_0.config() == config && r->Ok_0.wf(),
            r is Err ==> (r->Err_0 == ConfigError::DuplicateId <==> graph.has_duplicate()) && (r->Err_0
                == ConfigError::MissingChannel <==> !graph.has_duplicate() && graph.has_missing_channel()) && (
            r->Err_0 == ConfigError::DanglingEdge <==> !graph.has_duplicate() && !graph.has_missing_channel()
                && graph.has_dangling_edge()),
    {
        match graph.validate() {
            Err(e) => Err(e),
            Ok(()) => Ok(Pregel { graph, config }),
        }
    }

    /// The contents of a projection under the names of their channels, in the
    /// order of the projection; an entry for a channel that the graph does not
    /// have is left out.
    pub fn named(&self, pairs: &Vec<(usize, Vec<Value>)>) -> (out: Vec<(String, Vec<Value>)>)
        ensures
            named_view(out@) == named_pairs(self.graph(), projected(pairs@)),
    {
        let mut out: Vec<(String, Vec<Value>)> = Vec::new();
        let mut i: usize = 0;
        assert(projected(pairs@).take(0) =~= Seq::<(usize, Seq<Value>)>::empty());
        assert(named_view(out@) =~= named_pairs(self.graph(), projected(pairs@).take(0)));
        while i < pairs.len()
            invariant
                i <= pairs@.len(),
                named_view(out@) == named_pairs(self.graph(), projected(pairs@).take(i as int)),
            decreases pairs@.len() - i,
        {
            let ghost before = out@;
            let ghost all = projected(pairs@);
            assert(all.take(i + 1).drop_last() =~= all.take(i as int));
            assert(all.take(i + 1).last() == (pairs@[i as int].0, pairs@[i as int].1@));
            let c = pairs[i].0;
            if c < self.graph.channels.len() {
                out.push((self.graph.channels[c].name.clone(), copy_list(&pairs[i].1)));
                assert(named_view(out@) =~= named_view(before).push(
                    (self.graph.channels@[c as int].name@, pairs@[i as int].1@),
                ));
            }
            i = i + 1;
        }
        assert(projected(pairs@).take(i as int) =~= projected(pairs@));
        out
    }

    /// The graph.
    pub fn get_graph(&self) -> (g: &Graph)
        ensures
            *g == self.graph(),
    {
        &self.graph
    }

    /// The way to run it.
    pub fn get_config(&self) -> (c: &RunConfig)
        ensures
            *c == self.config(),
    {
        &self.config
    }
}

/// Whether one of `list` is among `marked`.
pub open spec fn meets(list: Seq<usize>, marked: Seq<usize>) -> bool {
    exists|i: int| 0 <= i < list.len() && marked.contains(#[trigger] list[i])
}

/// Whether one of `list` is among `marked`.
pub fn any_marked(list: &Vec<usize>, marked: &Vec<usize>) -> (b: bool)
    ensures
        b == meets(list@, marked@),
{
    let mut i: usize = 0;
    while i < list.len()
        invariant
            i <= list@.len(),
            forall|a: int| 0 <= a < i ==> !marked@.contains(#[trigger] list@[a]),
        decreases list@.len() - i,
    {
        if has_index(marked, list[i]) {
            return true;
        }
        i = i + 1;
    }
    false
}

/// The output of a task that has handed nothing back.
pub open spec fn empty_output() -> OutputModel {
    OutputModel {
        writes: Seq::<Write>::empty(),
        sends: Seq::<crate::graph::Send>::empty(),
        goto: Seq::<usize>::empty(),
    }
}

/// The output that stands for a failure: the code, written to the failure
/// channel, and the choice of all of `targets`.
pub open spec fn failure_output(channel: usize, code: Value, targets: Seq<usize>) -> OutputModel {
    OutputModel {
        writes: seq![Write { channel: channel, value: code }],
        sends: Seq::<crate::graph::Send>::empty(),
        goto: targets,
    }
}

/// The code of a failure.
pub open spec fn failure_code(result: ResultModel) -> Value {
    match result {
        ResultModel::Retryable(code) => code,
        ResultModel::Fatal(code) => code,
        ResultModel::Success(_) => 0,
    }
}

/// One more, unless the counter is at its end.
pub open spec fn next_count(n: u64) -> u64 {
    if n < u64::MAX {
        (n + 1) as u64
    } else {
        n
    }
}

/// One more, unless the counter is at its end.
pub open spec fn next_attempt(n: u32) -> u32 {
    if n < u32::MAX {
        (n + 1) as u32
    } else {
        n
    }
}

/// A run as a mathematical value.
pub struct LoopModel {
    /// The last committed state.
    pub state: StateModel,
    pub phase: Phase,
    /// The number of supersteps committed.
    pub step: u64,
    /// The nodes of the superstep that is executing.
    pub tasks: Seq<usize>,
    /// For each task, whether its output is in.
    pub done: Seq<bool>,
    /// For each task, how often it failed in a way that may pass.
    pub attempts: Seq<u32>,
    /// For each task, its output, once it is in.
    pub outputs: Seq<OutputModel>,
    /// The nodes that ran in the last committed superstep.
    pub ran: Seq<usize>,
    /// The channels that the last committed superstep changed.
    pub updated: Seq<usize>,
    pub failure: Option<Failure>,
    /// The host asked the run to stop.
    pub cancelled: bool,
    /// A checkpoint was lost and the run goes on in memory.
    pub degraded: bool,
    /// A superstep was committed after the host last reported on a checkpoint.
    pub unsaved: bool,
}

impl LoopModel {
    /// The run is consistent with graph `g`: its state fits, the lists about the
    /// tasks have one entry for each task, while the run is executing there are
    /// tasks, those that the state plans, and when it is done the state plans none.
    pub open spec fn wf(self, g: Graph) -> bool {
        &&& g.wf()
        &&& self.state.fits(g)
        &&& self.done.len() == self.tasks.len()
        &&& self.attempts.len() == self.tasks.len()
        &&& self.outputs.len() == self.tasks.len()
        &&& self.phase == Phase::Executing ==> self.tasks == self.state.plan(g) && self.tasks.len() > 0
        &&& self.phase == Phase::Done ==> self.state.plan(g).len() == 0
    }

    /// A run of `g` that has not started.
    pub open spec fn idle(g: Graph) -> LoopModel {
        LoopModel {
            state: StateModel::fresh(g),
            phase: Phase::Idle,
            step: 0,
            tasks: Seq::<usize>::empty(),
            done: Seq::<bool>::empty(),
            attempts: Seq::<u32>::empty(),
            outputs: Seq::<OutputModel>::empty(),
            ran: Seq::<usize>::empty(),
            updated: Seq::<usize>::empty(),
            failure: None,
            cancelled: false,
            degraded: false,
            unsaved: false,
        }
    }

    /// The run in `phase`, with no superstep executing.
    pub open spec fn resting(self, phase: Phase) -> LoopModel {
        LoopModel {
            phase: phase,
            tasks: Seq::<usize>::empty(),
            done: Seq::<bool>::empty(),
            attempts: Seq::<u32>::empty(),
            outputs: Seq::<OutputModel>::empty(),
            ..self
        }
    }

    /// The run, failed.
    pub open spec fn failed(self, failure: Failure) -> LoopModel {
        LoopModel { phase: Phase::Failed, failure: Some(failure), ..self }
    }

    /// Planning. A run that was asked to stop is interrupted. Otherwise the run
    /// is done if no node is due, and else executes the due nodes.
    pub open spec fn planned(self, g: Graph) -> LoopModel {
        let plan = self.state.plan(g);
        if self.cancelled {
            self.resting(Phase::Interrupted)
        } else if plan.len() == 0 {
            self.resting(Phase::Done)
        } else {
            LoopModel {
                phase: Phase::Executing,
                tasks: plan,
                done: Seq::new(plan.len(), |k: int| false),
                attempts: Seq::new(plan.len(), |k: int| 0u32),
                outputs: Seq::new(plan.len(), |k: int| empty_output()),
                ..self
            }
        }
    }

    /// Whether the run stops after the superstep just committed: a node that
    /// would run next is marked, or a channel just changed is marked.
    pub open spec fn interrupt_due(self, g: Graph, cfg: RunConfig) -> bool {
        meets(self.state.plan(g), cfg.interrupt_before@) || meets(self.updated, cfg.interrupt_after@)
    }

    /// After a commit, and after its checkpoint where the run waits for one: the
    /// run is interrupted if an interrupt is due, and else plans.
    pub open spec fn advanced(self, g: Graph, cfg: RunConfig) -> LoopModel {
        if self.interrupt_due(g, cfg) {
            self.resting(Phase::Interrupted)
        } else {
            self.planned(g)
        }
    }

    /// The output of every task is in.
    pub open spec fn all_done(self) -> bool {
        forall|k: int| 0 <= k < self.done.len() ==> #[trigger] self.done[k]
    }

    /// Starting an idle run with `input`: the input is written and the run plans;
    /// if a channel refuses the input the run fails. Any other run stays as it is.
    pub open spec fn started(self, g: Graph, input: Seq<Write>, f: spec_fn(u64, Value, Value) -> Value) -> LoopModel {
        let proposals = self.state.input_proposals(g, input);
        if self.phase != Phase::Idle {
            self
        } else {
            match self.state.first_error(proposals) {
                Some(found) => self.failed(
                    Failure {
                        kind: FailureKind::Channel(found.1),
                        node: None,
                        step: self.step,
                        channel: Some(found.0),
                    },
                ),
                None => (LoopModel {
                    state: self.state.updated(proposals, f),
                    updated: self.state.changed_below(proposals, self.state.channels.len()),
                    ..self
                }).planned(g),
            }
        }
    }

    /// The retry policy of the node of task `k`.
    pub open spec fn policy(self, g: Graph, k: usize) -> RetryPolicy {
        g.nodes@[self.tasks[k as int] as int].retry
    }

    /// Whether task `k` waits for a result.
    pub open spec fn awaits(self, k: usize) -> bool {
        self.phase == Phase::Executing && k < self.tasks.len() && !self.done[k as int]
    }

    /// Whether task `k` has used up its attempts once it fails again.
    pub open spec fn exhausted(self, g: Graph, k: usize) -> bool {
        next_attempt(self.attempts[k as int]) >= self.policy(g, k).max_attempts
    }

    /// The failure channel of the node of task `k`.
    pub open spec fn failure_channel(self, g: Graph, k: usize) -> Option<usize> {
        g.nodes@[self.tasks[k as int] as int].on_failure
    }

    /// Whether a failure of task `k` is routed around: its node has a failure
    /// channel and a conditional edge leaves it.
    pub open spec fn reroutes(self, g: Graph, k: usize) -> bool {
        self.failure_channel(g, k) is Some && g.has_escape(self.tasks[k as int])
    }

    /// What the scheduler makes of `result` for task `k`. An output is accepted.
    /// A failure that may pass is tried again while the failures of the task
    /// are fewer than the attempts that its node is allowed. Any other failure
    /// is for good: it is rerouted if the node has a failure channel and a
    /// conditional edge, and else fails the run.
    pub open spec fn verdict(self, g: Graph, k: usize, result: ResultModel) -> TaskVerdict {
        if !self.awaits(k) {
            TaskVerdict::Ignored
        } else if result is Success {
            TaskVerdict::Accepted
        } else if result is Retryable && !self.exhausted(g, k) {
            TaskVerdict::RetryAfter(self.policy(g, k).backoff_ms)
        } else if self.reroutes(g, k) {
            TaskVerdict::Rerouted
        } else {
            TaskVerdict::Failed
        }
    }

    /// The run after `result` was reported for task `k`.
    pub open spec fn reported(self, g: Graph, k: usize, result: ResultModel) -> LoopModel {
        match self.verdict(g, k, result) {
            TaskVerdict::Ignored => self,
            TaskVerdict::Accepted => LoopModel {
                done: self.done.update(k as int, true),
                outputs: self.outputs.update(k as int, result->Success_0),
                ..self
            },
            TaskVerdict::RetryAfter(_) => LoopModel {
                attempts: self.attempts.update(k as int, next_attempt(self.attempts[k as int])),
                ..self
            },
            TaskVerdict::Rerouted => LoopModel {
                done: self.done.update(k as int, true),
                outputs: self.outputs.update(
                    k as int,
                    failure_output(
                        self.failure_channel(g, k)->Some_0,
                        failure_code(result),
                        g.escape_targets(self.tasks[k as int], g.edges@.len()),
                    ),
                ),
                ..self
            },
            TaskVerdict::Failed => self.failed(
                Failure {
                    kind: match result {
                        ResultModel::Retryable(code) => FailureKind::RetriesExhausted(code),
                        ResultModel::Fatal(code) => FailureKind::Node(code),
                        ResultModel::Success(_) => FailureKind::Node(0),
                    },
                    node: Some(self.tasks[k as int]),
                    step: self.step,
                    channel: None,
                },
            ),
        }
    }

    /// Merging. When the run is executing and every output is in, the outputs are
    /// merged, all or none. If a channel refuses, the run fails on the state it
    /// had. Otherwise one more superstep is committed, and the run waits for its
    /// checkpoint or goes on. In any other situation the run stays as it is.
    pub open spec fn merged(self, g: Graph, cfg: RunConfig, f: spec_fn(u64, Value, Value) -> Value) -> LoopModel {
        let proposals = self.state.proposals(g, self.tasks, self.outputs);
        if self.phase != Phase::Executing || !self.all_done() {
            self
        } else {
            match self.state.first_error(proposals) {
                Some(found) => self.failed(
                    Failure {
                        kind: FailureKind::Channel(found.1),
                        node: None,
                        step: self.step,
                        channel: Some(found.0),
                    },
                ),
                None => {
                    let committed = LoopModel {
                        state: self.state.merged(g, self.tasks, self.outputs, f),
                        step: next_count(self.step),
                        ran: self.tasks,
                        updated: self.state.merge_changes(g, self.tasks, self.outputs),
                        unsaved: true,
                        ..self
                    };
                    if cfg.waits_for_checkpoint(self.degraded) {
                        committed.resting(Phase::CheckpointPending)
                    } else {
                        committed.advanced(g, cfg)
                    }
                },
            }
        }
    }

    /// The host reports on a checkpoint. A run that waits for it goes on if it
    /// was persisted and fails if not. A run that does not wait goes on either
    /// way; after a loss it goes on in memory.
    pub open spec fn checkpoint_reported(self, g: Graph, cfg: RunConfig, saved: bool) -> LoopModel {
        let noted = LoopModel { unsaved: false, ..self };
        if self.phase == Phase::CheckpointPending {
            if saved {
                noted.advanced(g, cfg)
            } else {
                noted.failed(Failure { kind: FailureKind::Checkpoint, node: None, step: self.step, channel: None })
            }
        } else if saved {
            noted
        } else {
            LoopModel { degraded: true, ..noted }
        }
    }

    /// The tasks took too long: an executing run fails on the state it had.
    pub open spec fn timed_out(self) -> LoopModel {
        if self.phase == Phase::Executing {
            self.failed(Failure { kind: FailureKind::Timeout, node: None, step: self.step, channel: None })
        } else {
            self
        }
    }

    /// An interrupted run goes on: it plans, without a new check for interrupts.
    pub open spec fn proceeded(self, g: Graph) -> LoopModel {
        if self.phase == Phase::Interrupted {
            (LoopModel { cancelled: false, ..self }).planned(g)
        } else {
            self
        }
    }

    /// Taking up the state of a checkpoint. An idle run takes the state, the count
    /// of supersteps and the changed channels of a checkpoint that suits it, and
    /// is then interrupted, ready to go on. Any other run, and any other
    /// checkpoint, changes nothing.
    pub open spec fn restored(self, cp: CheckpointModel) -> LoopModel {
        if self.phase == Phase::Idle && cp.suits(self.state) {
            LoopModel {
                state: cp.state_of(self.state),
                step: cp.step,
                updated: match cp.updated_channels {
                    Some(list) => list,
                    None => Seq::<usize>::empty(),
                },
                phase: Phase::Interrupted,
                ..self
            }
        } else {
            self
        }
    }

    /// Whether the host should persist a checkpoint now: it has a store that has
    /// not failed, a superstep was committed since the last report, and the run
    /// has stopped or persists after every superstep.
    pub open spec fn persist_due(self, cfg: RunConfig) -> bool {
        &&& cfg.checkpointer
        &&& !self.degraded
        &&& self.unsaved
        &&& (cfg.durability == Durability::Exit ==> self.phase == Phase::Done || self.phase == Phase::Interrupted
            || self.phase == Phase::Failed)
    }

    /// What the last committed superstep shows in the mode of `cfg`.
    pub open spec fn event(self, g: Graph, cfg: RunConfig) -> EventModel {
        match cfg.stream_mode {
            StreamMode::Values => EventModel::Values(self.state.projection(g.outputs@)),
            StreamMode::Updates => EventModel::Updates(self.state.projection(self.updated)),
            StreamMode::Debug => EventModel::Debug { step: self.step, nodes: self.ran, updated: self.updated },
        }
    }
}

/// A list of `len` copies of `value`.
pub(crate) fn filled<T: Copy>(len: usize, value: T) -> (out: Vec<T>)
    ensures
        out@ == Seq::new(len as nat, |k: int| value),
{
    let mut out: Vec<T> = Vec::new();
    let mut k: usize = 0;
    while k < len
        invariant
            k <= len,
            out@ == Seq::new(k as nat, |k: int| value),
        decreases len - k,
    {
        out.push(value);
        assert(out@ =~= Seq::new((k + 1) as nat, |k: int| value));
        k = k + 1;
    }
    out
}

/// A list of `len` outputs that hold nothing.
pub(crate) fn empty_outputs(len: usize) -> (out: Vec<TaskOutput>)
    ensures
        output_models(out@) == Seq::new(len as nat, |k: int| empty_output()),
{
    let mut out: Vec<TaskOutput> = Vec::new();
    let mut k: usize = 0;
    while k < len
        invariant
            k <= len,
            out@.len() == k,
            forall|i: int| 0 <= i < k ==> (#[trigger] out@[i])@ == empty_output(),
        decreases len - k,
    {
        let output = TaskOutput { writes: Vec::new(), sends: Vec::new(), goto: Vec::new() };
        assert(output@.writes =~= empty_output().writes);
        assert(output@.sends =~= empty_output().sends);
        assert(output@.goto =~= empty_output().goto);
        out.push(output);
        k = k + 1;
    }
    assert(output_models(out@) =~= Seq::new(len as nat, |k: int| empty_output()));
    out
}

/// A run of a graph: the scheduler's state machine, with the state of the run.
pub struct PregelLoop {
    pregel: Pregel,
    state: ChannelManager,
    phase: Phase,
    step: u64,
    tasks: Vec<usize>,
    done: Vec<bool>,
    attempts: Vec<u32>,
    outputs: Vec<TaskOutput>,
    ran: Vec<usize>,
    updated: Vec<usize>,
    failure: Option<Failure>,
    cancelled: bool,
    degraded: bool,
    unsaved: bool,
}

impl View for PregelLoop {
    type V = LoopModel;

    closed spec fn view(&self) -> LoopModel {
        LoopModel {
            state: self.state@,
            phase: self.phase,
            step: self.step,
            tasks: self.tasks@,
            done: self.done@,
            attempts: self.attempts@,
            outputs: output_models(self.outputs@),
            ran: self.ran@,
            updated: self.updated@,
            failure: self.failure,
            cancelled: self.cancelled,
            degraded: self.degraded,
            unsaved: self.unsaved,
        }
    }
}

impl PregelLoop {
    /// The graph that is run.
    pub closed spec fn graph(&self) -> Graph {
        self.pregel.graph
    }

    /// The way it is run.
    pub closed spec fn config(&self) -> RunConfig {
        self.pregel.config
    }

    /// The run is consistent with its graph.
    pub open spec fn wf(&self) -> bool {
        self@.wf(self.graph())
    }

    /// A run of `pregel` that has not started: every channel is empty.
    pub fn new(pregel: Pregel) -> (run: PregelLoop)
        requires
            pregel.wf(),
        ensures
            run.wf(),
            run.graph() == pregel.graph(),
            run.config() == pregel.config(),
            run@ == LoopModel::idle(pregel.graph()),
    {
        let state = ChannelManager::new(&pregel.graph);
        let run = PregelLoop {
            pregel,
            state,
            phase: Phase::Idle,
            step: 0,
            tasks: Vec::new(),
            done: Vec::new(),
            attempts: Vec::new(),
            outputs: Vec::new(),
            ran: Vec::new(),
            updated: Vec::new(),
            failure: None,
            cancelled: false,
            degraded: false,
            unsaved: false,
        };
        assert(run@.outputs =~= Seq::<OutputModel>::empty());
        run
    }

    /// Gives the graph back and ends the run.
    pub fn into_pregel(self) -> (pregel: Pregel)
        ensures
            pregel.graph() == self.graph(),
            pregel.config() == self.config(),
    {
        self.pregel
    }

    /// Where the run stands.
    pub fn phase(&self) -> (phase: Phase)
        ensures
            phase == self@.phase,
    {
        self.phase
    }

    /// The number of supersteps committed.
    pub fn step(&self) -> (step: u64)
        ensures
            step == self@.step,
    {
        self.step
    }

    /// Why the run failed, if it did.
    pub fn failure(&self) -> (failure: Option<Failure>)
        ensures
            failure == self@.failure,
    {
        self.failure
    }

    fn rest(&mut self, phase: Phase)
        ensures
            final(self)@ == old(self)@.resting(phase),
            final(self).pregel == old(self).pregel,
    {
        self.phase = phase;
        self.tasks = Vec::new();
        self.done = Vec::new();
        self.attempts = Vec::new();
        self.outputs = Vec::new();
        assert(self@.outputs =~= Seq::<OutputModel>::empty());
    }

    fn fail(&mut self, failure: Failure)
        ensures
            final(self)@ == old(self)@.failed(failure),
            final(self).pregel == old(self).pregel,
    {
        self.phase = Phase::Failed;
        self.failure = Some(failure);
    }

    fn plan(&mut self)
        requires
            old(self).graph().wf(),
            old(self)@.state.fits(old(self).graph()),
        ensures
            final(self)@ == old(self)@.planned(old(self).graph()),
            final(self).pregel == old(self).pregel,
            final(self).wf(),
    {
        if self.cancelled {
            self.rest(Phase::Interrupted);
            return ;
        }
        let nodes = self.state.due_nodes(&self.pregel.graph);
        let count = nodes.len();
        if count == 0 {
            self.rest(Phase::Done);
        } else {
            self.phase = Phase::Executing;
            self.tasks = nodes;
            self.done = filled(count, false);
            self.attempts = filled(count, 0u32);
            self.outputs = empty_outputs(count);
        }
    }

    fn advance(&mut self)
        requires
            old(self).graph().wf(),
            old(self)@.state.fits(old(self).graph()),
        ensures
            final(self)@ == old(self)@.advanced(old(self).graph(), old(self).config()),
            final(self).pregel == old(self).pregel,
            final(self).wf(),
    {
        let nodes = self.state.due_nodes(&self.pregel.graph);
        if any_marked(&nodes, &self.pregel.config.interrupt_before) || any_marked(
            &self.updated,
            &self.pregel.config.interrupt_after,
        ) {
            self.rest(Phase::Interrupted);
        } else {
            self.plan();
        }
    }

    /// Starts an idle run: writes `input` to the input channels and plans the
    /// first superstep. If a channel refuses the input the run fails. A run
    /// that is not idle stays as it is.
    pub fn start<F: Fn(u64, Value, Value) -> Value>(&mut self, input: &Vec<Write>, op: &F) -> (phase: Phase)
        requires
            old(self).wf(),
            is_operator(*op),
        ensures
            final(self).wf(),
            final(self).graph() == old(self).graph(),
            final(self).config() == old(self).config(),
            final(self)@ == old(self)@.started(old(self).graph(), input@, operator_of(*op)),
            phase == final(self)@.phase,
    {
        if self.phase != Phase::Idle {
            return self.phase;
        }
        match self.state.write_input(&self.pregel.graph, input, op) {
            Err(found) => {
                self.fail(
                    Failure {
                        kind: FailureKind::Channel(found.1),
                        node: None,
                        step: self.step,
                        channel: Some(found.0),
                    },
                );
            },
            Ok(changed) => {
                self.updated = changed;
                self.plan();
            },
        }
        self.phase
    }

    /// The tasks of the superstep that is executing, one for each due node, in
    /// ascending order of the nodes; each holds what its node reads from the
    /// state as the last commit left it. No tasks when the run is not executing.
    pub fn tasks(&self) -> (tasks: Vec<Task>)
        requires
            self.wf(),
        ensures
            self@.phase == Phase::Executing ==> task_models(tasks@) == self@.state.tasks(self.graph()),
            self@.phase != Phase::Executing ==> tasks@.len() == 0,
    {
        if self.phase == Phase::Executing {
            self.state.plan(&self.pregel.graph)
        } else {
            Vec::new()
        }
    }

    /// Task `k` of the superstep that is executing, if there is such a task.
    pub fn task(&self, k: usize) -> (task: Option<Task>)
        requires
            self.wf(),
        ensures
            task is Some <==> self@.phase == Phase::Executing && k < self@.tasks.len(),
            task is Some ==> task->Some_0@ == self@.state.task_for(self.graph(), self@.tasks[k as int]),
    {
        if self.phase == Phase::Executing && k < self.tasks.len() {
            proof {
                lemma_due_below(self@.state, self.graph(), self.graph().nodes@.len());
            }
            Some(self.state.task_for(&self.pregel.graph, self.tasks[k]))
        } else {
            None
        }
    }

    /// The number of tasks of the superstep that is executing.
    pub fn task_count(&self) -> (count: usize)
        ensures
            count == self@.tasks.len(),
    {
        self.tasks.len()
    }

    /// Whether the output of task `k` is in.
    pub fn is_done(&self, k: usize) -> (b: bool)
        requires
            self.wf(),
        ensures
            b == (k < self@.tasks.len() && self@.done[k as int]),
    {
        k < self.done.len() && self.done[k]
    }

    /// Takes the host's report on task `k` of the superstep that is executing.
    /// An output is kept for the merge. A failure that may pass is counted; the
    /// host is told to run the task again after the delay of its node's policy
    /// while the failures of the task are fewer than the attempts that the
    /// policy allows. Any other failure is for good: if the node has a failure
    /// channel and a conditional edge, the failure is routed around, that is,
    /// the code is kept for the merge as a write to that channel, together with
    /// the choice of every target of the node's conditional edges; else the
    /// run fails. A report on anything but a task that waits for one changes
    /// nothing.
    pub fn report(&mut self, k: usize, result: TaskResult) -> (verdict: TaskVerdict)
        requires
            old(self).wf(),
        ensures
            final(self).wf(),
            final(self).graph() == old(self).graph(),
            final(self).config() == old(self).config(),
            final(self)@ == old(self)@.reported(old(self).graph(), k, result@),
            verdict == old(self)@.verdict(old(self).graph(), k, result@),
    {
        if self.phase != Phase::Executing || k >= self.tasks.len() || self.done[k] {
            return TaskVerdict::Ignored;
        }
        proof {
            lemma_due_below(self@.state, self.graph(), self.graph().nodes@.len());
        }
        let node = self.tasks[k];
        let policy = self.pregel.graph.nodes[node].retry;
        let on_failure = self.pregel.graph.nodes[node].on_failure;
        let made = if self.attempts[k] < u32::MAX {
            self.attempts[k] + 1
        } else {
            self.attempts[k]
        };
        let ghost before = self.outputs@;
        let (code, exhausted) = match result {
            TaskResult::Success(out) => {
                self.done.set(k, true);
                self.outputs.set(k, out);
                assert(output_models(self.outputs@) =~= output_models(before).update(k as int, out@));
                return TaskVerdict::Accepted;
            },
            TaskResult::Fatal(code) => (code, false),
            TaskResult::Retryable(code) => {
                if made < policy.max_attempts {
                    self.attempts.set(k, made);
                    return TaskVerdict::RetryAfter(policy.backoff_ms);
                }
                (code, true)
            },
        };
        let route = match on_failure {
            Some(channel) => match self.pregel.graph.escape_route(node) {
                Some(targets) => Some((channel, targets)),
                None => None,
            },
            None => None,
        };
        match route {
            Some((channel, targets)) => {
                let mut writes: Vec<Write> = Vec::new();
                writes.push(Write { channel, value: code });
                let out = TaskOutput { writes, sends: Vec::new(), goto: targets };
                assert(out@.writes =~= failure_output(channel, code, targets@).writes);
                assert(out@.sends =~= failure_output(channel, code, targets@).sends);
                self.done.set(k, true);
                self.outputs.set(k, out);
                assert(output_models(self.outputs@) =~= output_models(before).update(k as int, out@));
                TaskVerdict::Rerouted
            },
            None => {
                self.fail(
                    Failure {
                        kind: if exhausted {
                            FailureKind::RetriesExhausted(code)
                        } else {
                            FailureKind::Node(code)
                        },
                        node: Some(node),
                        step: self.step,
                        channel: None,
                    },
                );
                TaskVerdict::Failed
            },
        }
    }

    fn is_all_done(&self) -> (b: bool)
        ensures
            b == self@.all_done(),
    {
        let mut k: usize = 0;
        while k < self.done.len()
            invariant
                k <= self.done@.len(),
                forall|i: int| 0 <= i < k ==> #[trigger] self.done@[i],
            decreases self.done@.len() - k,
        {
            if !self.done[k] {
                assert(!self@.done[k as int]);
                return false;
            }
            k = k + 1;
        }
        true
    }

    /// Merges the outputs of the superstep that is executing, once all are in:
    /// all of them or none. If a channel refuses, the run fails and its state is
    /// the one before the superstep. Otherwise the superstep is committed; the
    /// run then waits for its checkpoint, if it is to wait for one, and else
    /// checks for interrupts and plans the next superstep. A run that is not
    /// executing, or still waits for an output, stays as it is.
    pub fn merge<F: Fn(u64, Value, Value) -> Value>(&mut self, op: &F) -> (phase: Phase)
        requires
            old(self).wf(),
            is_operator(*op),
        ensures
            final(self).wf(),
            final(self).graph() == old(self).graph(),
            final(self).config() == old(self).config(),
            final(self)@ == old(self)@.merged(old(self).graph(), old(self).config(), operator_of(*op)),
            phase == final(self)@.phase,
    {
        if self.phase != Phase::Executing || !self.is_all_done() {
            return self.phase;
        }
        proof {
            lemma_due_below(self@.state, self.graph(), self.graph().nodes@.len());
        }
        match self.state.apply_writes(&self.pregel.graph, &self.tasks, &self.outputs, op) {
            Err(found) => {
                self.fail(
                    Failure {
                        kind: FailureKind::Channel(found.1),
                        node: None,
                        step: self.step,
                        channel: Some(found.0),
                    },
                );
            },
            Ok(changed) => {
                if self.step < u64::MAX {
                    self.step = self.step + 1;
                }
                self.ran = copy_list(&self.tasks);
                self.updated = changed;
                self.unsaved = true;
                if self.pregel.config.checkpointer && !self.degraded && self.pregel.config.durability
                    == Durability::EveryStep {
                    self.rest(Phase::CheckpointPending);
                } else {
                    self.advance();
                }
            },
        }
        self.phase
    }

    /// Takes the host's report on a checkpoint. A run that waits for the
    /// checkpoint goes on if it was persisted, with the check for interrupts and
    /// the plan of the next superstep, and fails if it was not. A run that does
    /// not wait keeps its phase; after a loss it goes on in memory.
    pub fn report_checkpoint(&mut self, saved: bool) -> (phase: Phase)
        requires
            old(self).wf(),
        ensures
            final(self).wf(),
            final(self).graph() == old(self).graph(),
            final(self).config() == old(self).config(),
            final(self)@ == old(self)@.checkpoint_reported(old(self).graph(), old(self).config(), saved),
            phase == final(self)@.phase,
    {
        self.unsaved = false;
        if self.phase == Phase::CheckpointPending {
            if saved {
                self.advance();
            } else {
                self.fail(Failure { kind: FailureKind::Checkpoint, node: None, step: self.step, channel: None });
            }
        } else if !saved {
            self.degraded = true;
        }
        self.phase
    }

    /// The tasks of the superstep took longer than allowed: a run that is
    /// executing fails, and its state is the one before the superstep.
    pub fn timed_out(&mut self) -> (phase: Phase)
        requires
            old(self).wf(),
        ensures
            final(self).wf(),
            final(self).graph() == old(self).graph(),
            final(self).config() == old(self).config(),
            final(self)@ == old(self)@.timed_out(),
            phase == final(self)@.phase,
    {
        if self.phase == Phase::Executing {
            self.fail(Failure { kind: FailureKind::Timeout, node: None, step: self.step, channel: None });
        }
        self.phase
    }

    /// Asks the run to stop. The run takes note and stops when it next plans; a
    /// superstep that is executing is finished first.
    pub fn cancel(&mut self)
        requires
            old(self).wf(),
        ensures
            final(self).wf(),
            final(self).graph() == old(self).graph(),
            final(self).config() == old(self).config(),
            final(self)@ == (LoopModel { cancelled: true, ..old(self)@ }),
    {
        self.cancelled = true;
    }

    /// Lets an interrupted run go on: it plans the next superstep, without a new
    /// check for interrupts. Any other run stays as it is.
    pub fn proceed(&mut self) -> (phase: Phase)
        requires
            old(self).wf(),
        ensures
            final(self).wf(),
            final(self).graph() == old(self).graph(),
            final(self).config() == old(self).config(),
            final(self)@ == old(self)@.proceeded(old(self).graph()),
            phase == final(self)@.phase,
    {
        if self.phase == Phase::Interrupted {
            self.cancelled = false;
            self.plan();
        }
        self.phase
    }

    /// Takes up the state of a checkpoint and says whether it did. Only an idle
    /// run does, and only of a checkpoint that suits its graph; it is then
    /// interrupted and goes on with `proceed`.
    pub fn restore(&mut self, cp: &Checkpoint) -> (done: bool)
        requires
            old(self).wf(),
        ensures
            final(self).wf(),
            final(self).graph() == old(self).graph(),
            final(self).config() == old(self).config(),
            final(self)@ == old(self)@.restored(cp@),
            done == (old(self)@.phase == Phase::Idle && cp@.suits(old(self)@.state)),
    {
        if self.phase != Phase::Idle {
            return false;
        }
        let ghost before = self@.state;
        if !self.state.restore(cp) {
            return false;
        }
        proof {
            lemma_restored_fits(self.graph(), before, cp@);
        }
        self.step = cp.step;
        self.updated = match &cp.updated_channels {
            Some(list) => copy_list(list),
            None => Vec::new(),
        };
        self.phase = Phase::Interrupted;
        true
    }

    /// A checkpoint that holds the last committed state of the run, with the
    /// count of supersteps and the channels that the last one changed.
    pub fn checkpoint(&self, id: String, ts: String, parent_id: Option<String>) -> (cp: Checkpoint)
        ensures
            cp@.v == CHECKPOINT_VERSION,
            cp@.id == id@,
            cp@.ts == ts@,
            cp@.parent_id == text_of(parent_id),
            cp@.step == self@.step,
            cp@.updated_channels == Some(self@.updated),
            cp@.holds(self@.state),
    {
        self.state.checkpoint(id, ts, parent_id, self.step, Some(copy_list(&self.updated)))
    }

    /// Whether the host should persist a checkpoint now.
    pub fn persist_due(&self) -> (b: bool)
        ensures
            b == self@.persist_due(self.config()),
    {
        let stopped = self.phase == Phase::Done || self.phase == Phase::Interrupted || self.phase
            == Phase::Failed;
        self.pregel.config.checkpointer && !self.degraded && self.unsaved && (self.pregel.config.durability
            != Durability::Exit || stopped)
    }

    /// The result of the run so far: the contents of the output channels that
    /// hold a value, each with the index of its channel.
    pub fn output(&self) -> (out: Vec<(usize, Vec<Value>)>)
        ensures
            projected(out@) == self@.state.projection(self.graph().outputs@),
    {
        self.state.project(&self.pregel.graph.outputs)
    }

    /// The result of the run so far, under the names of the output channels.
    pub fn named_output(&self) -> (out: Vec<(String, Vec<Value>)>)
        ensures
            named_view(out@) == named_pairs(self.graph(), self@.state.projection(self.graph().outputs@)),
    {
        let pairs = self.state.project(&self.pregel.graph.outputs);
        self.pregel.named(&pairs)
    }

    /// What the last committed superstep shows, in the mode of the run.
    pub fn event(&self) -> (event: StepEvent)
        ensures
            event@ == self@.event(self.graph(), self.config()),
    {
        match self.pregel.config.stream_mode {
            StreamMode::Values => StepEvent::Values(self.state.project(&self.pregel.graph.outputs)),
            StreamMode::Updates => StepEvent::Updates(self.state.project(&self.updated)),
            StreamMode::Debug => StepEvent::Debug {
                step: self.step,
                nodes: copy_list(&self.ran),
                updated: copy_list(&self.updated),
            },
        }
    }

    /// The values that channel `c` holds in the last committed state.
    pub fn read(&self, c: usize) -> (r: Result<Vec<Value>, ChannelError>)
        ensures
            r is Ok <==> c < self@.state.channels.len() && self@.state.channels[c as int].items.len() > 0,
            r is Ok ==> r->Ok_0@ == self@.state.channels[c as int].items,
            r is Err ==> r->Err_0 == ChannelError::EmptyChannelRead,
    {
        self.state.get(c)
    }

    /// The version of channel `c` in the last committed state.
    pub fn version(&self, c: usize) -> (v: Option<u64>)
        ensures
            v == (if c < self@.state.versions.len() {
                Some(self@.state.versions[c as int])
            } else {
                None
            }),
    {
        self.state.version(c)
    }
}

} // verus!
