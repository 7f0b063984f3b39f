//! The executor: drives a run through its supersteps with the nodes and the
//! operator that the caller supplies, persists the checkpoints that the run asks
//! for, and collects one event for each superstep committed.

use crate::checkpoint::{copy_text, digit, digit_text, text_of, CheckpointModel, CHECKPOINT_VERSION};
use crate::graph::{Graph, Write};
use crate::manager::{projected, Task};
use crate::pregel::{
    named_pairs, named_view, EventModel, Failure, LoopModel, Phase, Pregel, PregelLoop, ResultModel,
    RunConfig, StepEvent, TaskResult, TaskVerdict,
};
use crate::store::{id_of, selected, MemoryStore};
use crate::superstep::TaskModel;
use crate::value::{is_operator, operator_of, Value};
use vstd::prelude::*;
use vstd::string::*;

verus! {

/// `run` can hand back `r` for a task that holds `held`.
pub open spec fn hands_back<N: Fn(Task) -> TaskResult>(run: N, held: TaskModel, r: ResultModel) -> bool {
    exists|task: Task, result: TaskResult| #[trigger]
        call_ensures(run, (task,), result) && task@ == held && result@ == r
}

/// What the node function `run` hands back for a task, as a function of what
/// the task holds.
pub open spec fn node_fn<N: Fn(Task) -> TaskResult>(run: N) -> spec_fn(TaskModel) -> ResultModel {
    |held: TaskModel| choose|r: ResultModel| hands_back(run, held, r)
}

/// `run` can be called on every task, and what it hands back depends on what the
/// task holds alone.
pub open spec fn is_node<N: Fn(Task) -> TaskResult>(run: N) -> bool {
    &&& forall|task: Task| call_requires(run, (task,))
    &&& forall|task: Task, result: TaskResult| #[trigger]
        call_ensures(run, (task,), result) ==> result@ == node_fn(run)(task@)
}

/// The events of a list, as mathematical values.
pub open spec fn event_models(events: Seq<StepEvent>) -> Seq<EventModel> {
    Seq::new(events.len(), |i: int| events[i]@)
}

/// The last `width` decimal digits of `n`, with leading zeros.
pub open spec fn fixed_decimal(n: nat, width: nat) -> Seq<char>
    decreases width,
{
    if width == 0 {
        Seq::<char>::empty()
    } else {
        fixed_decimal(n / 10, (width - 1) as nat) + digit(n % 10)
    }
}

/// The id under which the executor persists the checkpoint of the run after
/// `step` supersteps: the count in twenty digits, so that ids sort as the
/// supersteps follow each other.
pub open spec fn checkpoint_id(step: u64) -> Seq<char> {
    fixed_decimal(step as nat, 20)
}

impl LoopModel {
    /// How often task `k` may still fail before its attempts are used up.
    pub open spec fn retries_left(self, g: Graph, k: usize) -> int {
        self.policy(g, k).max_attempts - self.attempts[k as int]
    }

    /// The run after task `k` was run at most `again + 1` times: the node is run,
    /// the result reported, and again as long as the scheduler asks for another
    /// attempt.
    pub open spec fn task_retried(
        self,
        g: Graph,
        beh: spec_fn(TaskModel) -> ResultModel,
        k: usize,
        again: nat,
    ) -> LoopModel
        decreases again,
    {
        let result = beh(self.state.task_for(g, self.tasks[k as int]));
        if self.verdict(g, k, result) is RetryAfter && again > 0 {
            self.reported(g, k, result).task_retried(g, beh, k, (again - 1) as nat)
        } else {
            self.reported(g, k, result)
        }
    }

    /// The run after task `k` was run until the scheduler accepted its output or
    /// gave it up.
    pub open spec fn task_driven(self, g: Graph, beh: spec_fn(TaskModel) -> ResultModel, k: usize) -> LoopModel {
        self.task_retried(
            g,
            beh,
            k,
            if self.retries_left(g, k) > 0 {
                self.retries_left(g, k) as nat
            } else {
                0
            },
        )
    }

    /// The run after the first `upto` tasks were driven, in their order, as long
    /// as the run was executing.
    pub open spec fn tasks_driven(self, g: Graph, beh: spec_fn(TaskModel) -> ResultModel, upto: nat) -> LoopModel
        decreases upto,
    {
        if upto == 0 {
            self
        } else {
            let before = self.tasks_driven(g, beh, (upto - 1) as nat);
            if before.phase == Phase::Executing {
                before.task_driven(g, beh, (upto - 1) as usize)
            } else {
                before
            }
        }
    }

    /// The checkpoint that the executor persists of the run.
    pub open spec fn checkpoint_model(self, ts: Seq<char>, parent: Option<Seq<char>>) -> CheckpointModel {
        CheckpointModel {
            v: CHECKPOINT_VERSION as int,
            id: checkpoint_id(self.step),
            ts: ts,
            parent_id: parent,
            step: self.step,
            channel_values: self.state.contents(),
            channel_versions: self.state.versions,
            versions_seen: self.state.seen,
            updated_channels: Some(self.updated),
            pending_nodes: self.state.activated,
            pending_sends: self.state.inbox,
        }
    }
}

/// A driven run: the run, the checkpoints of its thread and the events collected
/// so far, oldest first, and the id of the checkpoint that the next one follows.
pub struct DriveModel {
    pub run: LoopModel,
    pub saved: Seq<CheckpointModel>,
    pub events: Seq<EventModel>,
    pub parent: Option<Seq<char>>,
}

impl DriveModel {
    /// The run with the checkpoint persisted that it asks for, if it asks for one.
    pub open spec fn persisted(self, g: Graph, cfg: RunConfig, ts: Seq<char>) -> DriveModel {
        if self.run.persist_due(cfg) {
            DriveModel {
                run: self.run.checkpoint_reported(g, cfg, true),
                saved: self.saved.push(self.run.checkpoint_model(ts, self.parent)),
                parent: Some(checkpoint_id(self.run.step)),
                ..self
            }
        } else {
            self
        }
    }

    /// One superstep: every task is driven, the outputs are merged, the event of
    /// the superstep is collected if it was committed, and the checkpoint is
    /// persisted if the run asks for one.
    pub open spec fn stepped(
        self,
        g: Graph,
        cfg: RunConfig,
        beh: spec_fn(TaskModel) -> ResultModel,
        f: spec_fn(u64, Value, Value) -> Value,
        ts: Seq<char>,
    ) -> DriveModel {
        let worked = self.run.tasks_driven(g, beh, self.run.tasks.len());
        let merged = worked.merged(g, cfg, f);
        let events = if worked.phase == Phase::Executing && merged.phase != Phase::Failed {
            self.events.push(merged.event(g, cfg))
        } else {
            self.events
        };
        (DriveModel { run: merged, events: events, ..self }).persisted(g, cfg, ts)
    }

    /// Up to `steps` supersteps, as long as the run is executing.
    pub open spec fn driven(
        self,
        g: Graph,
        cfg: RunConfig,
        beh: spec_fn(TaskModel) -> ResultModel,
        f: spec_fn(u64, Value, Value) -> Value,
        ts: Seq<char>,
        steps: nat,
    ) -> DriveModel
        decreases steps,
    {
        if steps == 0 || self.run.phase != Phase::Executing {
            self
        } else {
            self.stepped(g, cfg, beh, f, ts).driven(g, cfg, beh, f, ts, (steps - 1) as nat)
        }
    }

    /// A run of `g` that has not started, on a thread that holds `saved`.
    pub open spec fn idle(g: Graph, saved: Seq<CheckpointModel>) -> DriveModel {
        DriveModel { run: LoopModel::idle(g), saved: saved, events: Seq::<EventModel>::empty(), parent: None }
    }

    /// The run started with `input`.
    pub open spec fn started(self, g: Graph, input: Seq<Write>, f: spec_fn(u64, Value, Value) -> Value) -> DriveModel {
        DriveModel { run: self.run.started(g, input, f), ..self }
    }

    /// Whether the run can be resumed from the checkpoint of its thread that is
    /// asked for: the run is idle, there is such a checkpoint, and it suits.
    pub open spec fn can_resume(self, id: Option<Seq<char>>) -> bool {
        &&& self.run.phase == Phase::Idle
        &&& selected(self.saved, id) is Some
        &&& self.saved[selected(self.saved, id)->Some_0].suits(self.run.state)
    }

    /// The run resumed from the checkpoint of its thread that is asked for: it
    /// takes up the state of the checkpoint and plans the next superstep. The
    /// next checkpoint persisted follows the one resumed from.
    pub open spec fn resumed(self, g: Graph, id: Option<Seq<char>>) -> DriveModel {
        let cp = self.saved[selected(self.saved, id)->Some_0];
        DriveModel { run: self.run.restored(cp).proceeded(g), parent: Some(cp.id), ..self }
    }
}

fn push_fixed(out: &mut String, n: u64, width: u8)
    ensures
        final(out)@ == old(out)@ + fixed_decimal(n as nat, width as nat),
    decreases width,
{
    if width > 0 {
        push_fixed(out, n / 10, width - 1);
        out.append(digit_text(n % 10));
        assert(out@ =~= old(out)@ + fixed_decimal(n as nat, width as nat));
    } else {
        assert(out@ =~= old(out)@ + fixed_decimal(n as nat, width as nat));
    }
}

/// The id under which the executor persists the checkpoint after `step` supersteps.
pub fn make_checkpoint_id(step: u64) -> (id: String)
    ensures
        id@ == checkpoint_id(step),
{
    let mut id = String::new();
    push_fixed(&mut id, step, 20);
    assert(id@ =~= checkpoint_id(step));
    id
}

/// Runs task `k` of the superstep that is executing until the scheduler accepts
/// its output or gives it up.
pub(crate) fn drive_task<N: Fn(Task) -> TaskResult>(run: &mut PregelLoop, k: usize, run_node: &N)
    requires
        old(run).wf(),
        is_node(*run_node),
        old(run)@.phase == Phase::Executing,
        k < old(run)@.tasks.len(),
    ensures
        final(run).wf(),
        final(run).graph() == old(run).graph(),
        final(run).config() == old(run).config(),
        final(run)@ == old(run)@.task_driven(old(run).graph(), node_fn(*run_node), k),
        final(run)@.tasks == old(run)@.tasks,
        final(run)@.phase == Phase::Executing || final(run)@.phase == Phase::Failed,
    decreases old(run)@.retries_left(old(run).graph(), k),
{
    let task = run.task(k).unwrap();
    let result = run_node(task);
    let verdict = run.report(k, result);
    match verdict {
        TaskVerdict::RetryAfter(_) => {
            drive_task(run, k, run_node);
        },
        _ => {},
    }
}

/// Runs every task of the superstep that is executing, in the order of the
/// tasks, each until the scheduler accepts its output or gives it up. Stops
/// running tasks once the run has failed.
pub(crate) fn drive_tasks<N: Fn(Task) -> TaskResult>(run: &mut PregelLoop, run_node: &N)
    requires
        old(run).wf(),
        is_node(*run_node),
    ensures
        final(run).wf(),
        final(run).graph() == old(run).graph(),
        final(run).config() == old(run).config(),
        final(run)@ == old(run)@.tasks_driven(old(run).graph(), node_fn(*run_node), old(run)@.tasks.len()),
{
    let count = run.task_count();
    let mut k: usize = 0;
    while k < count
        invariant
            k <= count,
            count == old(run)@.tasks.len(),
            run.wf(),
            is_node(*run_node),
            run.graph() == old(run).graph(),
            run.config() == old(run).config(),
            run@.tasks == old(run)@.tasks,
            run@ == old(run)@.tasks_driven(old(run).graph(), node_fn(*run_node), k as nat),
        decreases count - k,
    {
        if run.phase() == Phase::Executing {
            drive_task(run, k, run_node);
        }
        k = k + 1;
    }
}

/// Why a run could not be resumed.
#[derive(Clone, Copy, PartialEq, Eq, Structural, Debug)]
pub enum ResumeError {
    /// The thread holds no checkpoint that was asked for.
    NotFound,
    /// The run has started already, or the checkpoint is of another graph.
    Mismatch,
}

/// A run together with the store that takes its checkpoints.
pub struct Executor {
    run: PregelLoop,
    store: MemoryStore,
    thread_id: String,
    ts: String,
    events: Vec<StepEvent>,
    parent: Option<String>,
}

impl View for Executor {
    type V = DriveModel;

    closed spec fn view(&self) -> DriveModel {
        DriveModel {
            run: self.run@,
            saved: self.store.history(self.thread_id@),
            events: event_models(self.events@),
            parent: text_of(self.parent),
        }
    }
}

impl Executor {
    /// The graph that is run.
    pub closed spec fn graph(&self) -> Graph {
        self.run.graph()
    }

    /// The way it is run.
    pub closed spec fn config(&self) -> RunConfig {
        self.run.config()
    }

    /// The thread under which checkpoints are persisted.
    pub closed spec fn thread(&self) -> Seq<char> {
        self.thread_id@
    }

    /// The time that persisted checkpoints carry.
    pub closed spec fn time(&self) -> Seq<char> {
        self.ts@
    }

    /// The checkpoints that the store holds of any thread.
    pub closed spec fn history(&self, thread: Seq<char>) -> Seq<CheckpointModel> {
        self.store.history(thread)
    }

    /// The run and the store are consistent.
    pub closed spec fn wf(&self) -> bool {
        self.run.wf() && self.store.wf()
    }

    /// A run of `pregel` that has not started, with the store for its
    /// checkpoints, the thread under which they are persisted and the time
    /// that they carry.
    pub fn new(pregel: Pregel, store: MemoryStore, thread_id: String, ts: String) -> (exec: Executor)
        requires
            pregel.wf(),
            store.wf(),
        ensures
            exec.wf(),
            exec.graph() == pregel.graph(),
            exec.config() == pregel.config(),
            exec.thread() == thread_id@,
            exec.time() == ts@,
            exec@ == DriveModel::idle(pregel.graph(), store.history(thread_id@)),
            forall|thread: Seq<char>| (#[trigger] exec.history(thread)) == store.history(thread),
    {
        let exec = Executor { run: PregelLoop::new(pregel), store, thread_id, ts, events: Vec::new(), parent: None };
        assert(exec@.events =~= Seq::<EventModel>::empty());
        exec
    }

    /// Gives back the run, the store and the events collected.
    pub fn into_parts(self) -> (parts: (PregelLoop, MemoryStore, Vec<StepEvent>))
        requires
            self.wf(),
        ensures
            parts.0.wf(),
            parts.0@ == self@.run,
            parts.0.graph() == self.graph(),
            parts.0.config() == self.config(),
            parts.1.wf(),
            forall|thread: Seq<char>| (#[trigger] parts.1.history(thread)) == self.history(thread),
            event_models(parts.2@) == self@.events,
    {
        (self.run, self.store, self.events)
    }

    /// Where the run stands.
    pub fn phase(&self) -> (phase: Phase)
        ensures
            phase == self@.run.phase,
    {
        self.run.phase()
    }

    /// Why the run failed, if it did.
    pub fn failure(&self) -> (failure: Option<Failure>)
        ensures
            failure == self@.run.failure,
    {
        self.run.failure()
    }

    /// The result of the run so far: the contents of the output channels that
    /// hold a value, each with the index of its channel.
    pub fn output(&self) -> (out: Vec<(usize, Vec<Value>)>)
        ensures
            projected(out@) == self@.run.state.projection(self.graph().outputs@),
    {
        self.run.output()
    }

    /// The result of the run so far, under the names of the output channels.
    pub fn named_output(&self) -> (out: Vec<(String, Vec<Value>)>)
        ensures
            named_view(out@) == named_pairs(self.graph(), self@.run.state.projection(self.graph().outputs@)),
    {
        self.run.named_output()
    }

    /// The number of events collected so far.
    pub fn event_count(&self) -> (count: usize)
        ensures
            count == self@.events.len(),
    {
        self.events.len()
    }

    /// Starts the run with `input`, as the scheduler does.
    pub fn start<F: Fn(u64, Value, Value) -> Value>(&mut self, input: &Vec<Write>, op: &F) -> (phase: Phase)
        requires
            old(self).wf(),
            is_operator(*op),
        ensures
            final(self).wf(),
            final(self).graph() == old(self).graph(),
            final(self).config() == old(self).config(),
            final(self).thread() == old(self).thread(),
            final(self).time() == old(self).time(),
            forall|thread: Seq<char>| (#[trigger] final(self).history(thread)) == old(self).history(thread),
            final(self)@ == old(self)@.started(old(self).graph(), input@, operator_of(*op)),
            phase == final(self)@.run.phase,
    {
        self.run.start(input, op)
    }

    /// Resumes an idle run from a checkpoint of its thread: the last one put
    /// under `checkpoint_id`, or without an id the last one put at all. The run
    /// takes up the state of the checkpoint and plans the next superstep.
    /// `NotFound` if the thread holds no such checkpoint; `Mismatch` if it
    /// holds one but the run is not idle or the checkpoint does not suit the
    /// graph. After an error the run is as before.
    pub fn resume(&mut self, checkpoint_id: Option<&String>) -> (r: Result<Phase, ResumeError>)
        requires
            old(self).wf(),
        ensures
            final(self).wf(),
            final(self).graph() == old(self).graph(),
            final(self).config() == old(self).config(),
            final(self).thread() == old(self).thread(),
            final(self).time() == old(self).time(),
            forall|thread: Seq<char>| (#[trigger] final(self).history(thread)) == old(self).history(thread),
            r is Ok <==> old(self)@.can_resume(id_of(checkpoint_id)),
            r is Ok ==> final(self)@ == old(self)@.resumed(old(self).graph(), id_of(checkpoint_id)) && r->Ok_0
                == final(self)@.run.phase,
            r is Err ==> final(self)@ == old(self)@,
            r is Err ==> (r->Err_0 == ResumeError::NotFound <==> selected(
                old(self)@.saved,
                id_of(checkpoint_id),
            ) is None),
    {
        match self.store.get(&self.thread_id, checkpoint_id) {
            Err(_) => Err(ResumeError::NotFound),
            Ok(cp) => {
                if self.run.restore(&cp) {
                    let phase = self.run.proceed();
                    self.parent = Some(cp.id.clone());
                    Ok(phase)
                } else {
                    Err(ResumeError::Mismatch)
                }
            },
        }
    }

    /// Persists the checkpoint that the run asks for, if it asks for one, under
    /// the id of its superstep count, and tells the run that it is persisted.
    fn persist(&mut self)
        requires
            old(self).wf(),
        ensures
            final(self).wf(),
            final(self).graph() == old(self).graph(),
            final(self).config() == old(self).config(),
            final(self).thread() == old(self).thread(),
            final(self).time() == old(self).time(),
            forall|thread: Seq<char>|
                thread != old(self).thread() ==> (#[trigger] final(self).history(thread)) == old(self).history(
                    thread,
                ),
            final(self)@ == old(self)@.persisted(old(self).graph(), old(self).config(), old(self).time()),
    {
        if self.run.persist_due() {
            let id = make_checkpoint_id(self.run.step());
            let cp = self.run.checkpoint(id.clone(), self.ts.clone(), copy_text(&self.parent));
            assert(cp@ == self@.run.checkpoint_model(self.ts@, self@.parent));
            self.store.put(&self.thread_id, cp);
            self.run.report_checkpoint(true);
            self.parent = Some(id);
        }
    }

    /// Runs one superstep: runs every task, each until its output is accepted or
    /// it is given up, merges the outputs, collects the event of the superstep
    /// if it was committed, and persists the checkpoint if the run asks for one.
    pub fn step<N: Fn(Task) -> TaskResult, F: Fn(u64, Value, Value) -> Value>(&mut self, run_node: &N, op: &F)
        requires
            old(self).wf(),
            is_node(*run_node),
            is_operator(*op),
        ensures
            final(self).wf(),
            final(self).graph() == old(self).graph(),
            final(self).config() == old(self).config(),
            final(self).thread() == old(self).thread(),
            final(self).time() == old(self).time(),
            forall|thread: Seq<char>|
                thread != old(self).thread() ==> (#[trigger] final(self).history(thread)) == old(self).history(
                    thread,
                ),
            final(self)@ == old(self)@.stepped(
                old(self).graph(),
                old(self).config(),
                node_fn(*run_node),
                operator_of(*op),
                old(self).time(),
            ),
    {
        drive_tasks(&mut self.run, run_node);
        let worked = self.run.phase() == Phase::Executing;
        let phase = self.run.merge(op);
        if worked && phase != Phase::Failed {
            let ghost before = self.events@;
            let event = self.run.event();
            self.events.push(event);
            assert(event_models(self.events@) =~= event_models(before).push(event@));
        }
        self.persist();
    }

    /// Runs up to `max_steps` supersteps, as long as the run is executing, and
    /// says where the run stands then. A run that is still executing when the
    /// supersteps are used up can be driven further.
    pub fn drive<N: Fn(Task) -> TaskResult, F: Fn(u64, Value, Value) -> Value>(
        &mut self,
        run_node: &N,
        op: &F,
        max_steps: u64,
    ) -> (phase: Phase)
        requires
            old(self).wf(),
            is_node(*run_node),
            is_operator(*op),
        ensures
            final(self).wf(),
            final(self).graph() == old(self).graph(),
            final(self).config() == old(self).config(),
            final(self).thread() == old(self).thread(),
            final(self).time() == old(self).time(),
            forall|thread: Seq<char>|
                thread != old(self).thread() ==> (#[trigger] final(self).history(thread)) == old(self).history(
                    thread,
                ),
            final(self)@ == old(self)@.driven(
                old(self).graph(),
                old(self).config(),
                node_fn(*run_node),
                operator_of(*op),
                old(self).time(),
                max_steps as nat,
            ),
            phase == final(self)@.run.phase,
    {
        let mut left: u64 = max_steps;
        while left > 0 && self.run.phase() == Phase::Executing
            invariant
                self.wf(),
                is_node(*run_node),
                is_operator(*op),
                self.graph() == old(self).graph(),
                self.config() == old(self).config(),
                self.thread() == old(self).thread(),
                self.time() == old(self).time(),
                forall|thread: Seq<char>|
                    thread != old(self).thread() ==> (#[trigger] self.history(thread)) == old(self).history(thread),
                self@.driven(
                    old(self).graph(),
                    old(self).config(),
                    node_fn(*run_node),
                    operator_of(*op),
                    old(self).time(),
                    left as nat,
                ) == old(self)@.driven(
                    old(self).graph(),
                    old(self).config(),
                    node_fn(*run_node),
                    operator_of(*op),
                    old(self).time(),
                    max_steps as nat,
                ),
            decreases left,
        {
            self.step(run_node, op);
            left = left - 1;
        }
        self.run.phase()
    }

    /// Runs the graph on `input`: starts the run, drives it for up to
    /// `max_steps` supersteps, and gives back what the output channels hold.
    pub fn invoke<N: Fn(Task) -> TaskResult, F: Fn(u64, Value, Value) -> Value>(
        &mut self,
        input: &Vec<Write>,
        run_node: &N,
        op: &F,
        max_steps: u64,
    ) -> (out: Vec<(usize, Vec<Value>)>)
        requires
            old(self).wf(),
            is_node(*run_node),
            is_operator(*op),
        ensures
            final(self).wf(),
            final(self).graph() == old(self).graph(),
            final(self).config() == old(self).config(),
            final(self).thread() == old(self).thread(),
            final(self).time() == old(self).time(),
            forall|thread: Seq<char>|
                thread != old(self).thread() ==> (#[trigger] final(self).history(thread)) == old(self).history(
                    thread,
                ),
            final(self)@ == old(self)@.started(old(self).graph(), input@, operator_of(*op)).driven(
                old(self).graph(),
                old(self).config(),
                node_fn(*run_node),
                operator_of(*op),
                old(self).time(),
                max_steps as nat,
            ),
            projected(out@) == final(self)@.run.state.projection(old(self).graph().outputs@),
    {
        self.start(input, op);
        self.drive(run_node, op, max_steps);
        self.run.output()
    }

    /// Runs the graph on `input` as `invoke` does, and gives back the events of
    /// the supersteps committed, one for each, oldest first, in the mode of the
    /// run.
    pub fn stream<N: Fn(Task) -> TaskResult, F: Fn(u64, Value, Value) -> Value>(
        &mut self,
        input: &Vec<Write>,
        run_node: &N,
        op: &F,
        max_steps: u64,
    ) -> (events: Vec<StepEvent>)
        requires
            old(self).wf(),
            is_node(*run_node),
            is_operator(*op),
        ensures
            final(self).wf(),
            final(self).graph() == old(self).graph(),
            final(self).config() == old(self).config(),
            final(self).thread() == old(self).thread(),
            final(self).time() == old(self).time(),
            forall|thread: Seq<char>|
                thread != old(self).thread() ==> (#[trigger] final(self).history(thread)) == old(self).history(
                    thread,
                ),
            event_models(events@) == old(self)@.started(old(self).graph(), input@, operator_of(*op)).driven(
                old(self).graph(),
                old(self).config(),
                node_fn(*run_node),
                operator_of(*op),
                old(self).time(),
                max_steps as nat,
            ).events,
            final(self)@ == (DriveModel {
                events: Seq::<EventModel>::empty(),
                ..old(self)@.started(old(self).graph(), input@, operator_of(*op)).driven(
                    old(self).graph(),
                    old(self).config(),
                    node_fn(*run_node),
                    operator_of(*op),
                    old(self).time(),
                    max_steps as nat,
                )
            }),
    {
        self.start(input, op);
        self.drive(run_node, op, max_steps);
        let ghost driven = *self;
        let mut events: Vec<StepEvent> = Vec::new();
        core::mem::swap(&mut events, &mut self.events);
        assert(event_models(self.events@) =~= Seq::<EventModel>::empty());
        assert(self.store == driven.store);
        assert forall|thread: Seq<char>| thread != old(self).thread() implies (#[trigger] self.history(thread))
            == old(self).history(thread) by {
            assert(self.history(thread) == driven.history(thread));
        }
        events
    }
}

} // verus!
