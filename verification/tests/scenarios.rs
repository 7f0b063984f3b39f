use langgraph_core::channel::{Channel, ChannelKind, LastValue, Reducer, Topic};
use langgraph_core::errors::ChannelError;
use langgraph_core::graph::{ChannelSpec, Edge, Graph, Node, RetryPolicy, Send, Write};
use langgraph_core::manager::{ChannelManager, TaskOutput};
use langgraph_core::pregel::{
    Durability, Phase, Pregel, PregelLoop, RunConfig, StreamMode, TaskResult, TaskVerdict,
};

fn sum(_code: u64, a: i64, b: i64) -> i64 {
    a + b
}

fn channel(name: &str, kind: ChannelKind) -> ChannelSpec {
    ChannelSpec { name: String::from(name), kind, typ: 0, operator: 0 }
}

fn node(id: &str, triggers: Vec<usize>, reads: Vec<usize>, writes: Vec<usize>) -> Node {
    Node {
        id: String::from(id),
        triggers,
        reads,
        writes,
        retry: RetryPolicy { max_attempts: 1, backoff_ms: 0 },
        on_failure: None,
    }
}

fn config() -> RunConfig {
    RunConfig {
        interrupt_before: vec![],
        interrupt_after: vec![],
        stream_mode: StreamMode::Values,
        durability: Durability::Exit,
        checkpointer: false,
        step_timeout_ms: None,
    }
}

fn output(writes: Vec<(usize, i64)>) -> TaskOutput {
    TaskOutput {
        writes: writes.into_iter().map(|(channel, value)| Write { channel, value }).collect(),
        sends: vec![],
        goto: vec![],
    }
}

// channels: 0 = start, 1 = x, 2 = out; nodes: 0 = A, 1 = B
fn two_node_graph() -> Graph {
    Graph {
        nodes: vec![node("A", vec![0], vec![0], vec![1]), node("B", vec![1], vec![1], vec![2])],
        channels: vec![
            channel("start", ChannelKind::LastValue),
            channel("x", ChannelKind::LastValue),
            channel("out", ChannelKind::LastValue),
        ],
        edges: vec![],
        inputs: vec![0],
        outputs: vec![2],
    }
}

#[test]
fn two_nodes_in_a_chain_run_one_after_the_other() {
    let pregel = Pregel::new(two_node_graph(), config()).unwrap();
    let mut run = PregelLoop::new(pregel);
    assert_eq!(run.phase(), Phase::Idle);
    assert_eq!(run.start(&vec![Write { channel: 0, value: 1 }], &sum), Phase::Executing);

    let tasks = run.tasks();
    assert_eq!(tasks.len(), 1);
    assert_eq!(tasks[0].node, 0);
    assert_eq!(tasks[0].reads, vec![vec![1]]);
    let start = tasks[0].reads[0][0];
    assert_eq!(run.report(0, TaskResult::Success(output(vec![(1, start + 1)]))), TaskVerdict::Accepted);
    assert_eq!(run.merge(&sum), Phase::Executing);
    assert_eq!(run.read(1).unwrap(), vec![2]);
    assert_eq!(run.step(), 1);

    let tasks = run.tasks();
    assert_eq!(tasks.len(), 1);
    assert_eq!(tasks[0].node, 1);
    assert_eq!(tasks[0].reads, vec![vec![2]]);
    let x = tasks[0].reads[0][0];
    assert_eq!(run.report(0, TaskResult::Success(output(vec![(2, x * 2)]))), TaskVerdict::Accepted);
    assert_eq!(run.merge(&sum), Phase::Done);
    assert_eq!(run.step(), 2);
    assert_eq!(run.tasks().len(), 0);
    assert_eq!(run.output(), vec![(2usize, vec![4i64])]);
}

#[test]
fn reducer_sums_two_writes_of_one_superstep() {
    let mut reducer = Channel::Reducer(Reducer::new(0, Some(String::from("total")), 0));
    assert_eq!(reducer.update(&vec![3, 5], &sum), Ok(true));
    assert_eq!(reducer.get().unwrap(), vec![8]);

    let mut last = Channel::LastValue(LastValue::new(0, Some(String::from("single"))));
    assert_eq!(last.update(&vec![3, 5], &sum), Err(ChannelError::MultipleValues));
    assert_eq!(last.get(), Err(ChannelError::EmptyChannelRead));
}

#[test]
fn reducer_merges_writes_of_two_tasks() {
    // channels: 0 = go, 1 = total (reducer); both nodes are triggered by go and write total
    let graph = Graph {
        nodes: vec![node("left", vec![0], vec![0], vec![1]), node("right", vec![0], vec![0], vec![1])],
        channels: vec![channel("go", ChannelKind::LastValue), channel("total", ChannelKind::Reducer)],
        edges: vec![],
        inputs: vec![0],
        outputs: vec![1],
    };
    let mut run = PregelLoop::new(Pregel::new(graph, config()).unwrap());
    assert_eq!(run.start(&vec![Write { channel: 0, value: 0 }], &sum), Phase::Executing);
    assert_eq!(run.tasks().len(), 2);
    run.report(0, TaskResult::Success(output(vec![(1, 3)])));
    run.report(1, TaskResult::Success(output(vec![(1, 5)])));
    assert_eq!(run.merge(&sum), Phase::Done);
    assert_eq!(run.output(), vec![(1usize, vec![8i64])]);
    assert_eq!(run.version(1), Some(1));
}

#[test]
fn conflicting_last_value_writes_abort_the_superstep() {
    let graph = Graph {
        nodes: vec![node("left", vec![0], vec![0], vec![1]), node("right", vec![0], vec![0], vec![1, 2])],
        channels: vec![
            channel("go", ChannelKind::LastValue),
            channel("single", ChannelKind::LastValue),
            channel("other", ChannelKind::LastValue),
        ],
        edges: vec![],
        inputs: vec![0],
        outputs: vec![1, 2],
    };
    let mut run = PregelLoop::new(Pregel::new(graph, config()).unwrap());
    run.start(&vec![Write { channel: 0, value: 0 }], &sum);
    run.report(0, TaskResult::Success(output(vec![(1, 3)])));
    run.report(1, TaskResult::Success(output(vec![(2, 9), (1, 3)])));
    assert_eq!(run.merge(&sum), Phase::Failed);
    let failure = run.failure().unwrap();
    assert_eq!(failure.channel, Some(1));
    assert_eq!(failure.step, 0);
    // nothing of the superstep was committed
    assert_eq!(run.read(1), Err(ChannelError::EmptyChannelRead));
    assert_eq!(run.read(2), Err(ChannelError::EmptyChannelRead));
    assert_eq!(run.version(1), Some(0));
    assert_eq!(run.version(2), Some(0));
    assert_eq!(run.step(), 0);
}

#[test]
fn topic_collects_in_order() {
    let mut topic = Topic::new(0, None);
    assert!(!topic.is_available());
    assert_eq!(topic.get(), Err(ChannelError::EmptyChannelRead));
    assert!(!topic.update(&vec![]));
    assert!(topic.update(&vec![4, 4, 2]));
    assert!(topic.update(&vec![7]));
    assert_eq!(topic.get().unwrap(), vec![4, 4, 2, 7]);
    assert!(!topic.consume());
    assert_eq!(topic.checkpoint(), vec![4, 4, 2, 7]);
}

#[test]
fn checkpoint_round_trip_on_a_manager() {
    let graph = two_node_graph();
    let mut state = ChannelManager::new(&graph);
    state.write_input(&graph, &vec![Write { channel: 0, value: 1 }], &sum).unwrap();
    state.apply_writes(&graph, &vec![0], &vec![output(vec![(1, 2)])], &sum).unwrap();
    let cp = state.checkpoint(String::from("0001"), String::from("now"), None, 1, None);
    assert_eq!(cp.channel_values, vec![vec![1], vec![2], vec![]]);
    assert_eq!(cp.channel_versions, vec![1, 1, 0]);
    assert_eq!(cp.versions_seen, vec![vec![1, 0, 0], vec![0, 0, 0]]);

    let mut other = ChannelManager::new(&graph);
    assert!(other.restore(&cp));
    let again = other.checkpoint(String::from("0001"), String::from("now"), None, 1, None);
    assert_eq!(again.channel_values, cp.channel_values);
    assert_eq!(again.channel_versions, cp.channel_versions);
    assert_eq!(again.versions_seen, cp.versions_seen);
    assert_eq!(again.pending_nodes, cp.pending_nodes);
    assert_eq!(again.pending_sends, cp.pending_sends);
    assert!(other.is_due(&graph, 1));
    assert!(!other.is_due(&graph, 0));
}

#[test]
fn sends_and_edges_schedule_nodes() {
    // channels: 0 = go; nodes: 0 = first, 1 = by_edge, 2 = by_send, 3 = never
    let graph = Graph {
        nodes: vec![
            node("first", vec![0], vec![], vec![]),
            node("by_edge", vec![], vec![], vec![]),
            node("by_send", vec![], vec![], vec![]),
            node("never", vec![], vec![], vec![]),
        ],
        channels: vec![channel("go", ChannelKind::LastValue)],
        edges: vec![Edge::Static { from: 0, to: 1 }, Edge::Conditional { from: 0, targets: vec![3] }],
        inputs: vec![0],
        outputs: vec![],
    };
    let mut run = PregelLoop::new(Pregel::new(graph, config()).unwrap());
    run.start(&vec![Write { channel: 0, value: 0 }], &sum);
    let out = TaskOutput {
        writes: vec![],
        sends: vec![Send { target: 2, payload: 41 }, Send { target: 2, payload: 42 }],
        goto: vec![],
    };
    run.report(0, TaskResult::Success(out));
    assert_eq!(run.merge(&sum), Phase::Executing);
    let tasks = run.tasks();
    assert_eq!(tasks.len(), 2);
    assert_eq!(tasks[0].node, 1);
    assert_eq!(tasks[0].payloads, Vec::<i64>::new());
    assert_eq!(tasks[1].node, 2);
    assert_eq!(tasks[1].payloads, vec![41, 42]);
}
