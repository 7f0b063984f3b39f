use langgraph_core::channel::{BaseChannel, Channel, ChannelKind, LastValue, Reducer, Topic};
use langgraph_core::checkpoint::Checkpoint;
use langgraph_core::errors::{ChannelError, ConfigError};
use langgraph_core::graph::{has_index, is_all_below, ChannelSpec, Edge, Graph, Node, RetryPolicy, Write};
use langgraph_core::manager::{ChannelManager, TaskOutput};
use langgraph_core::pregel::{
    Durability, FailureKind, Phase, Pregel, PregelLoop, RunConfig, StepEvent, StreamMode, TaskResult,
    TaskVerdict,
};
use langgraph_core::value::UNTYPED;

fn sum(_code: u64, a: i64, b: i64) -> i64 {
    a + b
}

fn by_code(code: u64, a: i64, b: i64) -> i64 {
    if code == 1 {
        a.max(b)
    } else {
        a - b
    }
}

fn spec(name: &str, kind: ChannelKind) -> ChannelSpec {
    ChannelSpec { name: String::from(name), kind, typ: 0, operator: 0 }
}

fn plain(id: &str, triggers: Vec<usize>, reads: Vec<usize>, writes: Vec<usize>) -> Node {
    Node {
        id: String::from(id),
        triggers,
        reads,
        writes,
        retry: RetryPolicy { max_attempts: 1, backoff_ms: 0 },
        on_failure: None,
    }
}

fn copy(node: &Node) -> Node {
    Node {
        id: node.id.clone(),
        triggers: node.triggers.clone(),
        reads: node.reads.clone(),
        writes: node.writes.clone(),
        retry: node.retry,
        on_failure: node.on_failure,
    }
}

fn same(channel: &ChannelSpec) -> ChannelSpec {
    ChannelSpec { name: channel.name.clone(), kind: channel.kind, typ: channel.typ, operator: channel.operator }
}

fn quiet() -> RunConfig {
    RunConfig {
        interrupt_before: vec![],
        interrupt_after: vec![],
        stream_mode: StreamMode::Values,
        durability: Durability::Exit,
        checkpointer: false,
        step_timeout_ms: None,
    }
}

fn wrote(writes: Vec<(usize, i64)>) -> TaskResult {
    TaskResult::Success(TaskOutput {
        writes: writes.into_iter().map(|(channel, value)| Write { channel, value }).collect(),
        sends: vec![],
        goto: vec![],
    })
}

// channels: 0 = start, 1 = x, 2 = out; nodes: 0 = A (start -> x), 1 = B (x -> out)
fn chain() -> Graph {
    Graph {
        nodes: vec![plain("A", vec![0], vec![0], vec![1]), plain("B", vec![1], vec![1], vec![2])],
        channels: vec![
            spec("start", ChannelKind::LastValue),
            spec("x", ChannelKind::LastValue),
            spec("out", ChannelKind::LastValue),
        ],
        edges: vec![],
        inputs: vec![0],
        outputs: vec![2],
    }
}

fn started(graph: Graph, config: RunConfig) -> PregelLoop {
    let mut run = PregelLoop::new(Pregel::new(graph, config).unwrap());
    run.start(&vec![Write { channel: 0, value: 1 }], &sum);
    run
}

#[test]
fn last_value_holds_the_value_supplied_most_recently() {
    let mut ch = LastValue::new(7, Some(String::from("k")));
    assert_eq!(ch.value_type(), 7);
    assert_eq!(ch.update_type(), 7);
    assert_eq!(ch.key, "k");
    assert_eq!(ch.get(), Err(ChannelError::EmptyChannelRead));
    assert_eq!(ch.checkpoint(), None);
    let calls: Vec<Vec<i64>> = vec![vec![], vec![5], vec![], vec![9], vec![9], vec![-3], vec![]];
    let mut last = None;
    for call in &calls {
        assert_eq!(ch.update(call), Ok(!call.is_empty()));
        if let Some(value) = call.first() {
            last = Some(*value);
        }
        assert_eq!(ch.get().ok(), last);
    }
    assert_eq!(ch.get(), Ok(-3));
    // several values at once are refused and the value stays
    assert_eq!(ch.update(&vec![1, 1]), Err(ChannelError::MultipleValues));
    assert_eq!(ch.update(&vec![1, 2, 3]), Err(ChannelError::MultipleValues));
    assert_eq!(ch.get(), Ok(-3));
    assert!(ch.is_available());
    assert!(!ch.consume());
    assert!(!ch.finish());
    assert_eq!(ch.checkpoint(), Some(-3));
    let copy = ch.copy();
    assert_eq!(copy.get(), Ok(-3));
    assert_eq!(copy.key, "k");
    let restored = LastValue::from_checkpoint(ch.checkpoint());
    assert_eq!(restored.get(), Ok(-3));
    assert_eq!(restored.typ, UNTYPED);
    assert_eq!(restored.key, "");
    assert!(!LastValue::from_checkpoint(None).is_available());
    ch.restore(None);
    assert_eq!(ch.get(), Err(ChannelError::EmptyChannelRead));
}

#[test]
fn base_channel_refuses_what_needs_state() {
    let mut base = BaseChannel::new(3, None);
    assert_eq!(base.key, "");
    assert_eq!(base.value_type(), 3);
    assert_eq!(base.update_type(), 3);
    assert_eq!(base.get(), Err(ChannelError::NotImplemented));
    assert_eq!(base.update(&vec![1]), Err(ChannelError::NotImplemented));
    assert!(!base.is_available());
    assert!(!base.consume());
    assert!(!base.finish());
    assert_eq!(base.checkpoint(), None);
    assert_eq!(base.copy().typ, 3);
    let fresh = BaseChannel::from_checkpoint(Some(4));
    assert_eq!(fresh.typ, UNTYPED);
    assert_eq!(fresh.key, "");
}

#[test]
fn reducer_folds_in_order_with_its_operator() {
    let mut reducer = Reducer::new(0, None, 2);
    assert_eq!(reducer.operator(), 2);
    assert!(!reducer.update(&vec![], &by_code));
    assert_eq!(reducer.get(), Err(ChannelError::EmptyChannelRead));
    // the first value is taken as it is, the others are subtracted in their order
    assert!(reducer.update(&vec![10, 3, 2], &by_code));
    assert_eq!(reducer.get(), Ok(5));
    assert!(reducer.update(&vec![1], &by_code));
    assert_eq!(reducer.get(), Ok(4));
    let mut largest = Reducer::new(0, None, 1);
    assert!(largest.update(&vec![3, 8, 5], &by_code));
    assert_eq!(largest.get(), Ok(8));
    assert_eq!(largest.copy().checkpoint(), Some(8));
    largest.restore(Some(2));
    assert_eq!(largest.get(), Ok(2));
}

#[test]
fn channels_of_any_kind_restore_what_fits() {
    let mut topic = Channel::Topic(Topic::new(0, None));
    assert_eq!(topic.kind(), ChannelKind::Topic);
    assert!(topic.restore(&vec![1, 2, 3]));
    assert_eq!(topic.get(), Ok(vec![1, 2, 3]));
    assert_eq!(topic.update(&vec![4, 5], &sum), Ok(true));
    assert_eq!(topic.checkpoint(), vec![1, 2, 3, 4, 5]);
    let mut last = Channel::LastValue(LastValue::new(0, None));
    assert!(!last.restore(&vec![1, 2]));
    assert!(!last.is_available());
    assert!(last.restore(&vec![6]));
    assert_eq!(last.copy().get(), Ok(vec![6]));
    assert!(last.restore(&vec![]));
    assert_eq!(last.get(), Err(ChannelError::EmptyChannelRead));
    let mut reducer = Channel::Reducer(Reducer::new(0, None, 0));
    assert!(!reducer.restore(&vec![1, 2]));
    assert!(reducer.restore(&vec![2]));
    assert_eq!(reducer.update(&vec![3, 4], &sum), Ok(true));
    assert_eq!(reducer.get(), Ok(vec![9]));
    assert!(!reducer.consume());
    assert!(!reducer.finish());
}

#[test]
fn validation_names_the_first_kind_of_fault() {
    assert_eq!(chain().validate(), Ok(()));
    let mut graph = chain();
    graph.nodes[1].id = String::from("A");
    graph.nodes[0].reads = vec![9];
    graph.edges = vec![Edge::Static { from: 0, to: 5 }];
    assert_eq!(graph.validate(), Err(ConfigError::DuplicateId));
    graph.nodes[1].id = String::from("B");
    assert_eq!(graph.validate(), Err(ConfigError::MissingChannel));
    graph.nodes[0].reads = vec![0];
    assert_eq!(graph.validate(), Err(ConfigError::DanglingEdge));
    graph.edges = vec![Edge::Conditional { from: 0, targets: vec![1, 2] }];
    assert_eq!(graph.validate(), Err(ConfigError::DanglingEdge));
    graph.edges = vec![Edge::Conditional { from: 0, targets: vec![1] }];
    assert_eq!(graph.validate(), Ok(()));
    graph.channels[2].name = String::from("x");
    assert_eq!(graph.validate(), Err(ConfigError::DuplicateId));
    graph.channels[2].name = String::from("out");
    graph.outputs = vec![3];
    assert_eq!(graph.validate(), Err(ConfigError::MissingChannel));
    graph.outputs = vec![2];
    graph.nodes[0].on_failure = Some(3);
    assert_eq!(graph.validate(), Err(ConfigError::MissingChannel));
    assert_eq!(Pregel::new(graph, quiet()).err(), Some(ConfigError::MissingChannel));
    assert!(is_all_below(&vec![0, 1, 2], 3));
    assert!(!is_all_below(&vec![0, 3], 3));
    assert!(has_index(&vec![4, 5], 5));
    assert!(!has_index(&vec![4, 5], 6));
}

#[test]
fn tasks_of_one_superstep_read_the_same_committed_state() {
    // both nodes are triggered by start; the first writes x, the second reads x
    let graph = Graph {
        nodes: vec![plain("writer", vec![0], vec![0], vec![1]), plain("reader", vec![0], vec![1], vec![2])],
        channels: vec![
            spec("start", ChannelKind::LastValue),
            spec("x", ChannelKind::LastValue),
            spec("out", ChannelKind::LastValue),
        ],
        edges: vec![],
        inputs: vec![0, 1],
        outputs: vec![2],
    };
    let mut run = PregelLoop::new(Pregel::new(graph, quiet()).unwrap());
    run.start(&vec![Write { channel: 0, value: 1 }, Write { channel: 1, value: 10 }], &sum);
    let before = run.tasks();
    assert_eq!(before[1].reads, vec![vec![10]]);
    assert_eq!(run.report(0, wrote(vec![(1, 99)])), TaskVerdict::Accepted);
    // the writer's proposal is in, and the reader is still handed the old value
    let after = run.tasks();
    assert_eq!(after[1].reads, vec![vec![10]]);
    assert_eq!(run.task(1).unwrap().reads, vec![vec![10]]);
    assert_eq!(run.read(1), Ok(vec![10]));
    assert!(run.is_done(0));
    assert!(!run.is_done(1));
    // merging before every output is in changes nothing
    assert_eq!(run.merge(&sum), Phase::Executing);
    assert_eq!(run.step(), 0);
    assert_eq!(run.report(1, wrote(vec![(2, 10)])), TaskVerdict::Accepted);
    assert_eq!(run.merge(&sum), Phase::Done);
    assert_eq!(run.read(1), Ok(vec![99]));
    assert_eq!(run.output(), vec![(2usize, vec![10i64])]);
}

#[test]
fn writes_outside_the_declared_channels_are_dropped() {
    let mut run = started(chain(), quiet());
    assert_eq!(run.report(0, wrote(vec![(2, 5), (7, 5), (0, 5), (1, 2)])), TaskVerdict::Accepted);
    assert_eq!(run.merge(&sum), Phase::Executing);
    assert_eq!(run.read(0), Ok(vec![1]));
    assert_eq!(run.read(1), Ok(vec![2]));
    assert_eq!(run.read(2), Err(ChannelError::EmptyChannelRead));
    assert_eq!(run.version(0), Some(1));
    assert_eq!(run.version(1), Some(1));
    assert_eq!(run.version(2), Some(0));
    assert_eq!(run.version(3), None);
}

#[test]
fn input_that_a_channel_refuses_fails_the_run() {
    let mut run = PregelLoop::new(Pregel::new(chain(), quiet()).unwrap());
    let phase = run.start(&vec![Write { channel: 0, value: 1 }, Write { channel: 0, value: 2 }], &sum);
    assert_eq!(phase, Phase::Failed);
    let failure = run.failure().unwrap();
    assert_eq!(failure.kind, FailureKind::Channel(ChannelError::MultipleValues));
    assert_eq!(failure.channel, Some(0));
    assert_eq!(failure.node, None);
    assert_eq!(run.read(0), Err(ChannelError::EmptyChannelRead));
    // a run that is not idle is not started again
    assert_eq!(run.start(&vec![Write { channel: 0, value: 1 }], &sum), Phase::Failed);
}

#[test]
fn input_to_a_channel_that_takes_none_is_dropped() {
    let mut run = PregelLoop::new(Pregel::new(chain(), quiet()).unwrap());
    assert_eq!(run.start(&vec![Write { channel: 1, value: 1 }], &sum), Phase::Done);
    assert_eq!(run.read(1), Err(ChannelError::EmptyChannelRead));
}

#[test]
fn retries_are_counted_by_the_scheduler() {
    let mut graph = chain();
    graph.nodes[0].retry = RetryPolicy { max_attempts: 3, backoff_ms: 250 };
    let mut run = started(graph, quiet());
    assert_eq!(run.report(5, TaskResult::Fatal(1)), TaskVerdict::Ignored);
    assert_eq!(run.report(0, TaskResult::Retryable(4)), TaskVerdict::RetryAfter(250));
    assert_eq!(run.report(0, TaskResult::Retryable(5)), TaskVerdict::RetryAfter(250));
    assert_eq!(run.phase(), Phase::Executing);
    assert_eq!(run.report(0, TaskResult::Retryable(6)), TaskVerdict::Failed);
    assert_eq!(run.phase(), Phase::Failed);
    let failure = run.failure().unwrap();
    assert_eq!(failure.kind, FailureKind::RetriesExhausted(6));
    assert_eq!(failure.node, Some(0));
    assert_eq!(run.report(0, wrote(vec![])), TaskVerdict::Ignored);
    assert_eq!(run.merge(&sum), Phase::Failed);
}

#[test]
fn a_retry_that_succeeds_is_accepted() {
    let mut graph = chain();
    graph.nodes[0].retry = RetryPolicy { max_attempts: 2, backoff_ms: 10 };
    let mut run = started(graph, quiet());
    assert_eq!(run.report(0, TaskResult::Retryable(4)), TaskVerdict::RetryAfter(10));
    assert_eq!(run.report(0, wrote(vec![(1, 2)])), TaskVerdict::Accepted);
    assert_eq!(run.report(0, wrote(vec![(1, 3)])), TaskVerdict::Ignored);
    assert_eq!(run.merge(&sum), Phase::Executing);
    assert_eq!(run.read(1), Ok(vec![2]));
}

#[test]
fn a_failure_is_rerouted_to_the_failure_channel() {
    // channels: 0 = start, 1 = x, 2 = out, 3 = failed; node 2 handles failures of A
    let mut graph = chain();
    graph.channels.push(spec("failed", ChannelKind::LastValue));
    graph.nodes[0].on_failure = Some(3);
    graph.nodes.push(plain("handler", vec![], vec![3], vec![2]));
    // without a conditional edge the failure is not routed around
    let mut run = started(
        Graph {
            nodes: graph.nodes.iter().map(copy).collect(),
            channels: graph.channels.iter().map(same).collect(),
            edges: vec![],
            inputs: vec![0],
            outputs: vec![2],
        },
        quiet(),
    );
    assert_eq!(run.report(0, TaskResult::Fatal(42)), TaskVerdict::Failed);
    assert_eq!(run.failure().unwrap().kind, FailureKind::Node(42));
    graph.edges = vec![Edge::Conditional { from: 0, targets: vec![2] }];
    let mut run = started(graph, quiet());
    assert_eq!(run.report(0, TaskResult::Fatal(42)), TaskVerdict::Rerouted);
    assert_eq!(run.merge(&sum), Phase::Executing);
    assert_eq!(run.read(3), Ok(vec![42]));
    let tasks = run.tasks();
    assert_eq!(tasks.len(), 1);
    assert_eq!(tasks[0].node, 2);
    assert_eq!(tasks[0].reads, vec![vec![42]]);
    assert_eq!(run.task_count(), 1);
}

#[test]
fn a_timeout_fails_the_run_and_keeps_the_state() {
    let mut run = started(chain(), quiet());
    run.report(0, wrote(vec![(1, 2)]));
    assert_eq!(run.timed_out(), Phase::Failed);
    assert_eq!(run.failure().unwrap().kind, FailureKind::Timeout);
    assert_eq!(run.failure().unwrap().step, 0);
    assert_eq!(run.read(1), Err(ChannelError::EmptyChannelRead));
    assert_eq!(run.read(0), Ok(vec![1]));
    assert_eq!(run.timed_out(), Phase::Failed);
}

#[test]
fn interrupt_before_a_node_stops_the_run_until_it_is_let_go_on() {
    let mut config = quiet();
    config.interrupt_before = vec![1];
    let mut run = started(chain(), config);
    run.report(0, wrote(vec![(1, 2)]));
    assert_eq!(run.merge(&sum), Phase::Interrupted);
    assert_eq!(run.tasks().len(), 0);
    assert_eq!(run.read(1), Ok(vec![2]));
    assert_eq!(run.proceed(), Phase::Executing);
    assert_eq!(run.tasks()[0].node, 1);
    run.report(0, wrote(vec![(2, 4)]));
    assert_eq!(run.merge(&sum), Phase::Done);
    assert_eq!(run.proceed(), Phase::Done);
}

#[test]
fn interrupt_after_a_channel_stops_the_run() {
    let mut config = quiet();
    config.interrupt_after = vec![2];
    let mut run = started(chain(), config);
    run.report(0, wrote(vec![(1, 2)]));
    assert_eq!(run.merge(&sum), Phase::Executing);
    run.report(0, wrote(vec![(2, 4)]));
    assert_eq!(run.merge(&sum), Phase::Interrupted);
    assert_eq!(run.output(), vec![(2usize, vec![4i64])]);
    assert_eq!(run.proceed(), Phase::Done);
}

#[test]
fn a_request_to_stop_is_honoured_when_the_run_plans() {
    let mut run = started(chain(), quiet());
    run.cancel();
    // the superstep that is executing is finished first
    assert_eq!(run.phase(), Phase::Executing);
    assert_eq!(run.report(0, wrote(vec![(1, 2)])), TaskVerdict::Accepted);
    assert_eq!(run.merge(&sum), Phase::Interrupted);
    assert_eq!(run.read(1), Ok(vec![2]));
    assert_eq!(run.step(), 1);
    assert_eq!(run.proceed(), Phase::Executing);
}

#[test]
fn a_run_that_waits_for_its_checkpoint_goes_on_when_it_is_persisted() {
    let mut config = quiet();
    config.checkpointer = true;
    config.durability = Durability::EveryStep;
    let mut run = started(chain(), config);
    assert!(!run.persist_due());
    run.report(0, wrote(vec![(1, 2)]));
    assert_eq!(run.merge(&sum), Phase::CheckpointPending);
    assert!(run.persist_due());
    let cp = run.checkpoint(String::from("id-1"), String::from("noon"), Some(String::from("id-0")));
    assert_eq!(cp.v, 1);
    assert_eq!(cp.id, "id-1");
    assert_eq!(cp.ts, "noon");
    assert_eq!(cp.parent_id, Some(String::from("id-0")));
    assert_eq!(cp.step, 1);
    assert_eq!(cp.updated_channels, Some(vec![1]));
    assert_eq!(cp.channel_values, vec![vec![1], vec![2], vec![]]);
    assert_eq!(run.report_checkpoint(true), Phase::Executing);
    assert!(!run.persist_due());

    // a fresh run takes the checkpoint up
    let mut other = PregelLoop::new(Pregel::new(chain(), quiet()).unwrap());
    assert!(other.restore(&cp));
    assert_eq!(other.phase(), Phase::Interrupted);
    assert_eq!(other.step(), 1);
    assert!(!other.restore(&cp));
    assert_eq!(other.proceed(), Phase::Executing);
    assert_eq!(other.tasks()[0].reads, vec![vec![2]]);
    let pregel = other.into_pregel();
    assert_eq!(pregel.get_graph().nodes.len(), 2);
    assert!(!pregel.get_config().checkpointer);
}

#[test]
fn a_lost_checkpoint_fails_a_run_that_waits_and_degrades_one_that_does_not() {
    let mut config = quiet();
    config.checkpointer = true;
    config.durability = Durability::EveryStep;
    let mut run = started(chain(), config);
    run.report(0, wrote(vec![(1, 2)]));
    run.merge(&sum);
    assert_eq!(run.report_checkpoint(false), Phase::Failed);
    assert_eq!(run.failure().unwrap().kind, FailureKind::Checkpoint);
    assert_eq!(run.read(1), Ok(vec![2]));

    let mut config = quiet();
    config.checkpointer = true;
    config.durability = Durability::Async;
    let mut run = started(chain(), config);
    run.report(0, wrote(vec![(1, 2)]));
    assert_eq!(run.merge(&sum), Phase::Executing);
    assert!(run.persist_due());
    assert_eq!(run.report_checkpoint(false), Phase::Executing);
    run.report(0, wrote(vec![(2, 4)]));
    assert_eq!(run.merge(&sum), Phase::Done);
    assert!(!run.persist_due());
}

#[test]
fn events_follow_the_mode_of_the_run() {
    let mut config = quiet();
    config.stream_mode = StreamMode::Updates;
    let mut run = started(chain(), config);
    run.report(0, wrote(vec![(1, 2)]));
    run.merge(&sum);
    match run.event() {
        StepEvent::Updates(pairs) => assert_eq!(pairs, vec![(1usize, vec![2i64])]),
        _ => panic!("updates expected"),
    }
    let mut config = quiet();
    config.stream_mode = StreamMode::Debug;
    let mut run = started(chain(), config);
    run.report(0, wrote(vec![(1, 2)]));
    run.merge(&sum);
    match run.event() {
        StepEvent::Debug { step, nodes, updated } => {
            assert_eq!((step, nodes, updated), (1, vec![0usize], vec![1usize]));
        },
        _ => panic!("debug expected"),
    }
    assert_eq!(StreamMode::from_name(&String::from("values")), Some(StreamMode::Values));
    assert_eq!(StreamMode::from_name(&String::from("updates")), Some(StreamMode::Updates));
    assert_eq!(StreamMode::from_name(&String::from("debug")), Some(StreamMode::Debug));
    assert_eq!(StreamMode::from_name(&String::from("Values")), None);
    assert_eq!(Durability::from_name(&String::from("exit")), Some(Durability::Exit));
    assert_eq!(Durability::from_name(&String::from("every-step")), Some(Durability::EveryStep));
    assert_eq!(Durability::from_name(&String::from("async")), Some(Durability::Async));
    assert_eq!(Durability::from_name(&String::from("")), None);
}

#[test]
fn a_version_at_its_end_cannot_advance() {
    let graph = chain();
    let mut state = ChannelManager::new(&graph);
    let mut cp = state.checkpoint(String::new(), String::new(), None, 0, None);
    cp.channel_versions[1] = u64::MAX;
    assert!(state.restore(&cp));
    let out = TaskOutput { writes: vec![Write { channel: 1, value: 2 }], sends: vec![], goto: vec![] };
    assert_eq!(
        state.apply_writes(&graph, &vec![0], &vec![out], &sum),
        Err((1, ChannelError::VersionExhausted))
    );
    assert_eq!(state.version(1), Some(u64::MAX));
    assert_eq!(state.get(1), Err(ChannelError::EmptyChannelRead));
    assert_eq!(state.get(9), Err(ChannelError::EmptyChannelRead));
    state.finish();
}

#[test]
fn a_checkpoint_that_does_not_suit_is_refused() {
    let graph = chain();
    let mut state = ChannelManager::new(&graph);
    state.write_input(&graph, &vec![Write { channel: 0, value: 1 }], &sum).unwrap();
    let good = state.checkpoint(String::new(), String::new(), None, 0, None);
    let mut short = good.copy();
    short.channel_versions.pop();
    assert!(!state.restore(&short));
    let mut crowded = good.copy();
    crowded.channel_values[1] = vec![1, 2];
    assert!(!state.restore(&crowded));
    let mut ahead = good.copy();
    ahead.versions_seen[0][2] = 1;
    assert!(!state.restore(&ahead));
    let mut ragged = good.copy();
    ragged.versions_seen[1].push(0);
    assert!(!state.restore(&ragged));
    assert!(!state.restore(&Checkpoint::new()));
    assert_eq!(state.get(0), Ok(vec![1]));
    assert!(state.restore(&good));
    assert_eq!(state.project(&vec![2, 0, 7, 0]), vec![(0usize, vec![1i64]), (0usize, vec![1i64])]);
    assert_eq!(state.due_nodes(&graph), vec![0]);
    assert_eq!(state.plan(&graph).len(), 1);
}

#[test]
fn checkpoint_json_shows_version_id_and_time() {
    let mut cp = Checkpoint::new();
    assert_eq!(cp.to_json(), "{\"v\": 1, \"id\": \"\", \"ts\": \"\"}");
    cp.v = -2140;
    cp.id = String::from("abc");
    cp.ts = String::from("2024-01-01T00:00:00Z");
    assert_eq!(cp.to_json(), "{\"v\": -2140, \"id\": \"abc\", \"ts\": \"2024-01-01T00:00:00Z\"}");
    cp.v = i32::MIN;
    assert_eq!(cp.to_json(), "{\"v\": -2147483648, \"id\": \"abc\", \"ts\": \"2024-01-01T00:00:00Z\"}");
    cp.v = 0;
    assert_eq!(cp.copy().to_json(), "{\"v\": 0, \"id\": \"abc\", \"ts\": \"2024-01-01T00:00:00Z\"}");
    let read = Checkpoint::from_json("{\"v\": 5, \"id\": \"x\", \"ts\": \"y\"}");
    assert_eq!(read.v, 1);
    assert_eq!(read.id, "");
    assert_eq!(read.channel_values.len(), 0);
    assert_eq!(read.updated_channels, None);
}
