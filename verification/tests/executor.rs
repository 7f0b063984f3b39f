use langgraph_core::builder::{default_config, GraphExecutor};
use langgraph_core::channel::ChannelKind;
use langgraph_core::checkpoint::Checkpoint;
use langgraph_core::errors::ConfigError;
use langgraph_core::executor::{make_checkpoint_id, Executor, ResumeError};
use langgraph_core::graph::{RetryPolicy, Write};
use langgraph_core::manager::{Task, TaskOutput};
use langgraph_core::pregel::{
    Durability, FailureKind, Phase, RunConfig, StepEvent, StreamMode, TaskResult,
};
use langgraph_core::store::{MemoryStore, StoreError};

fn first(_code: u64, a: i64, _b: i64) -> i64 {
    a
}

fn names(list: &[&str]) -> Vec<String> {
    list.iter().map(|s| String::from(*s)).collect()
}

fn once() -> RetryPolicy {
    RetryPolicy { max_attempts: 1, backoff_ms: 0 }
}

// A reads start and writes x = start + 1; B reads x and writes out = x * 2.
fn chain() -> GraphExecutor {
    let mut builder = GraphExecutor::new();
    assert_eq!(builder.add_channel(String::from("start"), ChannelKind::LastValue, 0, 0), Ok(0));
    assert_eq!(builder.add_channel(String::from("x"), ChannelKind::LastValue, 0, 0), Ok(1));
    assert_eq!(builder.add_channel(String::from("out"), ChannelKind::LastValue, 0, 0), Ok(2));
    assert_eq!(
        builder.add_node(String::from("A"), names(&["start"]), names(&["start"]), names(&["x"]), once()),
        Ok(0)
    );
    assert_eq!(builder.add_node(String::from("B"), names(&["x"]), names(&["x"]), names(&["out"]), once()), Ok(1));
    assert_eq!(builder.set_inputs(&names(&["start"])), Ok(()));
    assert_eq!(builder.set_outputs(&names(&["out"])), Ok(()));
    builder
}

fn chain_node(task: Task) -> TaskResult {
    let read = task.reads[0][0];
    let write = if task.node == 0 { Write { channel: 1, value: read + 1 } } else { Write { channel: 2, value: read * 2 } };
    TaskResult::Success(TaskOutput { writes: vec![write], sends: vec![], goto: vec![] })
}

fn config(stream_mode: StreamMode, durability: Durability, checkpointer: bool) -> RunConfig {
    RunConfig {
        interrupt_before: vec![],
        interrupt_after: vec![],
        stream_mode,
        durability,
        checkpointer,
        step_timeout_ms: None,
    }
}

#[test]
fn invoke_runs_the_chain_to_its_end() {
    let exec = chain().execute_graph(&vec![(String::from("start"), 1)], &chain_node, &first, 10).unwrap();
    assert_eq!(exec.phase(), Phase::Done);
    assert_eq!(exec.output(), vec![(2usize, vec![4i64])]);
    assert_eq!(exec.named_output(), vec![(String::from("out"), vec![4i64])]);
    // one event for each of the two supersteps committed
    assert_eq!(exec.event_count(), 2);
    let (run, _store, events) = exec.into_parts();
    assert_eq!(run.step(), 2);
    match &events[0] {
        StepEvent::Values(pairs) => assert_eq!(pairs, &Vec::<(usize, Vec<i64>)>::new()),
        _ => panic!("values expected"),
    }
    match &events[1] {
        StepEvent::Values(pairs) => assert_eq!(pairs, &vec![(2usize, vec![4i64])]),
        _ => panic!("values expected"),
    }
}

#[test]
fn execute_graph_refuses_unknown_input_and_bad_graphs() {
    let r = chain().execute_graph(&vec![(String::from("nowhere"), 1)], &chain_node, &first, 10);
    assert_eq!(r.err(), Some(ConfigError::MissingChannel));

    let mut builder = GraphExecutor::new();
    assert_eq!(builder.add_channel(String::from("c"), ChannelKind::Topic, 0, 0), Ok(0));
    assert_eq!(builder.add_channel(String::from("c"), ChannelKind::Topic, 0, 0), Err(ConfigError::DuplicateId));
    assert_eq!(builder.add_node(String::from("n"), names(&["c"]), vec![], vec![], once()), Ok(0));
    assert_eq!(
        builder.add_node(String::from("n"), names(&["c"]), vec![], vec![], once()),
        Err(ConfigError::DuplicateId)
    );
    assert_eq!(
        builder.add_node(String::from("m"), names(&["d"]), vec![], vec![], once()),
        Err(ConfigError::MissingChannel)
    );
    assert_eq!(builder.add_edge(&String::from("n"), &String::from("m")), Err(ConfigError::DanglingEdge));
    assert_eq!(builder.add_edge(&String::from("n"), &String::from("n")), Ok(()));
    assert_eq!(
        builder.add_conditional_edge(&String::from("n"), &names(&["n", "zz"])),
        Err(ConfigError::DanglingEdge)
    );
    assert_eq!(builder.set_outputs(&names(&["zz"])), Err(ConfigError::MissingChannel));
    assert_eq!(builder.channel_index(&String::from("c")), Some(0));
    assert_eq!(builder.node_index(&String::from("m")), None);
}

#[test]
fn stream_shows_updates_and_debug() {
    let writes = vec![Write { channel: 0, value: 1 }];
    let pregel = chain().compile(config(StreamMode::Updates, Durability::Exit, false)).unwrap();
    let mut exec = Executor::new(pregel, MemoryStore::new(), String::from("t"), String::from("now"));
    let events = exec.stream(&writes, &chain_node, &first, 10);
    assert_eq!(events.len(), 2);
    match &events[0] {
        StepEvent::Updates(pairs) => assert_eq!(pairs, &vec![(1usize, vec![2i64])]),
        _ => panic!("updates expected"),
    }
    match &events[1] {
        StepEvent::Updates(pairs) => assert_eq!(pairs, &vec![(2usize, vec![4i64])]),
        _ => panic!("updates expected"),
    }
    assert_eq!(exec.event_count(), 0);

    let pregel = chain().compile(config(StreamMode::Debug, Durability::Exit, false)).unwrap();
    let mut exec = Executor::new(pregel, MemoryStore::new(), String::from("t"), String::from("now"));
    let events = exec.stream(&writes, &chain_node, &first, 10);
    match &events[1] {
        StepEvent::Debug { step, nodes, updated } => {
            assert_eq!(*step, 2);
            assert_eq!(nodes, &vec![1usize]);
            assert_eq!(updated, &vec![2usize]);
        },
        _ => panic!("debug expected"),
    }
}

#[test]
fn a_run_resumed_from_a_checkpoint_ends_like_the_run_never_stopped() {
    let writes = vec![Write { channel: 0, value: 1 }];
    // the run that is never stopped
    let pregel = chain().compile(config(StreamMode::Values, Durability::EveryStep, true)).unwrap();
    let mut whole = Executor::new(pregel, MemoryStore::new(), String::from("whole"), String::from("now"));
    let expected = whole.invoke(&writes, &chain_node, &first, 10);
    assert_eq!(expected, vec![(2usize, vec![4i64])]);

    // the run that is stopped after one superstep
    let pregel = chain().compile(config(StreamMode::Values, Durability::EveryStep, true)).unwrap();
    let mut stopped = Executor::new(pregel, MemoryStore::new(), String::from("thread"), String::from("now"));
    let partial = stopped.invoke(&writes, &chain_node, &first, 1);
    assert_eq!(partial, Vec::<(usize, Vec<i64>)>::new());
    assert_eq!(stopped.phase(), Phase::Executing);
    let (_run, store, _events) = stopped.into_parts();
    let saved = store.list(&String::from("thread"));
    assert_eq!(saved.len(), 1);
    assert_eq!(saved[0].id, "00000000000000000001");
    assert_eq!(saved[0].step, 1);
    assert_eq!(saved[0].parent_id, None);
    assert_eq!(saved[0].channel_values, vec![vec![1], vec![2], vec![]]);
    assert_eq!(saved[0].channel_versions, vec![1, 1, 0]);
    assert_eq!(saved[0].updated_channels, Some(vec![1]));

    // a fresh run of the same graph takes the checkpoint up and goes on
    let pregel = chain().compile(config(StreamMode::Values, Durability::EveryStep, true)).unwrap();
    let mut resumed = Executor::new(pregel, store, String::from("thread"), String::from("later"));
    assert_eq!(resumed.resume(None), Ok(Phase::Executing));
    assert_eq!(resumed.drive(&chain_node, &first, 10), Phase::Done);
    assert_eq!(resumed.output(), expected);
    let (run, store, _events) = resumed.into_parts();
    assert_eq!(run.step(), 2);
    let saved = store.list(&String::from("thread"));
    assert_eq!(saved.len(), 2);
    assert_eq!(saved[1].id, "00000000000000000002");
    assert_eq!(saved[1].parent_id, Some(String::from("00000000000000000001")));
    assert_eq!(saved[1].ts, "later");
}

#[test]
fn resume_needs_a_checkpoint_that_suits() {
    let pregel = chain().compile(default_config()).unwrap();
    let mut exec = Executor::new(pregel, MemoryStore::new(), String::from("t"), String::new());
    assert_eq!(exec.resume(None), Err(ResumeError::NotFound));

    let mut store = MemoryStore::new();
    store.put(&String::from("t"), Checkpoint::new());
    let pregel = chain().compile(default_config()).unwrap();
    let mut exec = Executor::new(pregel, store, String::from("t"), String::new());
    assert_eq!(exec.resume(None), Err(ResumeError::Mismatch));
    assert_eq!(exec.resume(Some(&String::from("other"))), Err(ResumeError::NotFound));
    assert_eq!(exec.phase(), Phase::Idle);
}

#[test]
fn durability_exit_persists_once_at_the_end() {
    let pregel = chain().compile(config(StreamMode::Values, Durability::Exit, true)).unwrap();
    let mut exec = Executor::new(pregel, MemoryStore::new(), String::from("t"), String::from("now"));
    exec.invoke(&vec![Write { channel: 0, value: 1 }], &chain_node, &first, 10);
    let (_run, store, _events) = exec.into_parts();
    let saved = store.list(&String::from("t"));
    assert_eq!(saved.len(), 1);
    assert_eq!(saved[0].step, 2);
    assert_eq!(saved[0].channel_values, vec![vec![1], vec![2], vec![4]]);
}

#[test]
fn a_node_that_keeps_failing_is_given_up_after_its_attempts() {
    let mut builder = GraphExecutor::new();
    builder.add_channel(String::from("go"), ChannelKind::LastValue, 0, 0).unwrap();
    builder
        .add_node(
            String::from("flaky"),
            names(&["go"]),
            vec![],
            vec![],
            RetryPolicy { max_attempts: 3, backoff_ms: 50 },
        )
        .unwrap();
    builder.set_inputs(&names(&["go"])).unwrap();
    let calls = std::cell::Cell::new(0u32);
    let flaky = |_task: Task| {
        calls.set(calls.get() + 1);
        TaskResult::Retryable(7)
    };
    let exec = builder.execute_graph(&vec![(String::from("go"), 1)], &flaky, &first, 10).unwrap();
    assert_eq!(exec.phase(), Phase::Failed);
    assert_eq!(calls.get(), 3);
    let failure = exec.failure().unwrap();
    assert_eq!(failure.kind, FailureKind::RetriesExhausted(7));
    assert_eq!(failure.node, Some(0));
    assert_eq!(failure.step, 0);
    assert_eq!(exec.event_count(), 0);
}

#[test]
fn a_fatal_failure_ends_the_run_at_once() {
    let fatal = |_task: Task| TaskResult::Fatal(9);
    let exec = chain().execute_graph(&vec![(String::from("start"), 1)], &fatal, &first, 10).unwrap();
    assert_eq!(exec.phase(), Phase::Failed);
    assert_eq!(exec.failure().unwrap().kind, FailureKind::Node(9));
    assert_eq!(exec.output(), Vec::<(usize, Vec<i64>)>::new());
}

#[test]
fn a_chain_of_three_ends_after_three_supersteps() {
    let mut builder = GraphExecutor::new();
    for name in ["a", "b", "c", "d"] {
        builder.add_channel(String::from(name), ChannelKind::LastValue, 0, 0).unwrap();
    }
    builder.add_node(String::from("n0"), names(&["a"]), names(&["a"]), names(&["b"]), once()).unwrap();
    builder.add_node(String::from("n1"), names(&["b"]), names(&["b"]), names(&["c"]), once()).unwrap();
    builder.add_node(String::from("n2"), names(&["c"]), names(&["c"]), names(&["d"]), once()).unwrap();
    builder.set_inputs(&names(&["a"])).unwrap();
    builder.set_outputs(&names(&["d"])).unwrap();
    let pass = |task: Task| {
        TaskResult::Success(TaskOutput {
            writes: vec![Write { channel: task.node + 1, value: task.reads[0][0] + 10 }],
            sends: vec![],
            goto: vec![],
        })
    };
    let pregel = builder.compile(default_config()).unwrap();
    let mut exec = Executor::new(pregel, MemoryStore::new(), String::new(), String::new());
    assert_eq!(exec.start(&vec![Write { channel: 0, value: 1 }], &first), Phase::Executing);
    assert_eq!(exec.drive(&pass, &first, 2), Phase::Executing);
    assert_eq!(exec.drive(&pass, &first, 1), Phase::Done);
    assert_eq!(exec.output(), vec![(3usize, vec![31i64])]);
}

#[test]
fn a_cycle_runs_until_the_supersteps_are_used_up() {
    let mut builder = GraphExecutor::new();
    builder.add_channel(String::from("tick"), ChannelKind::LastValue, 0, 0).unwrap();
    builder.add_node(String::from("again"), names(&["tick"]), names(&["tick"]), names(&["tick"]), once()).unwrap();
    builder.set_inputs(&names(&["tick"])).unwrap();
    builder.set_outputs(&names(&["tick"])).unwrap();
    let count = |task: Task| {
        TaskResult::Success(TaskOutput {
            writes: vec![Write { channel: 0, value: task.reads[0][0] + 1 }],
            sends: vec![],
            goto: vec![],
        })
    };
    let exec = builder.execute_graph(&vec![(String::from("tick"), 0)], &count, &first, 5).unwrap();
    assert_eq!(exec.phase(), Phase::Executing);
    assert_eq!(exec.output(), vec![(0usize, vec![5i64])]);
}

#[test]
fn store_keeps_threads_apart_and_in_order() {
    let mut store = MemoryStore::new();
    let mut one = Checkpoint::new();
    one.id = String::from("1");
    let mut two = Checkpoint::new();
    two.id = String::from("2");
    two.step = 5;
    let mut other = Checkpoint::new();
    other.id = String::from("1");
    other.step = 9;
    assert_eq!(store.put(&String::from("a"), one), "1");
    assert_eq!(store.put(&String::from("b"), other), "1");
    assert_eq!(store.put(&String::from("a"), two), "2");
    let list = store.list(&String::from("a"));
    assert_eq!(list.len(), 2);
    assert_eq!(list[0].id, "1");
    assert_eq!(list[1].id, "2");
    assert_eq!(store.list(&String::from("c")).len(), 0);
    assert_eq!(store.get(&String::from("a"), None).unwrap().step, 5);
    assert_eq!(store.get(&String::from("a"), Some(&String::from("1"))).unwrap().step, 0);
    assert_eq!(store.get(&String::from("b"), Some(&String::from("1"))).unwrap().step, 9);
    assert_eq!(store.get(&String::from("b"), Some(&String::from("2"))).err(), Some(StoreError::NotFound));
    assert_eq!(store.get(&String::from("c"), None).err(), Some(StoreError::NotFound));
}

#[test]
fn checkpoint_ids_have_twenty_digits() {
    assert_eq!(make_checkpoint_id(0), "00000000000000000000");
    assert_eq!(make_checkpoint_id(907), "00000000000000000907");
    assert_eq!(make_checkpoint_id(u64::MAX), "18446744073709551615");
}
