//! Building a graph by names: channels and nodes are added under their names,
//! and the names that nodes and edges use are resolved to indices.

use crate::channel::ChannelKind;
use crate::errors::ConfigError;
use crate::checkpoint::CheckpointModel;
use crate::executor::{is_node, node_fn, DriveModel, Executor};
use crate::graph::{ChannelSpec, Edge, Graph, Node, RetryPolicy, Write};
use crate::manager::Task;
use crate::pregel::{Durability, Pregel, RunConfig, StreamMode, TaskResult};
use crate::store::MemoryStore;
use crate::value::{is_operator, operator_of, TypeTag, Value};
use vstd::prelude::*;

verus! {

/// The characters of each text of a list.
pub open spec fn texts(list: Seq<String>) -> Seq<Seq<char>> {
    Seq::new(list.len(), |i: int| list[i]@)
}

/// The names of the channels of a graph, by index.
pub open spec fn channel_names(g: Graph) -> Seq<Seq<char>> {
    Seq::new(g.channels@.len(), |i: int| g.channels@[i].name@)
}

/// The ids of the nodes of a graph, by index.
pub open spec fn node_names(g: Graph) -> Seq<Seq<char>> {
    Seq::new(g.nodes@.len(), |i: int| g.nodes@[i].id@)
}

/// The last position below `k` at which `names` holds `key`, if there is one.
pub open spec fn name_index(names: Seq<Seq<char>>, key: Seq<char>, k: nat) -> Option<int>
    decreases k,
{
    if k == 0 {
        None
    } else if names[k - 1] == key {
        Some(k - 1)
    } else {
        name_index(names, key, (k - 1) as nat)
    }
}

/// The index of the channel of `g` that is named `name`, if there is one.
pub open spec fn channel_named(g: Graph, name: Seq<char>) -> Option<int> {
    name_index(channel_names(g), name, g.channels@.len())
}

/// The index of the node of `g` with id `id`, if there is one.
pub open spec fn node_named(g: Graph, id: Seq<char>) -> Option<int> {
    name_index(node_names(g), id, g.nodes@.len())
}

/// Every key is one of `names`.
pub open spec fn all_known(names: Seq<Seq<char>>, keys: Seq<Seq<char>>) -> bool {
    forall|i: int| 0 <= i < keys.len() ==> name_index(names, #[trigger] keys[i], names.len()) is Some
}

/// The positions of the keys in `names`.
pub open spec fn resolved(names: Seq<Seq<char>>, keys: Seq<Seq<char>>) -> Seq<usize> {
    Seq::new(keys.len(), |i: int| name_index(names, keys[i], names.len())->Some_0 as usize)
}

/// Whether every entry of `input` names one of `names`.
pub open spec fn input_known(names: Seq<Seq<char>>, input: Seq<(String, Value)>) -> bool {
    forall|i: int| 0 <= i < input.len() ==> name_index(names, (#[trigger] input[i]).0@, names.len()) is Some
}

/// The writes that give each channel named in `input` its value.
pub open spec fn named_writes(names: Seq<Seq<char>>, input: Seq<(String, Value)>) -> Seq<Write> {
    Seq::new(
        input.len(),
        |i: int| Write { channel: name_index(names, input[i].0@, names.len())->Some_0 as usize, value: input[i].1 },
    )
}

/// The way a graph is run unless the caller says otherwise: events show the
/// output channels, no checkpoints, no interrupts, no timeout.
pub fn default_config() -> (config: RunConfig)
    ensures
        config.interrupt_before@.len() == 0,
        config.interrupt_after@.len() == 0,
        config.stream_mode == StreamMode::Values,
        config.durability == Durability::Exit,
        !config.checkpointer,
        config.step_timeout_ms is None,
{
    RunConfig {
        interrupt_before: Vec::new(),
        interrupt_after: Vec::new(),
        stream_mode: StreamMode::Values,
        durability: Durability::Exit,
        checkpointer: false,
        step_timeout_ms: None,
    }
}

/// A graph under construction, and the way to run it.
pub struct GraphExecutor {
    graph: Graph,
}

impl GraphExecutor {
    /// The graph as built so far.
    pub closed spec fn graph(&self) -> Graph {
        self.graph
    }

    /// An empty graph.
    pub fn new() -> (builder: GraphExecutor)
        ensures
            builder.graph().nodes@.len() == 0,
            builder.graph().channels@.len() == 0,
            builder.graph().edges@.len() == 0,
            builder.graph().inputs@.len() == 0,
            builder.graph().outputs@.len() == 0,
    {
        GraphExecutor {
            graph: Graph {
                nodes: Vec::new(),
                channels: Vec::new(),
                edges: Vec::new(),
                inputs: Vec::new(),
                outputs: Vec::new(),
            },
        }
    }

    /// The index of the channel named `name`, if there is one.
    pub fn channel_index(&self, name: &String) -> (r: Option<usize>)
        ensures
            r is Some <==> channel_named(self.graph(), name@) is Some,
            r is Some ==> r->Some_0 as int == channel_named(self.graph(), name@)->Some_0,
            r is Some ==> r->Some_0 < self.graph().channels@.len(),
    {
        let ghost names = channel_names(self.graph);
        let mut k: usize = self.graph.channels.len();
        while k > 0
            invariant
                k <= self.graph.channels@.len(),
                names == channel_names(self.graph),
                name_index(names, name@, names.len()) == name_index(names, name@, k as nat),
            decreases k,
        {
            if self.graph.channels[k - 1].name == *name {
                return Some(k - 1);
            }
            k = k - 1;
        }
        None
    }

    /// The index of the node with id `id`, if there is one.
    pub fn node_index(&self, id: &String) -> (r: Option<usize>)
        ensures
            r is Some <==> node_named(self.graph(), id@) is Some,
            r is Some ==> r->Some_0 as int == node_named(self.graph(), id@)->Some_0,
            r is Some ==> r->Some_0 < self.graph().nodes@.len(),
    {
        let ghost names = node_names(self.graph);
        let mut k: usize = self.graph.nodes.len();
        while k > 0
            invariant
                k <= self.graph.nodes@.len(),
                names == node_names(self.graph),
                name_index(names, id@, names.len()) == name_index(names, id@, k as nat),
            decreases k,
        {
            if self.graph.nodes[k - 1].id == *id {
                return Some(k - 1);
            }
            k = k - 1;
        }
        None
    }

    /// The indices of the channels with the given names, or nothing if one of the
    /// names is not the name of a channel.
    pub fn channel_indices(&self, names: &Vec<String>) -> (r: Option<Vec<usize>>)
        ensures
            r is Some <==> all_known(channel_names(self.graph()), texts(names@)),
            r is Some ==> r->Some_0@ == resolved(channel_names(self.graph()), texts(names@)),
    {
        let ghost known = channel_names(self.graph);
        let ghost keys = texts(names@);
        let mut out: Vec<usize> = Vec::new();
        let mut i: usize = 0;
        while i < names.len()
            invariant
                i <= names@.len(),
                known == channel_names(self.graph()),
                known.len() == self.graph().channels@.len(),
                keys == texts(names@),
                out@.len() == i,
                forall|a: int| 0 <= a < i ==> name_index(known, #[trigger] keys[a], known.len()) is Some,
                forall|a: int|
                    0 <= a < i ==> (#[trigger] out@[a]) == name_index(known, keys[a], known.len())->Some_0 as usize,
            decreases names@.len() - i,
        {
            assert(keys[i as int] == names@[i as int]@);
            match self.channel_index(&names[i]) {
                None => {
                    return None;
                },
                Some(c) => {
                    out.push(c);
                },
            }
            i = i + 1;
        }
        assert(out@ =~= resolved(known, keys));
        Some(out)
    }

    /// The indices of the nodes with the given ids, or nothing if one of the ids
    /// is not the id of a node.
    pub fn node_indices(&self, ids: &Vec<String>) -> (r: Option<Vec<usize>>)
        ensures
            r is Some <==> all_known(node_names(self.graph()), texts(ids@)),
            r is Some ==> r->Some_0@ == resolved(node_names(self.graph()), texts(ids@)),
    {
        let ghost known = node_names(self.graph);
        let ghost keys = texts(ids@);
        let mut out: Vec<usize> = Vec::new();
        let mut i: usize = 0;
        while i < ids.len()
            invariant
                i <= ids@.len(),
                known == node_names(self.graph()),
                known.len() == self.graph().nodes@.len(),
                keys == texts(ids@),
                out@.len() == i,
                forall|a: int| 0 <= a < i ==> name_index(known, #[trigger] keys[a], known.len()) is Some,
                forall|a: int|
                    0 <= a < i ==> (#[trigger] out@[a]) == name_index(known, keys[a], known.len())->Some_0 as usize,
            decreases ids@.len() - i,
        {
            assert(keys[i as int] == ids@[i as int]@);
            match self.node_index(&ids[i]) {
                None => {
                    return None;
                },
                Some(n) => {
                    out.push(n);
                },
            }
            i = i + 1;
        }
        assert(out@ =~= resolved(known, keys));
        Some(out)
    }

    /// Declares a channel and gives its index. `DuplicateId` if there is a
    /// channel of that name already; the graph is then as before.
    pub fn add_channel(&mut self, name: String, kind: ChannelKind, typ: TypeTag, operator: u64) -> (r: Result<
        usize,
        ConfigError,
    >)
        ensures
            r is Ok <==> channel_named(old(self).graph(), name@)
                is None,
            r is Ok ==> r->Ok_0 == old(self).graph().channels@.len() && final(self).graph() == (Graph {
                channels: final(self).graph().channels,
                ..old(self).graph()
            }) && final(self).graph().channels@ == old(self).graph().channels@.push(
                ChannelSpec { name: name, kind: kind, typ: typ, operator: operator },
            ),
            r is Err ==> r->Err_0 == ConfigError::DuplicateId && final(self).graph() == old(self).graph(),
    {
        if self.channel_index(&name).is_some() {
            return Err(ConfigError::DuplicateId);
        }
        let index = self.graph.channels.len();
        self.graph.channels.push(ChannelSpec { name, kind, typ, operator });
        Ok(index)
    }

    /// Adds a node that is triggered by the channels named in `triggers`, reads
    /// those named in `channels` and may write those named in `writes`, and
    /// gives its index. `DuplicateId` if there is a node of that id already;
    /// else `MissingChannel` if one of the names is not the name of a channel.
    /// After an error the graph is as before.
    pub fn add_node(
        &mut self,
        node_id: String,
        triggers: Vec<String>,
        channels: Vec<String>,
        writes: Vec<String>,
        retry: RetryPolicy,
    ) -> (r: Result<usize, ConfigError>)
        ensures
            r is Err ==> final(self).graph() == old(self).graph(),
            r == Err::<usize, ConfigError>(ConfigError::DuplicateId) <==> node_named(old(self).graph(), node_id@)
                is Some,
            r is Ok <==> node_named(old(self).graph(), node_id@) is None && all_known(
                channel_names(old(self).graph()),
                texts(triggers@),
            ) && all_known(channel_names(old(self).graph()), texts(channels@)) && all_known(
                channel_names(old(self).graph()),
                texts(writes@),
            ),
            r is Err ==> r->Err_0 == ConfigError::DuplicateId || r->Err_0 == ConfigError::MissingChannel,
            r is Ok ==> r->Ok_0 == old(self).graph().nodes@.len(),
            r is Ok ==> final(self).graph() == (Graph { nodes: final(self).graph().nodes, ..old(self).graph() }),
            r is Ok ==> final(self).graph().nodes@.len() == old(self).graph().nodes@.len() + 1,
            r is Ok ==> final(self).graph().nodes@.drop_last() == old(self).graph().nodes@,
            r is Ok ==> final(self).graph().nodes@.last().id == node_id,
            r is Ok ==> final(self).graph().nodes@.last().retry == retry,
            r is Ok ==> final(self).graph().nodes@.last().on_failure is None,
            r is Ok ==> final(self).graph().nodes@.last().triggers@ == resolved(
                channel_names(old(self).graph()),
                texts(triggers@),
            ),
            r is Ok ==> final(self).graph().nodes@.last().reads@ == resolved(
                channel_names(old(self).graph()),
                texts(channels@),
            ),
            r is Ok ==> final(self).graph().nodes@.last().writes@ == resolved(
                channel_names(old(self).graph()),
                texts(writes@),
            ),
    {
        if self.node_index(&node_id).is_some() {
            return Err(ConfigError::DuplicateId);
        }
        let triggers = match self.channel_indices(&triggers) {
            Some(list) => list,
            None => {
                return Err(ConfigError::MissingChannel);
            },
        };
        let reads = match self.channel_indices(&channels) {
            Some(list) => list,
            None => {
                return Err(ConfigError::MissingChannel);
            },
        };
        let writes = match self.channel_indices(&writes) {
            Some(list) => list,
            None => {
                return Err(ConfigError::MissingChannel);
            },
        };
        let index = self.graph.nodes.len();
        self.graph.nodes.push(Node { id: node_id, triggers, reads, writes, retry, on_failure: None });
        assert(self.graph.nodes@.drop_last() =~= old(self).graph.nodes@);
        Ok(index)
    }

    /// Gives the node with id `node_id` the channel named `channel` as its
    /// failure channel. `DanglingEdge` if there is no such node, else
    /// `MissingChannel` if there is no such channel; the graph is then as before.
    pub fn set_failure_channel(&mut self, node_id: &String, channel: &String) -> (r: Result<(), ConfigError>)
        ensures
            r is Ok <==> node_named(old(self).graph(), node_id@)
                is Some && channel_named(old(self).graph(), channel@) is Some,
            r == Err::<(), ConfigError>(ConfigError::DanglingEdge) <==> node_named(old(self).graph(), node_id@) is None,
            r is Err ==> (r->Err_0 == ConfigError::DanglingEdge || r->Err_0 == ConfigError::MissingChannel)
                && final(self).graph() == old(self).graph(),
            r is Ok ==> final(self).graph() == (Graph { nodes: final(self).graph().nodes, ..old(self).graph() })
                && final(self).graph().nodes@ == old(self).graph().nodes@.update(
                node_named(old(self).graph(), node_id@)->Some_0,
                Node {
                    on_failure: Some(
                        channel_named(old(self).graph(), channel@)->Some_0 as usize,
                    ),
                    ..old(self).graph().nodes@[node_named(old(self).graph(), node_id@)->Some_0]
                },
            ),
    {
        let n = match self.node_index(node_id) {
            Some(n) => n,
            None => {
                return Err(ConfigError::DanglingEdge);
            },
        };
        let c = match self.channel_index(channel) {
            Some(c) => c,
            None => {
                return Err(ConfigError::MissingChannel);
            },
        };
        self.graph.nodes[n].on_failure = Some(c);
        assert(self.graph.nodes@ =~= old(self).graph.nodes@.update(
            n as int,
            Node { on_failure: Some(c), ..old(self).graph.nodes@[n as int] },
        ));
        Ok(())
    }

    /// Adds an edge from the node with id `from` to the node with id `to`.
    /// `DanglingEdge` if one of them is not the id of a node; the graph is then
    /// as before.
    pub fn add_edge(&mut self, from: &String, to: &String) -> (r: Result<(), ConfigError>)
        ensures
            r is Ok <==> node_named(old(self).graph(), from@) is Some
                && node_named(old(self).graph(), to@) is Some,
            r is Ok ==> final(self).graph() == (Graph { edges: final(self).graph().edges, ..old(self).graph() })
                && final(self).graph().edges@ == old(self).graph().edges@.push(
                Edge::Static {
                    from: node_named(old(self).graph(), from@)->Some_0
                        as usize,
                    to: node_named(old(self).graph(), to@)->Some_0
                        as usize,
                },
            ),
            r is Err ==> r->Err_0 == ConfigError::DanglingEdge && final(self).graph() == old(self).graph(),
    {
        match (self.node_index(from), self.node_index(to)) {
            (Some(from), Some(to)) => {
                self.graph.edges.push(Edge::Static { from, to });
                Ok(())
            },
            _ => Err(ConfigError::DanglingEdge),
        }
    }

    /// Adds a conditional edge from the node with id `from` to the nodes with
    /// the ids in `targets`. `DanglingEdge` if one of the ids is not the id of a
    /// node; the graph is then as before.
    pub fn add_conditional_edge(&mut self, from: &String, targets: &Vec<String>) -> (r: Result<(), ConfigError>)
        ensures
            r is Ok <==> node_named(old(self).graph(), from@) is Some && all_known(
                node_names(old(self).graph()),
                texts(targets@),
            ),
            r is Ok ==> final(self).graph() == (Graph { edges: final(self).graph().edges, ..old(self).graph() }),
            r is Ok ==> final(self).graph().edges@.len() == old(self).graph().edges@.len() + 1,
            r is Ok ==> final(self).graph().edges@.drop_last() == old(self).graph().edges@,
            r is Ok ==> final(self).graph().edges@.last() is Conditional,
            r is Ok ==> final(self).graph().edges@.last().source() == node_named(old(self).graph(), from@)->Some_0
                as usize,
            r is Ok ==> final(self).graph().edges@.last()->targets@ == resolved(
                node_names(old(self).graph()),
                texts(targets@),
            ),
            r is Err ==> r->Err_0 == ConfigError::DanglingEdge && final(self).graph() == old(self).graph(),
    {
        match (self.node_index(from), self.node_indices(targets)) {
            (Some(from), Some(targets)) => {
                self.graph.edges.push(Edge::Conditional { from, targets });
                assert(self.graph.edges@.drop_last() =~= old(self).graph.edges@);
                Ok(())
            },
            _ => Err(ConfigError::DanglingEdge),
        }
    }

    /// Names the channels that take the input of a run. `MissingChannel` if one
    /// of the names is not the name of a channel; the graph is then as before.
    pub fn set_inputs(&mut self, names: &Vec<String>) -> (r: Result<(), ConfigError>)
        ensures
            r is Ok <==> all_known(channel_names(old(self).graph()), texts(names@)),
            r is Ok ==> final(self).graph() == (Graph { inputs: final(self).graph().inputs, ..old(self).graph() })
                && final(self).graph().inputs@ == resolved(channel_names(old(self).graph()), texts(names@)),
            r is Err ==> r->Err_0 == ConfigError::MissingChannel && final(self).graph() == old(self).graph(),
    {
        match self.channel_indices(names) {
            Some(list) => {
                self.graph.inputs = list;
                Ok(())
            },
            None => Err(ConfigError::MissingChannel),
        }
    }

    /// Names the channels whose contents are the result of a run.
    /// `MissingChannel` if one of the names is not the name of a channel; the
    /// graph is then as before.
    pub fn set_outputs(&mut self, names: &Vec<String>) -> (r: Result<(), ConfigError>)
        ensures
            r is Ok <==> all_known(channel_names(old(self).graph()), texts(names@)),
            r is Ok ==> final(self).graph() == (Graph { outputs: final(self).graph().outputs, ..old(self).graph() })
                && final(self).graph().outputs@ == resolved(channel_names(old(self).graph()), texts(names@)),
            r is Err ==> r->Err_0 == ConfigError::MissingChannel && final(self).graph() == old(self).graph(),
    {
        match self.channel_indices(names) {
            Some(list) => {
                self.graph.outputs = list;
                Ok(())
            },
            None => Err(ConfigError::MissingChannel),
        }
    }

    /// The writes that give each named channel its value, or nothing if one of
    /// the names is not the name of a channel.
    pub fn input_writes(&self, input: &Vec<(String, Value)>) -> (r: Option<Vec<Write>>)
        ensures
            r is Some <==> input_known(channel_names(self.graph()), input@),
            r is Some ==> r->Some_0@ == named_writes(channel_names(self.graph()), input@),
    {
        let ghost names = channel_names(self.graph());
        let mut out: Vec<Write> = Vec::new();
        let mut i: usize = 0;
        while i < input.len()
            invariant
                i <= input@.len(),
                names == channel_names(self.graph()),
                names.len() == self.graph().channels@.len(),
                out@.len() == i,
                forall|a: int| 0 <= a < i ==> name_index(names, (#[trigger] input@[a]).0@, names.len()) is Some,
                forall|a: int| 0 <= a < i ==> (#[trigger] out@[a]) == named_writes(names, input@)[a],
            decreases input@.len() - i,
        {
            match self.channel_index(&input[i].0) {
                None => {
                    return None;
                },
                Some(channel) => {
                    out.push(Write { channel, value: input[i].1 });
                },
            }
            i = i + 1;
        }
        assert(out@ =~= named_writes(names, input@));
        Some(out)
    }

    /// The graph as one that can be run in the way of `config`, or what is
    /// wrong with it.
    pub fn compile(self, config: RunConfig) -> (r: Result<Pregel, ConfigError>)
        ensures
            r is Ok <==> self.graph().wf(),
            r is Ok ==> r->Ok_0.graph() == self.graph() && r->Ok_0.config() == config && r->Ok_0.wf(),
            r is Err ==> (r->Err_0 == ConfigError::DuplicateId <==> self.graph().has_duplicate()) && (r->Err_0
                == ConfigError::MissingChannel <==> !self.graph().has_duplicate()
                && self.graph().has_missing_channel()) && (r->Err_0 == ConfigError::DanglingEdge
                <==> !self.graph().has_duplicate() && !self.graph().has_missing_channel()
                && self.graph().has_dangling_edge()),
    {
        Pregel::new(self.graph, config)
    }

    /// Runs the graph on `input`, with no checkpoints and no interrupts, for up
    /// to `max_steps` supersteps, and gives back the executor with the run as it
    /// stands then. `MissingChannel` if the input names a channel that is not
    /// declared; else what is wrong with the graph, if anything is.
    pub fn execute_graph<N: Fn(Task) -> TaskResult, F: Fn(u64, Value, Value) -> Value>(
        self,
        input: &Vec<(String, Value)>,
        run_node: &N,
        op: &F,
        max_steps: u64,
    ) -> (r: Result<Executor, ConfigError>)
        requires
            is_node(*run_node),
            is_operator(*op),
        ensures
            r is Ok <==> self.graph().wf() && input_known(channel_names(self.graph()), input@),
            !input_known(channel_names(self.graph()), input@) ==> r == Err::<Executor, ConfigError>(
                ConfigError::MissingChannel,
            ),
            r is Err && input_known(channel_names(self.graph()), input@) ==> (r->Err_0 == ConfigError::DuplicateId
                <==> self.graph().has_duplicate()) && (r->Err_0 == ConfigError::MissingChannel
                <==> !self.graph().has_duplicate() && self.graph().has_missing_channel()) && (r->Err_0
                == ConfigError::DanglingEdge <==> !self.graph().has_duplicate()
                && !self.graph().has_missing_channel() && self.graph().has_dangling_edge()),
            r is Ok ==> r->Ok_0.wf() && r->Ok_0.graph() == self.graph() && r->Ok_0.thread() == Seq::<char>::empty()
                && r->Ok_0.time() == Seq::<char>::empty(),
            r is Ok ==> r->Ok_0.config().interrupt_before@.len() == 0 && r->Ok_0.config().interrupt_after@.len() == 0
                && r->Ok_0.config().stream_mode == StreamMode::Values && !r->Ok_0.config().checkpointer,
            r is Ok ==> r->Ok_0@ == DriveModel::idle(self.graph(), Seq::<CheckpointModel>::empty()).started(
                self.graph(),
                named_writes(channel_names(self.graph()), input@),
                operator_of(*op),
            ).driven(
                self.graph(),
                r->Ok_0.config(),
                node_fn(*run_node),
                operator_of(*op),
                Seq::<char>::empty(),
                max_steps as nat,
            ),
    {
        let writes = match self.input_writes(input) {
            Some(writes) => writes,
            None => {
                return Err(ConfigError::MissingChannel);
            },
        };
        match self.compile(default_config()) {
            Err(e) => Err(e),
            Ok(pregel) => {
                let mut exec = Executor::new(pregel, MemoryStore::new(), String::new(), String::new());
                exec.invoke(&writes, run_node, op, max_steps);
                Ok(exec)
            },
        }
    }
}

} // verus!
