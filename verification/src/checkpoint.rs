//! Checkpoints: what is persisted of a run between two supersteps.
//!
//! Channels and nodes are keyed by their index in the graph.

use crate::graph::Graph;
use crate::value::{copy_list, copy_table, rows, Value};
use crate::superstep::StateModel;
use vstd::prelude::*;
use vstd::string::*;

verus! {

/// The format version that new checkpoints carry.
pub const CHECKPOINT_VERSION: i32 = 1;

/// A snapshot of a run, taken after a merge and never changed afterwards.
pub struct Checkpoint {
    /// The version of the format.
    pub v: i32,
    /// Unique; later checkpoints of a thread sort after earlier ones.
    pub id: String,
    /// When the checkpoint was taken, as the host writes time.
    pub ts: String,
    /// The id of the checkpoint that this one follows, if any.
    pub parent_id: Option<String>,
    /// The number of supersteps that the run had committed.
    pub step: u64,
    /// For each channel, the values it holds, oldest first.
    pub channel_values: Vec<Vec<Value>>,
    /// For each channel, its version.
    pub channel_versions: Vec<u64>,
    /// For each node, the version of each channel that it last took note of.
    pub versions_seen: Vec<Vec<u64>>,
    /// The channels that the superstep before the checkpoint changed, if known.
    pub updated_channels: Option<Vec<usize>>,
    /// For each node, whether an edge from the last superstep leads to it.
    pub pending_nodes: Vec<bool>,
    /// For each node, the payloads sent to it in the last superstep.
    pub pending_sends: Vec<Vec<Value>>,
}

/// A checkpoint as a mathematical value.
pub struct CheckpointModel {
    pub v: int,
    pub id: Seq<char>,
    pub ts: Seq<char>,
    pub parent_id: Option<Seq<char>>,
    pub step: u64,
    pub channel_values: Seq<Seq<Value>>,
    pub channel_versions: Seq<u64>,
    pub versions_seen: Seq<Seq<u64>>,
    pub updated_channels: Option<Seq<usize>>,
    pub pending_nodes: Seq<bool>,
    pub pending_sends: Seq<Seq<Value>>,
}

/// The characters of a text that may be absent.
pub open spec fn text_of(text: Option<String>) -> Option<Seq<char>> {
    match text {
        Some(t) => Some(t@),
        None => None,
    }
}

/// The entries of a list that may be absent.
pub open spec fn list_of(list: Option<Vec<usize>>) -> Option<Seq<usize>> {
    match list {
        Some(l) => Some(l@),
        None => None,
    }
}

impl View for Checkpoint {
    type V = CheckpointModel;

    open spec fn view(&self) -> CheckpointModel {
        CheckpointModel {
            v: self.v as int,
            id: self.id@,
            ts: self.ts@,
            parent_id: text_of(self.parent_id),
            step: self.step,
            channel_values: rows(self.channel_values),
            channel_versions: self.channel_versions@,
            versions_seen: rows(self.versions_seen),
            updated_channels: list_of(self.updated_channels),
            pending_nodes: self.pending_nodes@,
            pending_sends: rows(self.pending_sends),
        }
    }
}

impl CheckpointModel {
    /// The checkpoint holds exactly the state `s`.
    pub open spec fn holds(self, s: StateModel) -> bool {
        &&& self.channel_values == s.contents()
        &&& self.channel_versions == s.versions
        &&& self.versions_seen == s.seen
        &&& self.pending_nodes == s.activated
        &&& self.pending_sends == s.inbox
    }

    /// The checkpoint can be restored into a state laid out as `base`: it has a
    /// value list and a version for each channel and a row for each node, only
    /// topics hold several values, and no node has seen a version that its
    /// channel has not reached.
    pub open spec fn suits(self, base: StateModel) -> bool {
        &&& self.channel_values.len() == base.channels.len()
        &&& self.channel_versions.len() == base.channels.len()
        &&& self.versions_seen.len() == base.seen.len()
        &&& self.pending_nodes.len() == base.seen.len()
        &&& self.pending_sends.len() == base.seen.len()
        &&& forall|c: int|
            0 <= c < base.channels.len() ==> (#[trigger] base.channels[c]).with_items(self.channel_values[c]).wf()
        &&& forall|n: int|
            0 <= n < self.versions_seen.len() ==> (#[trigger] self.versions_seen[n]).len()
                == base.channels.len()
        &&& forall|n: int, c: int|
            0 <= n < self.versions_seen.len() && 0 <= c < base.channels.len()
                ==> #[trigger] self.versions_seen[n][c] <= self.channel_versions[c]
    }

    /// The state that restoring the checkpoint into `base` gives: the channels of
    /// `base` with the values of the checkpoint, and everything else as the
    /// checkpoint has it.
    pub open spec fn state_of(self, base: StateModel) -> StateModel {
        StateModel {
            channels: Seq::new(
                base.channels.len(),
                |c: int| base.channels[c].with_items(self.channel_values[c]),
            ),
            versions: self.channel_versions,
            seen: self.versions_seen,
            activated: self.pending_nodes,
            inbox: self.pending_sends,
        }
    }
}

/// The decimal digit `d`.
pub open spec fn digit(d: nat) -> Seq<char> {
    if d == 0 {
        seq!['0']
    } else if d == 1 {
        seq!['1']
    } else if d == 2 {
        seq!['2']
    } else if d == 3 {
        seq!['3']
    } else if d == 4 {
        seq!['4']
    } else if d == 5 {
        seq!['5']
    } else if d == 6 {
        seq!['6']
    } else if d == 7 {
        seq!['7']
    } else if d == 8 {
        seq!['8']
    } else {
        seq!['9']
    }
}

/// The decimal digits of `n`, without leading zeros.
pub open spec fn decimal(n: nat) -> Seq<char>
    decreases n,
{
    if n < 10 {
        digit(n)
    } else {
        decimal(n / 10) + digit(n % 10)
    }
}

/// The decimal digits of `v`, after a minus sign if `v` is negative.
pub open spec fn signed_decimal(v: int) -> Seq<char> {
    if v < 0 {
        seq!['-'] + decimal((-v) as nat)
    } else {
        decimal(v as nat)
    }
}

/// The JSON text of the head of a checkpoint. The id and the time are written as
/// they are, between double quotes.
pub open spec fn json_text(v: int, id: Seq<char>, ts: Seq<char>) -> Seq<char> {
    seq!['{', '"', 'v', '"', ':', ' '] + signed_decimal(v) + seq![',', ' ', '"', 'i', 'd', '"', ':', ' ', '"'] + id
        + seq!['"', ',', ' ', '"', 't', 's', '"', ':', ' ', '"'] + ts + seq!['"', '}']
}

/// The text of the decimal digit `d`.
pub(crate) fn digit_text(d: u64) -> (text: &'static str)
    requires
        d < 10,
    ensures
        text@ == digit(d as nat),
{
    proof {
        reveal_strlit("0");
        reveal_strlit("1");
        reveal_strlit("2");
        reveal_strlit("3");
        reveal_strlit("4");
        reveal_strlit("5");
        reveal_strlit("6");
        reveal_strlit("7");
        reveal_strlit("8");
        reveal_strlit("9");
    }
    let text = if d == 0 {
        "0"
    } else if d == 1 {
        "1"
    } else if d == 2 {
        "2"
    } else if d == 3 {
        "3"
    } else if d == 4 {
        "4"
    } else if d == 5 {
        "5"
    } else if d == 6 {
        "6"
    } else if d == 7 {
        "7"
    } else if d == 8 {
        "8"
    } else {
        "9"
    };
    assert(text@ =~= digit(d as nat));
    text
}

fn push_decimal(out: &mut String, n: u64)
    ensures
        final(out)@ == old(out)@ + decimal(n as nat),
    decreases n,
{
    if n >= 10 {
        push_decimal(out, n / 10);
    }
    out.append(digit_text(n % 10));
    assert(out@ =~= old(out)@ + decimal(n as nat));
}

fn push_signed(out: &mut String, v: i32)
    ensures
        final(out)@ == old(out)@ + signed_decimal(v as int),
{
    if v < 0 {
        proof {
            reveal_strlit("-");
        }
        out.append("-");
        let magnitude: u64 = (-(v as i64)) as u64;
        push_decimal(out, magnitude);
        assert(out@ =~= old(out)@ + signed_decimal(v as int));
    } else {
        push_decimal(out, v as u64);
    }
}

/// A copy of a text that may be absent.
pub fn copy_text(text: &Option<String>) -> (out: Option<String>)
    ensures
        text_of(out) == text_of(*text),
{
    match text {
        Some(t) => Some(t.clone()),
        None => None,
    }
}

impl Checkpoint {
    /// An empty checkpoint of the current format version.
    pub fn new() -> (cp: Checkpoint)
        ensures
            cp@ == Checkpoint::new_model(),
    {
        let cp = Checkpoint {
            v: CHECKPOINT_VERSION,
            id: String::new(),
            ts: String::new(),
            parent_id: None,
            step: 0,
            channel_values: Vec::new(),
            channel_versions: Vec::new(),
            versions_seen: Vec::new(),
            updated_channels: None,
            pending_nodes: Vec::new(),
            pending_sends: Vec::new(),
        };
        assert(cp@.channel_values =~= Seq::<Seq<Value>>::empty());
        assert(cp@.versions_seen =~= Seq::<Seq<u64>>::empty());
        assert(cp@.pending_sends =~= Seq::<Seq<Value>>::empty());
        cp
    }

    /// The head of the checkpoint as JSON: the format version, the id and the time.
    pub fn to_json(&self) -> (text: String)
        ensures
            text@ == json_text(self.v as int, self.id@, self.ts@),
    {
        proof {
            reveal_strlit("{\"v\": ");
            reveal_strlit(", \"id\": \"");
            reveal_strlit("\", \"ts\": \"");
            reveal_strlit("\"}");
        }
        let mut text = String::from_str("{\"v\": ");
        assert(text@ =~= seq!['{', '"', 'v', '"', ':', ' ']);
        push_signed(&mut text, self.v);
        text.append(", \"id\": \"");
        text.append(self.id.as_str());
        text.append("\", \"ts\": \"");
        text.append(self.ts.as_str());
        text.append("\"}");
        assert(text@ =~= json_text(self.v as int, self.id@, self.ts@));
        text
    }

    /// Reads nothing from the text: the result is an empty checkpoint of the
    /// current format version.
    pub fn from_json(json: &str) -> (cp: Checkpoint)
        ensures
            cp@ == Checkpoint::new_model(),
    {
        Checkpoint::new()
    }

    /// The empty checkpoint of the current format version.
    pub open spec fn new_model() -> CheckpointModel {
        CheckpointModel {
            v: CHECKPOINT_VERSION as int,
            id: Seq::<char>::empty(),
            ts: Seq::<char>::empty(),
            parent_id: None,
            step: 0,
            channel_values: Seq::<Seq<Value>>::empty(),
            channel_versions: Seq::<u64>::empty(),
            versions_seen: Seq::<Seq<u64>>::empty(),
            updated_channels: None,
            pending_nodes: Seq::<bool>::empty(),
            pending_sends: Seq::<Seq<Value>>::empty(),
        }
    }

    /// A checkpoint that holds the same.
    pub fn copy(&self) -> (cp: Checkpoint)
        ensures
            cp@ == self@,
    {
        let updated_channels = match &self.updated_channels {
            Some(list) => Some(copy_list(list)),
            None => None,
        };
        Checkpoint {
            v: self.v,
            id: self.id.clone(),
            ts: self.ts.clone(),
            parent_id: copy_text(&self.parent_id),
            step: self.step,
            channel_values: copy_table(&self.channel_values),
            channel_versions: copy_list(&self.channel_versions),
            versions_seen: copy_table(&self.versions_seen),
            updated_channels,
            pending_nodes: copy_list(&self.pending_nodes),
            pending_sends: copy_table(&self.pending_sends),
        }
    }
}

/// Restoring a checkpoint that holds a state of a run of `g` gives that state
/// back, channel values, versions and all, into any state of a run of `g`.
pub proof fn lemma_checkpoint_round_trip(g: Graph, s: StateModel, base: StateModel, cp: CheckpointModel)
    requires
        s.fits(g),
        base.fits(g),
        cp.holds(s),
    ensures
        cp.suits(base),
        cp.state_of(base) == s,
{
    assert forall|c: int| 0 <= c < base.channels.len() implies (#[trigger] base.channels[c]).with_items(
        cp.channel_values[c],
    ).wf() by {
        assert(s.channels[c].wf());
    }
    assert forall|c: int| 0 <= c < s.channels.len() implies cp.state_of(base).channels[c] == s.channels[c] by {
        assert(base.channels[c].kind == s.channels[c].kind);
    }
    assert(cp.state_of(base).channels =~= s.channels);
}

/// A checkpoint that suits a state of a run of `g` restores to a state of a run
/// of `g`.
pub proof fn lemma_restored_fits(g: Graph, base: StateModel, cp: CheckpointModel)
    requires
        base.fits(g),
        cp.suits(base),
    ensures
        cp.state_of(base).fits(g),
{
    let t = cp.state_of(base);
    assert forall|c: int| 0 <= c < t.channels.len() implies (#[trigger] t.channels[c]).wf() by {
        assert(base.channels[c].with_items(cp.channel_values[c]).wf());
    }
    assert forall|c: int| 0 <= c < t.channels.len() implies (#[trigger] t.channels[c]).kind == g.channels@[c].kind
        && t.channels[c].operator == crate::superstep::declared_operator(g.channels@[c]) by {
        assert(base.channels[c].kind == g.channels@[c].kind);
    }
}

} // verus!
