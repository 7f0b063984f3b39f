//! Channels: the versionable state cells through which nodes communicate.

use crate::errors::ChannelError;
use crate::value::{copy_list, fold_from, fold_with, is_operator, operator_of, TypeTag, Value, UNTYPED};
use vstd::prelude::*;

verus! {

/// The three kinds of channel that hold state.
#[derive(Clone, Copy, PartialEq, Eq, Structural, Debug)]
pub enum ChannelKind {
    /// Holds at most one value; a write replaces it; one write per superstep.
    LastValue,
    /// Collects every value written, in the order of delivery, for the whole run.
    Topic,
    /// Holds at most one value; a write is combined with it by an operator.
    Reducer,
}

/// What a channel is, mathematically: its kind, the operator tag of a reducer, and
/// the values it holds, oldest first. An empty channel holds no value.
pub struct ChannelModel {
    pub kind: ChannelKind,
    pub operator: u64,
    pub items: Seq<Value>,
}

impl ChannelModel {
    /// Only a topic holds more than one value.
    pub open spec fn wf(self) -> bool {
        self.kind != ChannelKind::Topic ==> self.items.len() <= 1
    }

    /// Whether the channel takes `values` as the writes of one superstep.
    pub open spec fn accepts(self, values: Seq<Value>) -> bool {
        self.kind == ChannelKind::LastValue ==> values.len() <= 1
    }

    /// Whether an accepted update with `values` changes the channel.
    pub open spec fn changed_by(self, values: Seq<Value>) -> bool {
        self.accepts(values) && values.len() > 0
    }

    /// The values held after an update with `values`; a refused update changes nothing.
    pub open spec fn items_after(self, values: Seq<Value>, f: spec_fn(u64, Value, Value) -> Value) -> Seq<
        Value,
    > {
        if !self.changed_by(values) {
            self.items
        } else {
            match self.kind {
                ChannelKind::LastValue => seq![values[0]],
                ChannelKind::Topic => self.items + values,
                ChannelKind::Reducer => if self.items.len() == 0 {
                    seq![fold_with(f, self.operator, values[0], values.drop_first())]
                } else {
                    seq![fold_with(f, self.operator, self.items[0], values)]
                },
            }
        }
    }

    /// The channel after an update with `values`.
    pub open spec fn after(self, values: Seq<Value>, f: spec_fn(u64, Value, Value) -> Value) -> ChannelModel {
        ChannelModel { kind: self.kind, operator: self.operator, items: self.items_after(values, f) }
    }

    /// The channel holding `items` instead.
    pub open spec fn with_items(self, items: Seq<Value>) -> ChannelModel {
        ChannelModel { kind: self.kind, operator: self.operator, items: items }
    }
}

/// The values of a cell that holds at most one: none, or the one.
pub open spec fn cell_items(cell: Option<Value>) -> Seq<Value> {
    match cell {
        Some(v) => seq![v],
        None => Seq::<Value>::empty(),
    }
}

/// The common head of every channel: its type tag and its key. It holds no state,
/// and the operations that need state are refused.
pub struct BaseChannel {
    pub typ: TypeTag,
    pub key: String,
}

impl BaseChannel {
    /// A channel head with the given tag; without a key the key is empty.
    pub fn new(typ: TypeTag, key: Option<String>) -> (ch: BaseChannel)
        ensures
            ch.typ == typ,
            ch.key@ == (match key {
                Some(k) => k@,
                None => Seq::<char>::empty(),
            }),
    {
        let key = match key {
            Some(k) => k,
            None => String::new(),
        };
        BaseChannel { typ, key }
    }

    /// The tag of the values that are read.
    pub fn value_type(&self) -> (t: TypeTag)
        ensures
            t == self.typ,
    {
        self.typ
    }

    /// The tag of the values that are written.
    pub fn update_type(&self) -> (t: TypeTag)
        ensures
            t == self.typ,
    {
        self.typ
    }

    /// A channel head with the same tag and key.
    pub fn copy(&self) -> (ch: BaseChannel)
        ensures
            ch == *self,
    {
        BaseChannel { typ: self.typ, key: self.key.clone() }
    }

    /// A head holds no state, so its snapshot is empty.
    pub fn checkpoint(&self) -> (snapshot: Option<Value>)
        ensures
            snapshot is None,
    {
        None
    }

    /// A fresh, untyped head with an empty key, whatever the snapshot holds.
    pub fn from_checkpoint(checkpoint: Option<Value>) -> (ch: BaseChannel)
        ensures
            ch.typ == UNTYPED,
            ch.key@ == Seq::<char>::empty(),
    {
        BaseChannel { typ: UNTYPED, key: String::new() }
    }

    /// Reading is left to the concrete kinds.
    pub fn get(&self) -> (r: Result<Value, ChannelError>)
        ensures
            r == Err::<Value, ChannelError>(ChannelError::NotImplemented),
    {
        Err(ChannelError::NotImplemented)
    }

    /// A head never holds a value.
    pub fn is_available(&self) -> (b: bool)
        ensures
            !b,
    {
        false
    }

    /// Writing is left to the concrete kinds; the head is unchanged.
    pub fn update(&mut self, values: &Vec<Value>) -> (r: Result<bool, ChannelError>)
        ensures
            r == Err::<bool, ChannelError>(ChannelError::NotImplemented),
            *final(self) == *old(self),
    {
        Err(ChannelError::NotImplemented)
    }

    /// Nothing to consume: reports no change.
    pub fn consume(&mut self) -> (changed: bool)
        ensures
            !changed,
            *final(self) == *old(self),
    {
        false
    }

    /// Nothing to release: reports no change.
    pub fn finish(&mut self) -> (changed: bool)
        ensures
            !changed,
            *final(self) == *old(self),
    {
        false
    }
}

/// What a last-value channel that holds `held` holds after an update with
/// `values`: the value, if there is exactly one; what it held, if there is none
/// or if there are several, which it refuses.
pub open spec fn held_after(held: Option<Value>, values: Seq<Value>) -> Option<Value> {
    if values.len() == 1 {
        Some(values[0])
    } else {
        held
    }
}

/// A channel that holds the last value written to it, if any. It takes one write
/// per superstep: two writes in one superstep are a conflict, even of equal values.
pub struct LastValue {
    pub typ: TypeTag,
    pub key: String,
    value: Option<Value>,
}

impl View for LastValue {
    type V = Option<Value>;

    closed spec fn view(&self) -> Option<Value> {
        self.value
    }
}

impl LastValue {
    /// The type tag.
    pub closed spec fn tag(&self) -> TypeTag {
        self.typ
    }

    /// The key, as a sequence of characters.
    pub closed spec fn name(&self) -> Seq<char> {
        self.key@
    }

    /// The channel as a model.
    pub open spec fn model(&self) -> ChannelModel {
        ChannelModel {
            kind: ChannelKind::LastValue,
            operator: 0,
            items: cell_items(self@),
        }
    }

    /// An empty channel; without a key the key is empty.
    pub fn new(typ: TypeTag, key: Option<String>) -> (ch: LastValue)
        ensures
            ch.tag() == typ,
            ch.name() == (match key {
                Some(k) => k@,
                None => Seq::<char>::empty(),
            }),
            ch@ is None,
    {
        let key = match key {
            Some(k) => k,
            None => String::new(),
        };
        LastValue { typ, key, value: None }
    }

    /// Applies the writes of one superstep. No write changes nothing and reports
    /// `false`; one write replaces the value and reports `true`; several writes are
    /// refused and the value stays.
    pub fn update(&mut self, values: &Vec<Value>) -> (r: Result<bool, ChannelError>)
        ensures
            final(self).tag() == old(self).tag(),
            final(self).name() == old(self).name(),
            final(self)@ == held_after(old(self)@, values@),
            values@.len() == 0 ==> r == Ok::<bool, ChannelError>(false),
            values@.len() == 1 ==> r == Ok::<bool, ChannelError>(true),
            values@.len() >= 2 ==> r == Err::<bool, ChannelError>(ChannelError::MultipleValues),
    {
        if values.len() == 0 {
            return Ok(false);
        }
        if values.len() != 1 {
            return Err(ChannelError::MultipleValues);
        }
        self.value = Some(values[0]);
        Ok(true)
    }

    /// The value held, or `EmptyChannelRead` if there is none.
    pub fn get(&self) -> (r: Result<Value, ChannelError>)
        ensures
            r == (match self@ {
                Some(v) => Ok::<Value, ChannelError>(v),
                None => Err::<Value, ChannelError>(ChannelError::EmptyChannelRead),
            }),
    {
        match self.value {
            Some(v) => Ok(v),
            None => Err(ChannelError::EmptyChannelRead),
        }
    }

    /// Whether a value is held.
    pub fn is_available(&self) -> (b: bool)
        ensures
            b == (self@ is Some),
    {
        self.value.is_some()
    }

    /// A task that subscribes to the channel ran: nothing changes.
    pub fn consume(&mut self) -> (changed: bool)
        ensures
            !changed,
            *final(self) == *old(self),
    {
        false
    }

    /// The run ends: nothing changes.
    pub fn finish(&mut self) -> (changed: bool)
        ensures
            !changed,
            *final(self) == *old(self),
    {
        false
    }

    /// The state to persist: the value held, if any.
    pub fn checkpoint(&self) -> (snapshot: Option<Value>)
        ensures
            snapshot == self@,
    {
        self.value
    }

    /// Takes the state of a snapshot; tag and key stay.
    pub fn restore(&mut self, snapshot: Option<Value>)
        ensures
            final(self).tag() == old(self).tag(),
            final(self).name() == old(self).name(),
            final(self)@ == snapshot,
    {
        self.value = snapshot;
    }

    /// An untyped channel with an empty key that holds what the snapshot holds.
    pub fn from_checkpoint(checkpoint: Option<Value>) -> (ch: LastValue)
        ensures
            ch.tag() == UNTYPED,
            ch.name() == Seq::<char>::empty(),
            ch@ == checkpoint,
    {
        LastValue { typ: UNTYPED, key: String::new(), value: checkpoint }
    }

    /// A channel with the same tag, key and value.
    pub fn copy(&self) -> (ch: LastValue)
        ensures
            ch == *self,
    {
        LastValue { typ: self.typ, key: self.key.clone(), value: self.value }
    }

    /// The tag of the values that are read.
    pub fn value_type(&self) -> (t: TypeTag)
        ensures
            t == self.tag(),
    {
        self.typ
    }

    /// The tag of the values that are written.
    pub fn update_type(&self) -> (t: TypeTag)
        ensures
            t == self.tag(),
    {
        self.typ
    }
}

/// Appends a copy of `items` to `target`.
pub(crate) fn append_values(target: &mut Vec<Value>, items: &Vec<Value>)
    ensures
        final(target)@ == old(target)@ + items@,
{
    let mut i: usize = 0;
    while i < items.len()
        invariant
            i <= items.len(),
            target@ == old(target)@ + items@.take(i as int),
        decreases items.len() - i,
    {
        target.push(items[i]);
        assert(items@.take(i + 1) =~= items@.take(i as int).push(items@[i as int]));
        assert(old(target)@ + items@.take(i + 1) =~= (old(target)@ + items@.take(i as int)).push(
            items@[i as int],
        ));
        i = i + 1;
    }
    assert(items@.take(i as int) =~= items@);
}

/// A channel that collects every value written to it, in the order of delivery.
/// It keeps what it collected for the whole run and keeps values that occur twice.
pub struct Topic {
    pub typ: TypeTag,
    pub key: String,
    values: Vec<Value>,
}

impl View for Topic {
    type V = Seq<Value>;

    closed spec fn view(&self) -> Seq<Value> {
        self.values@
    }
}

impl Topic {
    /// The type tag.
    pub closed spec fn tag(&self) -> TypeTag {
        self.typ
    }

    /// The key, as a sequence of characters.
    pub closed spec fn name(&self) -> Seq<char> {
        self.key@
    }

    /// The channel as a model.
    pub open spec fn model(&self) -> ChannelModel {
        ChannelModel { kind: ChannelKind::Topic, operator: 0, items: self@ }
    }

    /// An empty topic; without a key the key is empty.
    pub fn new(typ: TypeTag, key: Option<String>) -> (ch: Topic)
        ensures
            ch.tag() == typ,
            ch.name() == (match key {
                Some(k) => k@,
                None => Seq::<char>::empty(),
            }),
            ch@ == Seq::<Value>::empty(),
    {
        let key = match key {
            Some(k) => k,
            None => String::new(),
        };
        Topic { typ, key, values: Vec::new() }
    }

    /// Appends the writes of one superstep, in their order, and reports whether
    /// there was any.
    pub fn update(&mut self, values: &Vec<Value>) -> (changed: bool)
        ensures
            final(self).tag() == old(self).tag(),
            final(self).name() == old(self).name(),
            final(self)@ == old(self)@ + values@,
            changed == (values@.len() > 0),
    {
        append_values(&mut self.values, values);
        values.len() > 0
    }

    /// Everything collected so far, or `EmptyChannelRead` if that is nothing.
    pub fn get(&self) -> (r: Result<Vec<Value>, ChannelError>)
        ensures
            self@.len() == 0 ==> r == Err::<Vec<Value>, ChannelError>(ChannelError::EmptyChannelRead),
            self@.len() > 0 ==> r is Ok && r->Ok_0@ == self@,
    {
        if self.values.len() == 0 {
            Err(ChannelError::EmptyChannelRead)
        } else {
            Ok(copy_list(&self.values))
        }
    }

    /// Whether anything was collected.
    pub fn is_available(&self) -> (b: bool)
        ensures
            b == (self@.len() > 0),
    {
        self.values.len() > 0
    }

    /// A task that subscribes to the topic ran: the topic keeps what it collected.
    pub fn consume(&mut self) -> (changed: bool)
        ensures
            !changed,
            *final(self) == *old(self),
    {
        false
    }

    /// The run ends: nothing changes.
    pub fn finish(&mut self) -> (changed: bool)
        ensures
            !changed,
            *final(self) == *old(self),
    {
        false
    }

    /// The state to persist: everything collected so far.
    pub fn checkpoint(&self) -> (snapshot: Vec<Value>)
        ensures
            snapshot@ == self@,
    {
        copy_list(&self.values)
    }

    /// Takes the state of a snapshot; tag and key stay.
    pub fn restore(&mut self, snapshot: &Vec<Value>)
        ensures
            final(self).tag() == old(self).tag(),
            final(self).name() == old(self).name(),
            final(self)@ == snapshot@,
    {
        self.values = copy_list(snapshot);
    }

    /// A topic with the same tag, key and contents.
    pub fn copy(&self) -> (ch: Topic)
        ensures
            ch.tag() == self.tag(),
            ch.name() == self.name(),
            ch@ == self@,
    {
        Topic { typ: self.typ, key: self.key.clone(), values: copy_list(&self.values) }
    }
}

/// A channel that combines every write with the value it holds, by the operator
/// whose tag it carries. The caller supplies the function that evaluates operators.
/// The first value ever written is taken as it is. Several writes in one superstep
/// are combined in their order and are never a conflict.
pub struct Reducer {
    pub typ: TypeTag,
    pub key: String,
    operator: u64,
    value: Option<Value>,
}

impl View for Reducer {
    type V = Option<Value>;

    closed spec fn view(&self) -> Option<Value> {
        self.value
    }
}

impl Reducer {
    /// The type tag.
    pub closed spec fn tag(&self) -> TypeTag {
        self.typ
    }

    /// The key, as a sequence of characters.
    pub closed spec fn name(&self) -> Seq<char> {
        self.key@
    }

    /// The tag of the operator.
    pub closed spec fn code(&self) -> u64 {
        self.operator
    }

    /// The channel as a model.
    pub open spec fn model(&self) -> ChannelModel {
        ChannelModel { kind: ChannelKind::Reducer, operator: self.code(), items: cell_items(self@) }
    }

    /// An empty reducer for the operator `operator`; without a key the key is empty.
    pub fn new(typ: TypeTag, key: Option<String>, operator: u64) -> (ch: Reducer)
        ensures
            ch.tag() == typ,
            ch.name() == (match key {
                Some(k) => k@,
                None => Seq::<char>::empty(),
            }),
            ch.code() == operator,
            ch@ is None,
    {
        let key = match key {
            Some(k) => k,
            None => String::new(),
        };
        Reducer { typ, key, operator, value: None }
    }

    /// The tag of the operator.
    pub fn operator(&self) -> (code: u64)
        ensures
            code == self.code(),
    {
        self.operator
    }

    /// Combines the writes of one superstep into the value held and reports
    /// whether there was any write.
    pub fn update<F: Fn(u64, Value, Value) -> Value>(&mut self, values: &Vec<Value>, op: &F) -> (changed: bool)
        requires
            is_operator(*op),
        ensures
            final(self).tag() == old(self).tag(),
            final(self).name() == old(self).name(),
            final(self).code() == old(self).code(),
            changed == (values@.len() > 0),
            final(self).model() == old(self).model().after(values@, operator_of(*op)),
    {
        if values.len() == 0 {
            assert(self.model().after(values@, operator_of(*op)) == self.model());
            return false;
        }
        let combined = match self.value {
            None => {
                assert(values@.skip(1) =~= values@.drop_first());
                fold_from(op, self.operator, values[0], values, 1)
            },
            Some(held) => {
                assert(values@.skip(0) =~= values@);
                fold_from(op, self.operator, held, values, 0)
            },
        };
        self.value = Some(combined);
        true
    }

    /// The value held, or `EmptyChannelRead` if there is none.
    pub fn get(&self) -> (r: Result<Value, ChannelError>)
        ensures
            r == (match self@ {
                Some(v) => Ok::<Value, ChannelError>(v),
                None => Err::<Value, ChannelError>(ChannelError::EmptyChannelRead),
            }),
    {
        match self.value {
            Some(v) => Ok(v),
            None => Err(ChannelError::EmptyChannelRead),
        }
    }

    /// Whether a value is held.
    pub fn is_available(&self) -> (b: bool)
        ensures
            b == (self@ is Some),
    {
        self.value.is_some()
    }

    /// A task that subscribes to the channel ran: nothing changes.
    pub fn consume(&mut self) -> (changed: bool)
        ensures
            !changed,
            *final(self) == *old(self),
    {
        false
    }

    /// The run ends: nothing changes.
    pub fn finish(&mut self) -> (changed: bool)
        ensures
            !changed,
            *final(self) == *old(self),
    {
        false
    }

    /// The state to persist: the value held, if any.
    pub fn checkpoint(&self) -> (snapshot: Option<Value>)
        ensures
            snapshot == self@,
    {
        self.value
    }

    /// Takes the state of a snapshot; tag, key and operator stay.
    pub fn restore(&mut self, snapshot: Option<Value>)
        ensures
            final(self).tag() == old(self).tag(),
            final(self).name() == old(self).name(),
            final(self).code() == old(self).code(),
            final(self)@ == snapshot,
    {
        self.value = snapshot;
    }

    /// A reducer with the same tag, key, operator and value.
    pub fn copy(&self) -> (ch: Reducer)
        ensures
            ch == *self,
    {
        Reducer { typ: self.typ, key: self.key.clone(), operator: self.operator, value: self.value }
    }
}

/// A channel of any kind.
pub enum Channel {
    LastValue(LastValue),
    Topic(Topic),
    Reducer(Reducer),
}

impl Channel {
    /// The channel as a model.
    pub open spec fn model(&self) -> ChannelModel {
        match self {
            Channel::LastValue(c) => c.model(),
            Channel::Topic(c) => c.model(),
            Channel::Reducer(c) => c.model(),
        }
    }

    /// The key, as a sequence of characters.
    pub open spec fn name(&self) -> Seq<char> {
        match self {
            Channel::LastValue(c) => c.name(),
            Channel::Topic(c) => c.name(),
            Channel::Reducer(c) => c.name(),
        }
    }

    /// The kind of the channel.
    pub fn kind(&self) -> (k: ChannelKind)
        ensures
            k == self.model().kind,
    {
        match self {
            Channel::LastValue(_) => ChannelKind::LastValue,
            Channel::Topic(_) => ChannelKind::Topic,
            Channel::Reducer(_) => ChannelKind::Reducer,
        }
    }

    /// Applies the writes of one superstep. A last-value channel refuses several
    /// writes with `MultipleValues` and stays as it is; every other update is
    /// applied and reports whether the channel changed.
    pub fn update<F: Fn(u64, Value, Value) -> Value>(&mut self, values: &Vec<Value>, op: &F) -> (r: Result<
        bool,
        ChannelError,
    >)
        requires
            is_operator(*op),
        ensures
            final(self).name() == old(self).name(),
            old(self).model().accepts(values@) ==> r == Ok::<bool, ChannelError>(
                old(self).model().changed_by(values@),
            ),
            !old(self).model().accepts(values@) ==> r == Err::<bool, ChannelError>(
                ChannelError::MultipleValues,
            ),
            final(self).model() == old(self).model().after(values@, operator_of(*op)),
    {
        match self {
            Channel::LastValue(c) => {
                let r = c.update(values);
                assert(c.model().items =~= old(self).model().items_after(values@, operator_of(*op)));
                r
            },
            Channel::Topic(c) => {
                let changed = c.update(values);
                assert(c.model().items =~= old(self).model().items_after(values@, operator_of(*op)));
                Ok(changed)
            },
            Channel::Reducer(c) => Ok(c.update(values, op)),
        }
    }

    /// The values held, oldest first, or `EmptyChannelRead` if there is none.
    pub fn get(&self) -> (r: Result<Vec<Value>, ChannelError>)
        ensures
            self.model().items.len() == 0 ==> r == Err::<Vec<Value>, ChannelError>(
                ChannelError::EmptyChannelRead,
            ),
            self.model().items.len() > 0 ==> r is Ok && r->Ok_0@ == self.model().items,
    {
        if self.is_available() {
            Ok(self.checkpoint())
        } else {
            Err(ChannelError::EmptyChannelRead)
        }
    }

    /// Whether the channel holds a value.
    pub fn is_available(&self) -> (b: bool)
        ensures
            b == (self.model().items.len() > 0),
    {
        match self {
            Channel::LastValue(c) => c.is_available(),
            Channel::Topic(c) => c.is_available(),
            Channel::Reducer(c) => c.is_available(),
        }
    }

    /// A task that subscribes to the channel ran: no kind of channel changes.
    pub fn consume(&mut self) -> (changed: bool)
        ensures
            !changed,
            *final(self) == *old(self),
    {
        false
    }

    /// The run ends: no kind of channel changes.
    pub fn finish(&mut self) -> (changed: bool)
        ensures
            !changed,
            *final(self) == *old(self),
    {
        false
    }

    /// The state to persist: the values held, oldest first.
    pub fn checkpoint(&self) -> (snapshot: Vec<Value>)
        ensures
            snapshot@ == self.model().items,
    {
        match self {
            Channel::LastValue(c) => cell_to_values(c.checkpoint()),
            Channel::Topic(c) => c.checkpoint(),
            Channel::Reducer(c) => cell_to_values(c.checkpoint()),
        }
    }

    /// Whether `snapshot` can be the state of this channel: only a topic holds
    /// more than one value.
    pub open spec fn fits(&self, snapshot: Seq<Value>) -> bool {
        self.model().with_items(snapshot).wf()
    }

    /// Takes the state of a snapshot that fits and reports `true`; one that does
    /// not fit is refused, and the channel stays as it is.
    pub fn restore(&mut self, snapshot: &Vec<Value>) -> (done: bool)
        ensures
            final(self).name() == old(self).name(),
            done == old(self).fits(snapshot@),
            done ==> final(self).model() == old(self).model().with_items(snapshot@),
            !done ==> *final(self) == *old(self),
    {
        match self {
            Channel::LastValue(c) => {
                if snapshot.len() > 1 {
                    return false;
                }
                c.restore(values_to_cell(snapshot));
                assert(c.model().items =~= snapshot@);
                true
            },
            Channel::Topic(c) => {
                c.restore(snapshot);
                true
            },
            Channel::Reducer(c) => {
                if snapshot.len() > 1 {
                    return false;
                }
                c.restore(values_to_cell(snapshot));
                assert(c.model().items =~= snapshot@);
                true
            },
        }
    }

    /// A channel of the same kind with the same key and contents.
    pub fn copy(&self) -> (ch: Channel)
        ensures
            ch.model() == self.model(),
            ch.name() == self.name(),
    {
        match self {
            Channel::LastValue(c) => Channel::LastValue(c.copy()),
            Channel::Topic(c) => Channel::Topic(c.copy()),
            Channel::Reducer(c) => Channel::Reducer(c.copy()),
        }
    }
}

/// The values of a cell as a vector.
pub(crate) fn cell_to_values(cell: Option<Value>) -> (out: Vec<Value>)
    ensures
        out@ == cell_items(cell),
{
    let mut out: Vec<Value> = Vec::new();
    match cell {
        Some(v) => {
            out.push(v);
            assert(out@ =~= seq![v]);
        },
        None => {},
    }
    out
}

/// The cell that holds the first of `items`, if there is one.
pub(crate) fn values_to_cell(items: &Vec<Value>) -> (cell: Option<Value>)
    ensures
        items@.len() == 0 ==> cell is None,
        items@.len() > 0 ==> cell == Some(items@[0]),
        items@.len() <= 1 ==> cell_items(cell) =~= items@,
{
    if items.len() == 0 {
        None
    } else {
        Some(items[0])
    }
}

/// What a last-value channel holds after a series of updates, each with the writes
/// of one superstep.
pub open spec fn last_value_after(start: Option<Value>, calls: Seq<Seq<Value>>) -> Option<Value>
    decreases calls.len(),
{
    if calls.len() == 0 {
        start
    } else {
        held_after(last_value_after(start, calls.drop_last()), calls.last())
    }
}

/// All values of a series of updates, in the order in which they were supplied.
pub open spec fn supplied(calls: Seq<Seq<Value>>) -> Seq<Value>
    decreases calls.len(),
{
    if calls.len() == 0 {
        Seq::<Value>::empty()
    } else {
        supplied(calls.drop_last()) + calls.last()
    }
}

/// After any series of updates that each supply at most one value, a last-value
/// channel holds the value supplied most recently; if none was supplied it holds
/// what it held before.
pub proof fn lemma_last_value_holds_most_recent(start: Option<Value>, calls: Seq<Seq<Value>>)
    requires
        forall|i: int| 0 <= i < calls.len() ==> (#[trigger] calls[i]).len() <= 1,
    ensures
        supplied(calls).len() == 0 ==> last_value_after(start, calls) == start,
        supplied(calls).len() > 0 ==> last_value_after(start, calls) == Some(supplied(calls).last()),
    decreases calls.len(),
{
    if calls.len() > 0 {
        let init = calls.drop_last();
        assert forall|i: int| 0 <= i < init.len() implies (#[trigger] init[i]).len() <= 1 by {
            assert(init[i] == calls[i]);
        }
        lemma_last_value_holds_most_recent(start, init);
        if calls.last().len() == 0 {
            assert(supplied(calls) =~= supplied(init));
        }
    }
}

/// An update that supplies two or more values leaves a last-value channel as the
/// updates before it left it.
pub proof fn lemma_last_value_conflict_keeps(start: Option<Value>, calls: Seq<Seq<Value>>, values: Seq<Value>)
    requires
        values.len() >= 2,
    ensures
        last_value_after(start, calls.push(values)) == last_value_after(start, calls),
{
    assert(calls.push(values).drop_last() =~= calls);
}

} // verus!
