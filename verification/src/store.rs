//! A checkpoint store that keeps everything in memory.
//!
//! Checkpoints are kept by thread, in the order in which they were put, and are
//! never changed afterwards.

use crate::checkpoint::{Checkpoint, CheckpointModel};
use vstd::prelude::*;

verus! {

/// The store holds no checkpoint that was asked for.
#[derive(Clone, Copy, PartialEq, Eq, Structural, Debug)]
pub enum StoreError {
    NotFound,
}

/// The checkpoints of one thread, oldest first.
pub struct ThreadLog {
    pub thread_id: String,
    pub checkpoints: Vec<Checkpoint>,
}

/// The checkpoints of a list, as mathematical values.
pub open spec fn checkpoint_models(list: Seq<Checkpoint>) -> Seq<CheckpointModel> {
    Seq::new(list.len(), |i: int| list[i]@)
}

/// The position of the last checkpoint below `k` with id `id`, if there is one.
pub open spec fn last_with_id(history: Seq<CheckpointModel>, id: Seq<char>, k: nat) -> Option<int>
    decreases k,
{
    if k == 0 {
        None
    } else if history[k - 1].id == id {
        Some(k - 1)
    } else {
        last_with_id(history, id, (k - 1) as nat)
    }
}

/// The checkpoint that is asked for: the last one with the id, or without an id
/// the last one of all.
pub open spec fn selected(history: Seq<CheckpointModel>, id: Option<Seq<char>>) -> Option<int> {
    match id {
        Some(id) => last_with_id(history, id, history.len()),
        None => if history.len() > 0 {
            Some(history.len() - 1)
        } else {
            None
        },
    }
}

/// An in-memory checkpoint store.
pub struct MemoryStore {
    logs: Vec<ThreadLog>,
}

impl MemoryStore {
    /// No two logs are of the same thread.
    pub closed spec fn wf(&self) -> bool {
        forall|i: int, j: int|
            0 <= i < j < self.logs@.len() ==> (#[trigger] self.logs@[i]).thread_id@ != (
            #[trigger] self.logs@[j]).thread_id@
    }

    /// The position of the log of `thread` among the first `k` logs.
    closed spec fn position(&self, thread: Seq<char>, k: nat) -> Option<int>
        decreases k,
    {
        if k == 0 {
            None
        } else if self.logs@[k - 1].thread_id@ == thread {
            Some(k - 1)
        } else {
            self.position(thread, (k - 1) as nat)
        }
    }

    /// The checkpoints of `thread`, oldest first; none if nothing was put for it.
    pub closed spec fn history(&self, thread: Seq<char>) -> Seq<CheckpointModel> {
        match self.position(thread, self.logs@.len()) {
            Some(i) => checkpoint_models(self.logs@[i].checkpoints@),
            None => Seq::<CheckpointModel>::empty(),
        }
    }

    proof fn lemma_position(&self, thread: Seq<char>, k: nat)
        requires
            k <= self.logs@.len(),
        ensures
            self.position(thread, k) is None <==> forall|i: int|
                0 <= i < k ==> (#[trigger] self.logs@[i]).thread_id@ != thread,
            self.position(thread, k) is Some ==> 0 <= self.position(thread, k)->Some_0 < k && self.logs@[self.position(
                thread,
                k,
            )->Some_0].thread_id@ == thread,
        decreases k,
    {
        if k > 0 {
            self.lemma_position(thread, (k - 1) as nat);
        }
    }

    proof fn lemma_position_unique(&self, thread: Seq<char>, i: int)
        requires
            self.wf(),
            0 <= i < self.logs@.len(),
            self.logs@[i].thread_id@ == thread,
        ensures
            self.position(thread, self.logs@.len()) == Some(i),
    {
        self.lemma_position(thread, self.logs@.len());
    }

    /// An empty store.
    pub fn new() -> (store: MemoryStore)
        ensures
            store.wf(),
            forall|thread: Seq<char>| (#[trigger] store.history(thread)) == Seq::<CheckpointModel>::empty(),
    {
        MemoryStore { logs: Vec::new() }
    }

    fn find(&self, thread_id: &String) -> (r: Option<usize>)
        requires
            self.wf(),
        ensures
            r is Some ==> r->Some_0 < self.logs@.len() && self.position(thread_id@, self.logs@.len()) == Some(
                r->Some_0 as int,
            ),
            r is None ==> self.position(thread_id@, self.logs@.len()) is None,
    {
        let mut i: usize = 0;
        while i < self.logs.len()
            invariant
                i <= self.logs@.len(),
                self.wf(),
                forall|a: int| 0 <= a < i ==> (#[trigger] self.logs@[a]).thread_id@ != thread_id@,
            decreases self.logs@.len() - i,
        {
            if self.logs[i].thread_id == *thread_id {
                proof {
                    self.lemma_position_unique(thread_id@, i as int);
                }
                return Some(i);
            }
            i = i + 1;
        }
        proof {
            self.lemma_position(thread_id@, self.logs@.len());
        }
        None
    }

    /// Appends a checkpoint to the history of a thread and gives its id back.
    /// The histories of other threads stay as they are.
    pub fn put(&mut self, thread_id: &String, checkpoint: Checkpoint) -> (id: String)
        requires
            old(self).wf(),
        ensures
            final(self).wf(),
            id@ == checkpoint@.id,
            final(self).history(thread_id@) == old(self).history(thread_id@).push(checkpoint@),
            forall|other: Seq<char>|
                other != thread_id@ ==> (#[trigger] final(self).history(other)) == old(self).history(other),
    {
        let id = checkpoint.id.clone();
        let ghost before = *self;
        match self.find(thread_id) {
            Some(i) => {
                let ghost old_list = self.logs@[i as int].checkpoints@;
                proof {
                    before.lemma_position(thread_id@, before.logs@.len());
                }
                self.logs[i].checkpoints.push(checkpoint);
                proof {
                    assert(self.logs@.len() == before.logs@.len());
                    assert(self.logs@[i as int].thread_id@ == thread_id@);
                    self.lemma_position_unique(thread_id@, i as int);
                    assert(checkpoint_models(self.logs@[i as int].checkpoints@) =~= checkpoint_models(old_list).push(
                        checkpoint@,
                    ));
                    assert forall|other: Seq<char>| other != thread_id@ implies (#[trigger] self.history(other))
                        == before.history(other) by {
                        self.lemma_same_positions(before, other, self.logs@.len());
                        before.lemma_position(other, before.logs@.len());
                    }
                }
            },
            None => {
                let mut checkpoints: Vec<Checkpoint> = Vec::new();
                checkpoints.push(checkpoint);
                self.logs.push(ThreadLog { thread_id: thread_id.clone(), checkpoints });
                proof {
                    before.lemma_position(thread_id@, before.logs@.len());
                    let last = self.logs@.len() - 1;
                    assert forall|a: int| 0 <= a < before.logs@.len() implies (#[trigger] self.logs@[a])
                        == before.logs@[a] by {}
                    self.lemma_position_unique(thread_id@, last);
                    assert(checkpoint_models(self.logs@[last].checkpoints@) =~= Seq::<CheckpointModel>::empty().push(
                        checkpoint@,
                    ));
                    assert forall|other: Seq<char>| other != thread_id@ implies (#[trigger] self.history(other))
                        == before.history(other) by {
                        self.lemma_same_positions(before, other, before.logs@.len());
                        assert(self.logs@[last].thread_id@ == thread_id@);
                        assert(self.position(other, self.logs@.len()) == self.position(
                            other,
                            before.logs@.len(),
                        ));
                        before.lemma_position(other, before.logs@.len());
                    }
                }
            },
        }
        id
    }

    proof fn lemma_same_positions(&self, before: MemoryStore, thread: Seq<char>, k: nat)
        requires
            k <= self.logs@.len(),
            k <= before.logs@.len(),
            forall|a: int| 0 <= a < k ==> (#[trigger] self.logs@[a]).thread_id@ == before.logs@[a].thread_id@,
        ensures
            self.position(thread, k) == before.position(thread, k),
        decreases k,
    {
        if k > 0 {
            self.lemma_same_positions(before, thread, (k - 1) as nat);
        }
    }

    /// The checkpoints of a thread, oldest first.
    pub fn list(&self, thread_id: &String) -> (list: Vec<Checkpoint>)
        requires
            self.wf(),
        ensures
            checkpoint_models(list@) == self.history(thread_id@),
    {
        let mut list: Vec<Checkpoint> = Vec::new();
        match self.find(thread_id) {
            Some(i) => {
                let log = &self.logs[i];
                let mut k: usize = 0;
                while k < log.checkpoints.len()
                    invariant
                        k <= log.checkpoints@.len(),
                        list@.len() == k,
                        forall|a: int| 0 <= a < k ==> (#[trigger] list@[a])@ == log.checkpoints@[a]@,
                    decreases log.checkpoints@.len() - k,
                {
                    list.push(log.checkpoints[k].copy());
                    k = k + 1;
                }
                assert(checkpoint_models(list@) =~= checkpoint_models(log.checkpoints@));
            },
            None => {
                assert(checkpoint_models(list@) =~= Seq::<CheckpointModel>::empty());
            },
        }
        list
    }

    /// A checkpoint of a thread: the last one put under `checkpoint_id`, or
    /// without an id the last one put at all. `NotFound` if there is none.
    pub fn get(&self, thread_id: &String, checkpoint_id: Option<&String>) -> (r: Result<Checkpoint, StoreError>)
        requires
            self.wf(),
        ensures
            r is Ok <==> selected(self.history(thread_id@), id_of(checkpoint_id)) is Some,
            r is Ok ==> r->Ok_0@ == self.history(thread_id@)[selected(
                self.history(thread_id@),
                id_of(checkpoint_id),
            )->Some_0],
            r is Err ==> r->Err_0 == StoreError::NotFound,
    {
        match self.find(thread_id) {
            None => Err(StoreError::NotFound),
            Some(i) => {
                let log = &self.logs[i];
                let ghost history = checkpoint_models(log.checkpoints@);
                match checkpoint_id {
                    None => {
                        if log.checkpoints.len() > 0 {
                            Ok(log.checkpoints[log.checkpoints.len() - 1].copy())
                        } else {
                            Err(StoreError::NotFound)
                        }
                    },
                    Some(id) => {
                        let mut k: usize = log.checkpoints.len();
                        while k > 0
                            invariant
                                k <= log.checkpoints@.len(),
                                history == checkpoint_models(log.checkpoints@),
                                history == self.history(thread_id@),
                                id_of(checkpoint_id) == Some(id@),
                                last_with_id(history, id@, history.len()) == last_with_id(history, id@, k as nat),
                            decreases k,
                        {
                            assert(history[k - 1] == log.checkpoints@[k - 1]@);
                            if log.checkpoints[k - 1].id == *id {
                                assert(last_with_id(history, id@, k as nat) == Some(k - 1));
                                return Ok(log.checkpoints[k - 1].copy());
                            }
                            k = k - 1;
                        }
                        Err(StoreError::NotFound)
                    },
                }
            },
        }
    }
}

/// The characters of an id that may be absent.
pub open spec fn id_of(id: Option<&String>) -> Option<Seq<char>> {
    match id {
        Some(id) => Some(id@),
        None => None,
    }
}

} // verus!
