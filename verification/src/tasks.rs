//! A table of background tasks, keyed by small recycled integer ids.

use std::collections::HashMap;
use vstd::prelude::*;

verus! {

broadcast use vstd::std_specs::hash::group_hash_axioms;

/// Holds the handles of running tasks under integer ids. Ids of removed
/// tasks are handed out again, most recently freed first.
pub struct TaskTable<H> {
    tasks: HashMap<u32, H>,
    next_task_id: u32,
    free_task_ids: Vec<u32>,
}

impl<H> TaskTable<H> {
    /// The handles held, by id.
    pub closed spec fn tasks(&self) -> Map<u32, H> {
        self.tasks@
    }

    /// The ids freed by `remove` and not yet reused, the next one to be
    /// reused last.
    pub closed spec fn free_ids(&self) -> Seq<u32> {
        self.free_task_ids@
    }

    /// The smallest id that has never been handed out.
    pub closed spec fn next_id(&self) -> u32 {
        self.next_task_id
    }

    /// Every id in use or free is below `next_id`, no id is both in use and
    /// free, and no id is free twice.
    pub closed spec fn wf(&self) -> bool {
        &&& forall|id: u32| #[trigger] self.tasks@.contains_key(id) ==> id < self.next_task_id
        &&& forall|i: int|
            0 <= i < self.free_task_ids@.len() ==> #[trigger] self.free_task_ids@[i]
                < self.next_task_id && !self.tasks@.contains_key(self.free_task_ids@[i])
        &&& self.free_task_ids@.no_duplicates()
    }

    /// Creates an empty table.
    pub fn new() -> (r: Self)
        ensures
            r.wf(),
            r.tasks() == Map::<u32, H>::empty(),
            r.free_ids() == Seq::<u32>::empty(),
            r.next_id() == 0,
    {
        TaskTable { tasks: HashMap::new(), next_task_id: 0, free_task_ids: Vec::new() }
    }

    /// Stores `handle` under a fresh id and returns the id: the most recently
    /// freed one if any, else the next never-used one. Returns `None`, and
    /// leaves the table unchanged, when no free id is left and every `u32`
    /// has been used.
    pub fn push(&mut self, handle: H) -> (r: Option<u32>)
        requires
            old(self).wf(),
        ensures
            final(self).wf(),
            match r {
                Some(id) => {
                    &&& !old(self).tasks().contains_key(id)
                    &&& final(self).tasks() == old(self).tasks().insert(id, handle)
                    &&& if old(self).free_ids().len() > 0 {
                        &&& id == old(self).free_ids().last()
                        &&& final(self).free_ids() == old(self).free_ids().drop_last()
                        &&& final(self).next_id() == old(self).next_id()
                    } else {
                        &&& id == old(self).next_id()
                        &&& final(self).free_ids() == old(self).free_ids()
                        &&& final(self).next_id() == old(self).next_id() + 1
                    }
                },
                None => {
                    &&& old(self).free_ids().len() == 0
                    &&& old(self).next_id() == u32::MAX
                    &&& final(self).tasks() == old(self).tasks()
                    &&& final(self).free_ids() == old(self).free_ids()
                    &&& final(self).next_id() == old(self).next_id()
                },
            },
    {
        let id = if let Some(id) = self.free_task_ids.pop() {
            proof {
                assert(old(self).free_ids()[old(self).free_ids().len() - 1] == id);
                assert forall|i: int| 0 <= i < self.free_task_ids@.len() implies
                    #[trigger] self.free_task_ids@[i] != id by {
                    assert(old(self).free_ids()[i] == self.free_task_ids@[i]);
                }
            }
            id
        } else {
            let id = self.next_task_id;
            if id == u32::MAX {
                return None;
            }
            self.next_task_id = id + 1;
            id
        };
        self.tasks.insert(id, handle);
        proof {
            assert forall|i: int| 0 <= i < self.free_task_ids@.len() implies
                #[trigger] self.free_task_ids@[i] < self.next_task_id
                && !self.tasks@.contains_key(self.free_task_ids@[i]) by {
                if old(self).free_ids().len() > 0 {
                    assert(old(self).free_ids()[i] == self.free_task_ids@[i]);
                    assert(old(self).free_ids()[old(self).free_ids().len() - 1] == id);
                } else {
                    assert(old(self).free_ids()[i] == self.free_task_ids@[i]);
                }
            }
            if old(self).free_ids().len() > 0 {
                let last = old(self).free_ids().len() - 1;
                assert(old(self).free_ids()[last] == id);
                assert(self.free_task_ids@ =~= old(self).free_ids().drop_last());
            }
        }
        Some(id)
    }

    /// Removes the task with the given id and returns its handle, freeing
    /// the id for reuse; returns `None`, changing nothing, when no task has
    /// that id.
    pub fn remove(&mut self, id: u32) -> (r: Option<H>)
        requires
            old(self).wf(),
        ensures
            final(self).wf(),
            match r {
                Some(h) => {
                    &&& old(self).tasks().contains_key(id)
                    &&& h == old(self).tasks()[id]
                    &&& final(self).tasks() == old(self).tasks().remove(id)
                    &&& final(self).free_ids() == old(self).free_ids().push(id)
                    &&& final(self).next_id() == old(self).next_id()
                },
                None => {
                    &&& !old(self).tasks().contains_key(id)
                    &&& final(self).tasks() == old(self).tasks()
                    &&& final(self).free_ids() == old(self).free_ids()
                    &&& final(self).next_id() == old(self).next_id()
                },
            },
    {
        let handle = match self.tasks.remove(&id) {
            Some(h) => h,
            None => {
                proof {
                    assert(self.tasks@ =~= old(self).tasks());
                }
                return None;
            },
        };
        self.free_task_ids.push(id);
        proof {
            assert forall|i: int| 0 <= i < self.free_task_ids@.len() implies
                #[trigger] self.free_task_ids@[i] < self.next_task_id
                && !self.tasks@.contains_key(self.free_task_ids@[i]) by {
                if i < old(self).free_ids().len() {
                    assert(old(self).free_ids()[i] == self.free_task_ids@[i]);
                }
            }
            assert forall|i: int, j: int|
                0 <= i < self.free_task_ids@.len() && 0 <= j < self.free_task_ids@.len() && i
                    != j implies self.free_task_ids@[i] != self.free_task_ids@[j] by {
                if i < old(self).free_ids().len() && j < old(self).free_ids().len() {
                    assert(old(self).free_ids()[i] == self.free_task_ids@[i]);
                    assert(old(self).free_ids()[j] == self.free_task_ids@[j]);
                } else if i < old(self).free_ids().len() {
                    assert(old(self).free_ids()[i] == self.free_task_ids@[i]);
                } else if j < old(self).free_ids().len() {
                    assert(old(self).free_ids()[j] == self.free_task_ids@[j]);
                }
            }
        }
        Some(handle)
    }
}

impl<H> TaskTable<H> {
    /// Pushes the handles in turn and returns the id each got. On a table
    /// with no freed ids, with room for all of them, the ids are the next
    /// never-used ones in order, each holding its handle; from a new table
    /// they are `0, 1, 2, ...`.
    pub fn push_all(&mut self, handles: Vec<H>) -> (r: Vec<Option<u32>>)
        requires
            old(self).wf(),
        ensures
            final(self).wf(),
            r@.len() == handles@.len(),
            old(self).free_ids().len() == 0 && old(self).next_id() + handles@.len() <= u32::MAX
                ==> {
                &&& forall|i: int|
                    0 <= i < r@.len() ==> #[trigger] r@[i] == Some((old(self).next_id() + i) as u32)
                &&& forall|i: int|
                    0 <= i < handles@.len() ==> final(self).tasks()[(old(self).next_id() + i) as u32]
                        == #[trigger] handles@[i]
                &&& forall|id: u32| #[trigger]
                    final(self).tasks().contains_key(id) <==> old(self).tasks().contains_key(id) || (
                    old(self).next_id() <= id < old(self).next_id() + handles@.len())
                &&& final(self).next_id() == old(self).next_id() + handles@.len()
                &&& final(self).free_ids() == Seq::<u32>::empty()
            },
    {
        let ghost start = old(self).next_id();
        let ghost fresh = old(self).free_ids().len() == 0 && start + handles@.len() <= u32::MAX;
        let ghost hs = handles@;
        let ghost t0 = old(self).tasks();
        let mut handles = handles;
        let mut ids: Vec<Option<u32>> = Vec::new();
        while handles.len() > 0
            invariant
                self.wf(),
                ids@.len() + handles@.len() == hs.len(),
                handles@ == hs.skip(ids@.len() as int),
                fresh ==> start + hs.len() <= u32::MAX,
                fresh ==> {
                    &&& self.free_ids() == Seq::<u32>::empty()
                    &&& self.next_id() == start + ids@.len()
                    &&& forall|i: int| 0 <= i < ids@.len() ==> #[trigger] ids@[i] == Some((start + i) as u32)
                    &&& forall|i: int|
                        0 <= i < ids@.len() ==> self.tasks()[(start + i) as u32] == #[trigger] hs[i]
                    &&& forall|id: u32| #[trigger]
                        self.tasks().contains_key(id) <==> t0.contains_key(id) || (start <= id < start
                            + ids@.len())
                },
            decreases handles@.len(),
        {
            let h = handles.remove(0);
            proof {
                assert(h == hs[ids@.len() as int]);
                assert(handles@ =~= hs.skip(ids@.len() as int + 1));
            }
            let ghost before = self.tasks();
            let ghost k = ids@.len() as int;
            let ghost ids_before = ids@;
            let id = self.push(h);
            ids.push(id);
            proof {
                if fresh {
                    assert(start + k < u32::MAX);
                    assert(id == Some((start + k) as u32));
                    assert(self.tasks() == before.insert((start + k) as u32, hs[k]));
                    assert(ids@ == ids_before.push(id));
                    assert forall|i: int| 0 <= i < ids@.len() implies self.tasks()[(start + i)
                        as u32] == #[trigger] hs[i] by {
                        if i < k {
                            assert((start + i) as u32 == start + i);
                            assert((start + k) as u32 == start + k);
                            assert(before[(start + i) as u32] == hs[i]);
                        }
                    }
                }
            }
        }
        ids
    }
}

impl<H> Default for TaskTable<H> {
    /// An empty table.
    fn default() -> (r: Self)
        ensures
            r.wf(),
            r.tasks() == Map::<u32, H>::empty(),
            r.free_ids() == Seq::<u32>::empty(),
            r.next_id() == 0,
    {
        TaskTable::new()
    }
}

/// Removing the task just pushed gives back its handle and restores the
/// table's contents: `push` followed by `remove` of the returned id is the
/// identity on the table's tasks.
pub proof fn lemma_push_then_remove<H>(before: Map<u32, H>, id: u32, handle: H)
    requires
        !before.contains_key(id),
    ensures
        before.insert(id, handle).contains_key(id),
        before.insert(id, handle)[id] == handle,
        before.insert(id, handle).remove(id) == before,
{
    assert(before.insert(id, handle).remove(id) =~= before);
}

/// An id freed by `remove` is the next one that `push` hands out: after
/// `remove` appends it to the free ids, it is their last element, and taking
/// it off restores the free ids as they were.
pub proof fn lemma_remove_then_push_reuses(
    free_before: Seq<u32>,
    id: u32,
)
    ensures
        free_before.push(id).len() > 0,
        free_before.push(id).last() == id,
        free_before.push(id).drop_last() == free_before,
{
    assert(free_before.push(id).drop_last() =~= free_before);
}

} // verus!
