//! The task queue: tasks that need no connection (UID compaction, index
//! updates, expunges), handled first in, first out.

use vstd::prelude::*;

use crate::types::{is_v4_uuid, random_uuid, TaskType};
use std::collections::VecDeque;

verus! {

#[verifier::external_type_specification]
#[verifier::external_body]
pub struct ExJsonValue(serde_json::Value);

/// The current time in milliseconds since the Unix epoch
/// (`chrono::Utc::now`). Nothing is promised of the value.
#[verifier::external_body]
pub(crate) fn now_millis() -> i64 {
    chrono::Utc::now().timestamp_millis()
}

/// A task for the queue. `id` holds the bits of a UUID; `created_at` is in
/// milliseconds since the Unix epoch.
#[derive(Debug)]
pub struct QueueTask {
    pub id: u128,
    pub task_type: TaskType,
    pub created_at: i64,
    pub payload: serde_json::Value,
}

impl QueueTask {
    /// A task of the given type with a fresh random id, created now.
    pub fn new(task_type: TaskType, payload: serde_json::Value) -> (t: Self)
        ensures
            t.task_type == task_type,
            t.payload == payload,
            is_v4_uuid(t.id),
    {
        QueueTask { id: random_uuid(), task_type, created_at: now_millis(), payload }
    }
}

/// `i` is the position of the first task with id `id`.
pub open spec fn is_first_with_id(tasks: Seq<QueueTask>, id: u128, i: int) -> bool {
    &&& 0 <= i < tasks.len()
    &&& tasks[i].id == id
    &&& forall|j: int| 0 <= j < i ==> (#[trigger] tasks[j]).id != id
}

/// A first-in, first-out queue of tasks.
pub struct InMemoryQueue {
    tasks: VecDeque<QueueTask>,
}

impl View for InMemoryQueue {
    type V = Seq<QueueTask>;

    closed spec fn view(&self) -> Seq<QueueTask> {
        self.tasks@
    }
}

impl Default for InMemoryQueue {
    fn default() -> (q: Self)
        ensures
            q@ == Seq::<QueueTask>::empty(),
    {
        InMemoryQueue::new()
    }
}

impl InMemoryQueue {
    /// An empty queue.
    pub fn new() -> (q: Self)
        ensures
            q@ == Seq::<QueueTask>::empty(),
    {
        InMemoryQueue { tasks: VecDeque::new() }
    }

    /// Adds a task at the back.
    pub fn enqueue(&mut self, task: QueueTask)
        ensures
            final(self)@ == old(self)@.push(task),
    {
        self.tasks.push_back(task);
    }

    /// Takes the task at the front, if any.
    pub fn dequeue(&mut self) -> (r: Option<QueueTask>)
        ensures
            old(self)@.len() == 0 ==> r is None && final(self)@ == old(self)@,
            old(self)@.len() > 0 ==> r == Some(old(self)@[0]) && final(self)@ == old(self)@.skip(
                1,
            ),
    {
        let r = self.tasks.pop_front();
        proof {
            if old(self)@.len() > 0 {
                assert(old(self)@.subrange(1, old(self)@.len() as int) =~= old(self)@.skip(1));
            }
        }
        r
    }

    /// The task at the front, if any.
    pub fn peek(&self) -> (r: Option<&QueueTask>)
        ensures
            self@.len() == 0 ==> r is None,
            self@.len() > 0 ==> r == Some(&self@[0]),
    {
        if self.tasks.len() == 0 {
            None
        } else {
            Some(&self.tasks[0])
        }
    }

    /// The number of pending tasks.
    pub fn len(&self) -> (r: usize)
        ensures
            r == self@.len(),
    {
        self.tasks.len()
    }

    /// Whether no task is pending.
    pub fn is_empty(&self) -> (r: bool)
        ensures
            r == (self@.len() == 0),
    {
        self.tasks.len() == 0
    }

    /// Removes the first task with id `id`; tells whether there was one.
    pub fn remove(&mut self, id: u128) -> (r: bool)
        ensures
            r == exists|i: int| is_first_with_id(old(self)@, id, i),
            r ==> exists|i: int|
                is_first_with_id(old(self)@, id, i) && final(self)@ == old(self)@.remove(i),
            !r ==> final(self)@ == old(self)@,
    {
        let n = self.tasks.len();
        let mut i: usize = 0;
        while i < n
            invariant
                n == self@.len(),
                self@ == old(self)@,
                i <= n,
                forall|j: int| 0 <= j < i ==> (#[trigger] self@[j]).id != id,
            decreases n - i,
        {
            if self.tasks[i].id == id {
                assert(is_first_with_id(old(self)@, id, i as int));
                self.tasks.remove(i);
                return true;
            }
            i = i + 1;
        }
        assert(!exists|k: int| is_first_with_id(old(self)@, id, k)) by {
            if exists|k: int| is_first_with_id(old(self)@, id, k) {
                let k = choose|k: int| is_first_with_id(old(self)@, id, k);
                assert(old(self)@[k].id != id);
            }
        }
        false
    }

    /// Removes every task.
    pub fn clear(&mut self)
        ensures
            final(self)@ == Seq::<QueueTask>::empty(),
    {
        self.tasks.clear();
    }
}

/// Tasks leave the queue in the order they came in: a task enqueued behind
/// pending tasks comes out after all of them, and the first of an empty
/// queue comes out first.
pub proof fn law_first_in_first_out(pending: Seq<QueueTask>, task: QueueTask)
    ensures
        pending.len() == 0 ==> pending.push(task)[0] == task,
        pending.len() > 0 ==> pending.push(task)[0] == pending[0] && pending.push(task).skip(1)
            == pending.skip(1).push(task),
{
    if pending.len() > 0 {
        assert(pending.push(task).skip(1) =~= pending.skip(1).push(task));
    }
}

} // verus!
